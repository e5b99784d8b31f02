//! The file handler: what a request for a path is answered with.
//!
//! The handler never touches the network or the disk. It decides; its caller
//! opens the file, reads it and writes the response. Both listeners call it in
//! the same way, so a request is answered alike whichever of them it reached.

use crate::trusted::{join, joined};
use std::path::PathBuf;
use vstd::prelude::*;
use vstd::string::*;

verus! {

/// Most bytes that the caller asks of a served file in one read.
pub const CHUNK_CAPACITY: usize = 4096 * 1024;

/// Name of the response header that advertises the HTTP/3 endpoint.
pub const DISCOVERY_HEADER: &'static str = "Alt-Svc";

/// The status of a response.
#[derive(Clone, Copy, Debug, PartialEq, Eq, Structural)]
pub enum Status {
    /// No serving root is configured: file serving is switched off.
    Teapot,
    /// The path is refused, or no file could be opened for it.
    NotFound,
    /// The file was opened; its bytes follow.
    Success,
}

impl Status {
    /// The status as the number that goes on the wire.
    pub open spec fn number(self) -> u16 {
        match self {
            Status::Teapot => 418,
            Status::NotFound => 404,
            Status::Success => 200,
        }
    }

    /// The number of the status.
    pub fn code(&self) -> (code: u16)
        ensures
            code == self.number(),
    {
        match self {
            Status::Teapot => 418,
            Status::NotFound => 404,
            Status::Success => 200,
        }
    }
}

/// What follows the head of a response.
#[derive(Clone, Copy, Debug, PartialEq, Eq, Structural)]
pub enum Body {
    /// Nothing.
    Empty,
    /// The bytes of the opened file, chunk after chunk (see [`BodyStream`]).
    File,
}

/// A response, before it is framed for HTTP/1.1, HTTP/2 or HTTP/3.
#[derive(Debug)]
pub struct Response {
    pub status: Status,
    /// Value of the [`DISCOVERY_HEADER`]; the response has no other header.
    pub alt_svc: String,
    pub body: Body,
}

/// The character that stands for the digit `d`.
pub open spec fn digit(d: nat) -> char
    recommends
        d < 10,
{
    (48 + d) as u8 as char
}

/// The digits of `n`, most significant first; none for zero.
pub open spec fn significant_digits(n: nat) -> Seq<char>
    decreases n,
{
    if n == 0 {
        Seq::empty()
    } else {
        significant_digits(n / 10).push(digit(n % 10))
    }
}

/// `n` in decimal, without sign or leading zeros.
pub open spec fn decimal(n: nat) -> Seq<char> {
    if n == 0 {
        seq!['0']
    } else {
        significant_digits(n)
    }
}

/// The header value that names `port` as the HTTP/3 port: `h3=":<port>"`.
pub open spec fn alt_svc_value(port: u16) -> Seq<char> {
    seq!['h', '3', '=', '"', ':'] + decimal(port as nat) + seq!['"']
}

/// Whether `c` is printable ASCII: neither a control character nor beyond
/// the tilde.
pub open spec fn is_visible(c: char) -> bool {
    0x20 <= c as u32 <= 0x7e
}

/// Every character of an `alt_svc_value` is printable ASCII, so the value is
/// fit to stand in a header.
pub proof fn lemma_alt_svc_value_is_visible(port: u16)
    ensures
        forall|i: int|
            0 <= i < alt_svc_value(port).len() ==> is_visible(#[trigger] alt_svc_value(port)[i]),
{
    lemma_digits_are_visible(port as nat);
}

proof fn lemma_digits_are_visible(n: nat)
    ensures
        forall|i: int|
            0 <= i < significant_digits(n).len() ==> is_visible(
                #[trigger] significant_digits(n)[i],
            ),
    decreases n,
{
    if n != 0 {
        lemma_digits_are_visible(n / 10);
        let shorter = significant_digits(n / 10);
        assert(digit(n % 10) as u32 == 48 + n % 10);
        assert forall|i: int| 0 <= i < significant_digits(n).len() implies is_visible(
            #[trigger] significant_digits(n)[i],
        ) by {
            if i < shorter.len() {
                assert(significant_digits(n)[i] == shorter[i]);
            }
        }
    }
}

/// Renders the discovery header's value for the HTTP/3 endpoint on `port`.
pub fn alt_svc(port: u16) -> (value: String)
    ensures
        value@ == alt_svc_value(port),
{
    // The digits, least significant first.
    let mut reversed: Vec<char> = Vec::new();
    let mut rest: u16 = port;
    while rest > 0
        invariant
            significant_digits(port as nat) == significant_digits(rest as nat) + reversed@.reverse(),
        decreases rest,
    {
        let d: u8 = (rest % 10) as u8;
        proof {
            let shorter = significant_digits((rest / 10) as nat);
            let tail = reversed@.reverse();
            assert(reversed@.push(digit(d as nat)).reverse() =~= seq![digit(d as nat)] + tail);
            assert(shorter.push(digit(d as nat)) + tail =~= shorter + (seq![digit(d as nat)]
                + tail));
        }
        reversed.push((48u8 + d) as char);
        rest = rest / 10;
    }
    assert(significant_digits(port as nat) =~= reversed@.reverse());
    if reversed.len() == 0 {
        reversed.push('0');
        assert(reversed@.reverse() =~= seq!['0']);
    }
    let mut value = String::from_str("h3=\":");
    proof {
        reveal_strlit("h3=\":");
        assert(value@ =~= seq!['h', '3', '=', '"', ':']);
    }
    let ghost prefix = value@;
    let mut left: usize = reversed.len();
    while left > 0
        invariant
            left <= reversed.len(),
            value@ == prefix + reversed@.reverse().take(reversed.len() - left),
        decreases left,
    {
        left = left - 1;
        value.push(reversed[left]);
        proof {
            let all = reversed@.reverse();
            let done = reversed.len() - left;
            assert(all.take(done) =~= all.take(done - 1).push(reversed@[left as int]));
            assert(prefix + all.take(done) =~= (prefix + all.take(done - 1)).push(
                reversed@[left as int],
            ));
        }
    }
    assert(reversed@.reverse().take(reversed.len() as int) =~= reversed@.reverse());
    value.push('"');
    assert(value@ =~= alt_svc_value(port));
    value
}

/// Whether two full stops stand side by side at `i` and `i + 1` in `path`.
pub open spec fn dots_at(path: Seq<char>, i: int) -> bool {
    0 <= i && i + 1 < path.len() && path[i] == '.' && path[i + 1] == '.'
}

/// Whether `path` holds `..` anywhere. Such a path is refused without a look at
/// the disk. The test is on the text alone: it also refuses a name like
/// `a..b`, and it does not resolve links.
pub open spec fn has_traversal(path: Seq<char>) -> bool {
    exists|i: int| dots_at(path, i)
}

/// The path below the serving root that `path` asks for: `path` without its
/// leading slash, and nothing at all where `path` does not begin with one.
pub open spec fn relative(path: Seq<char>) -> Seq<char> {
    if path.len() > 0 && path[0] == '/' {
        path.skip(1)
    } else {
        Seq::empty()
    }
}

/// Tells whether `path` holds `..`.
pub fn contains_traversal(path: &str) -> (found: bool)
    ensures
        found == has_traversal(path@),
{
    let mut after_dot = false;
    let mut found = false;
    for c in it: path.chars()
        invariant
            it.seq() == path@,
            after_dot == (it.index() > 0 && path@[it.index() - 1] == '.'),
            found == (exists|i: int| i + 1 < it.index() && dots_at(path@, i)),
    {
        let ghost at = it.index() as int;
        if after_dot && c == '.' {
            assert(dots_at(path@, at - 1));
            found = true;
        } else {
            assert forall|i: int| i + 1 < at + 1 && dots_at(path@, i) implies i + 1 < at by {
                if i + 1 == at {
                    assert(path@[at] == c);
                }
            }
        }
        after_dot = c == '.';
    }
    found
}

/// Strips the leading slash from `path`.
pub fn relative_path(path: &str) -> (below: String)
    ensures
        below@ == relative(path@),
{
    let len = path.unicode_len();
    if len > 0 && path.get_char(0) == '/' {
        String::from_str(path.substring_char(1, len))
    } else {
        String::new()
    }
}

/// A request that waits for its file to be opened.
#[derive(Debug)]
pub struct Pending {
    /// The port on which the request came in.
    pub port: u16,
    /// The file that is asked for, as a path below the serving root. It
    /// holds no `..`. It begins with a slash where the request's path began
    /// with two, and such a path, being absolute, is not kept below the
    /// root: the test for `..` is all that guards the root.
    pub relative: String,
    /// The file to open: the serving root with `relative` adjoined, as
    /// `Path::join` adjoins it.
    pub target: PathBuf,
}

/// What the handler says to a request.
#[derive(Debug)]
pub enum Answer {
    /// The response is settled; nothing is to be opened.
    Reply(Response),
    /// The caller is to open the file that the request names and to report
    /// with [`Pending::opened`] whether that worked.
    Open(Pending),
}

/// Answers a request for `path` that came in on `port`.
///
/// Without a serving root every request is answered with 418. With one, a
/// path that holds `..` is answered with 404 and nothing is opened; for any
/// other path the caller is told which file to open.
pub fn file_service(path: &str, port: u16, serve_root: &Option<PathBuf>) -> (answer: Answer)
    ensures
        serve_root.is_none() ==> (answer matches Answer::Reply(r) && r.status == Status::Teapot
            && r.body == Body::Empty && r.alt_svc@ == alt_svc_value(port)),
        serve_root.is_some() && has_traversal(path@) ==> (answer matches Answer::Reply(r)
            && r.status == Status::NotFound && r.body == Body::Empty && r.alt_svc@
            == alt_svc_value(port)),
        serve_root.is_some() && !has_traversal(path@) ==> (answer matches Answer::Open(p) && p.port
            == port && p.relative@ == relative(path@) && p.target == joined(
            serve_root.unwrap(),
            relative(path@),
        )),
{
    match serve_root {
        None => Answer::Reply(
            Response { status: Status::Teapot, alt_svc: alt_svc(port), body: Body::Empty },
        ),
        Some(root) => if contains_traversal(path) {
            Answer::Reply(
                Response { status: Status::NotFound, alt_svc: alt_svc(port), body: Body::Empty },
            )
        } else {
            let relative = relative_path(path);
            let target = join(root, relative.as_str());
            Answer::Open(Pending { port, relative, target })
        },
    }
}

/// What became of the attempt to open the file of a request.
#[derive(Clone, Copy, Debug, PartialEq, Eq, Structural)]
pub enum Opened {
    /// A file was opened that can be read.
    File,
    /// The path names a directory, which has no bytes to serve.
    Directory,
    /// Nothing could be opened: there is no such file, or it may not be
    /// read, or the open failed in some other way.
    Failed,
}

impl Pending {
    /// The response, once the caller has tried to open the file. Whatever
    /// kept a file from being opened, the answer is the same 404.
    pub fn opened(self, opened: Opened) -> (response: Response)
        ensures
            response.status == (if opened == Opened::File {
                Status::Success
            } else {
                Status::NotFound
            }),
            response.body == (if opened == Opened::File {
                Body::File
            } else {
                Body::Empty
            }),
            response.alt_svc@ == alt_svc_value(self.port),
    {
        match opened {
            Opened::File => Response {
                status: Status::Success,
                alt_svc: alt_svc(self.port),
                body: Body::File,
            },
            _ => Response {
                status: Status::NotFound,
                alt_svc: alt_svc(self.port),
                body: Body::Empty,
            },
        }
    }
}

/// How one read of the served file ended.
#[derive(Clone, Copy, Debug, PartialEq, Eq, Structural)]
pub enum ReadOutcome {
    /// The read returned this many bytes; none means that the file has ended.
    Bytes(usize),
    /// The read failed.
    Failed,
}

/// What the body of a response hands out next.
#[derive(Clone, Copy, Debug, PartialEq, Eq, Structural)]
pub enum BodyStep {
    /// A chunk of the file: the bytes that the read has just returned.
    Chunk(usize),
    /// The body is complete.
    End,
    /// The body breaks off with an error. The head has gone out by then, so
    /// the peer is left with a truncated body.
    Abort,
}

/// The body of a response that serves a file: a forward-only sequence of
/// chunks, one for each read, which ends with the first read that returns
/// nothing.
#[derive(Clone, Copy, Debug, PartialEq, Eq, Structural)]
pub enum BodyStream {
    /// The file is being read; each read is for at most [`CHUNK_CAPACITY`]
    /// bytes.
    Reading,
    /// Nothing more is read and nothing more is handed out.
    Finished,
}

impl BodyStream {
    /// The stream after `read`, and what it hands out for it.
    pub open spec fn next(self, read: ReadOutcome) -> (BodyStream, BodyStep) {
        match (self, read) {
            (BodyStream::Reading, ReadOutcome::Bytes(n)) => if n == 0 {
                (BodyStream::Finished, BodyStep::End)
            } else {
                (BodyStream::Reading, BodyStep::Chunk(n))
            },
            (BodyStream::Reading, ReadOutcome::Failed) => (BodyStream::Finished, BodyStep::Abort),
            (BodyStream::Finished, _) => (BodyStream::Finished, BodyStep::End),
        }
    }

    /// The bytes that the stream hands out when the reads of the file return
    /// `reads`, one after the other.
    pub open spec fn body(self, reads: Seq<Seq<u8>>) -> Seq<u8>
        decreases reads.len(),
    {
        if reads.len() == 0 {
            Seq::empty()
        } else {
            let (after, step) = self.next(ReadOutcome::Bytes(reads[0].len() as usize));
            let rest = after.body(reads.skip(1));
            match step {
                BodyStep::Chunk(n) => reads[0].take(n as int) + rest,
                _ => rest,
            }
        }
    }

    /// The stream of a file that has just been opened.
    pub fn new() -> (stream: BodyStream)
        ensures
            stream == BodyStream::Reading,
    {
        BodyStream::Reading
    }

    /// Takes the outcome of the latest read and says what the body hands out.
    pub fn step(self, read: ReadOutcome) -> (r: (BodyStream, BodyStep))
        ensures
            r == self.next(read),
    {
        match self {
            BodyStream::Reading => match read {
                ReadOutcome::Bytes(n) => if n == 0 {
                    (BodyStream::Finished, BodyStep::End)
                } else {
                    (BodyStream::Reading, BodyStep::Chunk(n))
                },
                ReadOutcome::Failed => (BodyStream::Finished, BodyStep::Abort),
            },
            BodyStream::Finished => (BodyStream::Finished, BodyStep::End),
        }
    }
}

/// Whether `reads` is what successive reads of `file` return, from its first
/// byte to its end: each read returns the bytes that come next, no more than
/// [`CHUNK_CAPACITY`] of them and at least one while any are left, and the
/// last read, at the end of the file, returns none.
pub open spec fn reads_to_end(file: Seq<u8>, reads: Seq<Seq<u8>>) -> bool
    decreases reads.len(),
{
    if reads.len() == 0 {
        false
    } else {
        let first = reads[0];
        &&& first.len() <= CHUNK_CAPACITY
        &&& first.len() <= file.len()
        &&& first == file.take(first.len() as int)
        &&& if first.len() == 0 {
            file.len() == 0 && reads.len() == 1
        } else {
            reads_to_end(file.skip(first.len() as int), reads.skip(1))
        }
    }
}

/// A file that is read to its end is served whole: the chunks that the body
/// hands out, put together, are the file, byte for byte. Nothing is cut off
/// and nothing comes twice, whether or not the file's length is a multiple of
/// the chunk capacity and however short the single reads fall.
pub proof fn lemma_body_is_the_file(file: Seq<u8>, reads: Seq<Seq<u8>>)
    requires
        reads_to_end(file, reads),
    ensures
        BodyStream::Reading.body(reads) == file,
        BodyStream::Reading.body(reads).len() == file.len(),
    decreases reads.len(),
{
    let first = reads[0];
    if first.len() == 0 {
        assert(BodyStream::Finished.body(reads.skip(1)) =~= Seq::<u8>::empty());
        assert(file =~= Seq::<u8>::empty());
    } else {
        lemma_body_is_the_file(file.skip(first.len() as int), reads.skip(1));
        assert(first.len() as usize == first.len());
        assert(first.take(first.len() as int) =~= first);
        assert(first + file.skip(first.len() as int) =~= file);
    }
}

impl BodyStream {
    /// What the stream hands out for `reads`, one step for each read.
    pub open spec fn steps(self, reads: Seq<ReadOutcome>) -> Seq<BodyStep>
        decreases reads.len(),
    {
        if reads.len() == 0 {
            Seq::empty()
        } else {
            let (after, step) = self.next(reads[0]);
            seq![step] + after.steps(reads.skip(1))
        }
    }

    /// The stream after all of `reads`, in their order.
    pub open spec fn run(self, reads: Seq<ReadOutcome>) -> BodyStream
        decreases reads.len(),
    {
        if reads.len() == 0 {
            self
        } else {
            self.next(reads[0]).0.run(reads.skip(1))
        }
    }
}

/// Reads that return so many bytes each.
pub open spec fn reads_of(sizes: Seq<usize>) -> Seq<ReadOutcome> {
    sizes.map_values(|n: usize| ReadOutcome::Bytes(n))
}

/// Chunks of so many bytes each.
pub open spec fn chunks_of(sizes: Seq<usize>) -> Seq<BodyStep> {
    sizes.map_values(|n: usize| BodyStep::Chunk(n))
}

/// How a body ends on the read `last`, which returned nothing or failed: at
/// its end, or broken off.
pub open spec fn ending(last: ReadOutcome) -> BodyStep {
    if last == ReadOutcome::Failed {
        BodyStep::Abort
    } else {
        BodyStep::End
    }
}

/// A body is the chunks of the reads that came before the first read that
/// returned nothing or failed, and then it is over. After a failed read the
/// body is broken off: what was handed out before stays handed out, so the
/// peer sees a truncated body, and nothing is read again.
pub proof fn lemma_body_stops_at_first_empty_or_failed_read(sizes: Seq<usize>, last: ReadOutcome)
    requires
        forall|i: int| 0 <= i < sizes.len() ==> sizes[i] > 0,
        last == ReadOutcome::Bytes(0) || last == ReadOutcome::Failed,
    ensures
        BodyStream::Reading.steps(reads_of(sizes).push(last)) == chunks_of(sizes).push(
            ending(last),
        ),
        BodyStream::Reading.run(reads_of(sizes).push(last)) == BodyStream::Finished,
    decreases sizes.len(),
{
    let reads = reads_of(sizes).push(last);
    if sizes.len() == 0 {
        assert(reads[0] == last);
        assert(reads.skip(1).len() == 0);
        assert(BodyStream::Finished.steps(reads.skip(1)) == Seq::<BodyStep>::empty());
        assert(BodyStream::Finished.run(reads.skip(1)) == BodyStream::Finished);
        assert(seq![ending(last)] + Seq::<BodyStep>::empty() =~= chunks_of(sizes).push(
            ending(last),
        ));
    } else {
        let rest = sizes.skip(1);
        assert forall|i: int| 0 <= i < rest.len() implies rest[i] > 0 by {
            assert(rest[i] == sizes[i + 1]);
        }
        lemma_body_stops_at_first_empty_or_failed_read(rest, last);
        assert(reads[0] == ReadOutcome::Bytes(sizes[0]));
        assert(reads.skip(1) =~= reads_of(rest).push(last));
        assert(seq![BodyStep::Chunk(sizes[0])] + chunks_of(rest).push(ending(last))
            =~= chunks_of(sizes).push(ending(last)));
    }
}

} // verus!
