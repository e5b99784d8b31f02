//! What this library believes of code that Verus does not read.
//!
//! Every item here is a claim about `std` or about a crate that the library
//! depends on. Nothing in this file is proved; everything else in the library
//! is proved from it.

use crate::credential::TlsVersion;
use crate::data::byte_strings;
use std::path::PathBuf;
use vstd::prelude::*;
use vstd::utf8::is_ascii_chars;

verus! {

/// `std::path::PathBuf`, carried through the library without being looked into.
#[verifier::external_type_specification]
#[verifier::external_body]
pub struct ExPathBuf(PathBuf);

/// What `Path::join` gives for `root` and `relative`: `relative` adjoined to
/// `root`, which is `relative` alone where that is an absolute path. A path
/// has no plain view, so the name takes and gives the path itself.
pub uninterp spec fn joined(root: PathBuf, relative: Seq<char>) -> PathBuf;

/// Calls `Path::join`. The claim is only that the result is a function of
/// the two arguments.
#[verifier::external_body]
pub(crate) fn join(root: &PathBuf, relative: &str) -> (target: PathBuf)
    ensures
        target == joined(*root, relative@),
{
    root.join(relative)
}

/// `String::push` appends the given character to the end of the string.
pub assume_specification[ String::push ](s: &mut String, c: char)
    ensures
        final(s)@ == old(s)@.push(c),
;

/// `std::io::Error`, the error of the PEM reader.
#[verifier::external_type_specification]
#[verifier::external_body]
pub struct ExIoError(std::io::Error);

/// `rcgen::RcgenError`, the error of certificate generation.
#[verifier::external_type_specification]
#[verifier::external_body]
pub struct ExRcgenError(rcgen::RcgenError);

/// `rustls::ServerConfig`, the TLS configuration that both listeners present.
#[verifier::external_type_specification]
#[verifier::external_body]
pub struct ExServerConfig(rustls::ServerConfig);

/// `rustls::Error`, the error of building a TLS configuration.
#[verifier::external_type_specification]
#[verifier::external_body]
pub struct ExTlsError(rustls::Error);

/// What `rustls_pemfile::certs` makes of a PEM file with the bytes `pem`: the
/// contents of its `CERTIFICATE` sections in the order of the file, or nothing
/// where the file cannot be parsed.
pub uninterp spec fn pem_certificates(pem: Seq<u8>) -> Option<Seq<Seq<u8>>>;

/// What `rustls_pemfile::pkcs8_private_keys` makes of a PEM file with the
/// bytes `pem`: the contents of its `PRIVATE KEY` sections in the order of
/// the file, or nothing where the file cannot be parsed.
pub uninterp spec fn pem_pkcs8_keys(pem: Seq<u8>) -> Option<Seq<Seq<u8>>>;

/// Whether `rustls` builds a server configuration for the protocol versions
/// `versions` and the private key with the DER bytes `key`: whether one of
/// its cipher suites serves one of the versions and it can sign with the
/// key.
pub uninterp spec fn config_accepted(versions: Seq<TlsVersion>, key: Seq<u8>) -> bool;

/// The protocol versions that a server configuration admits.
pub uninterp spec fn admitted_versions(config: rustls::ServerConfig) -> Set<TlsVersion>;

/// The certificate chain that a server configuration presents to every
/// client, leaf first.
pub uninterp spec fn presented_chain(config: rustls::ServerConfig) -> Seq<Seq<u8>>;

/// Calls `rustls_pemfile::certs` on the bytes of a PEM file. The claim is
/// only that the outcome is a function of those bytes: the reader is an
/// in-memory cursor, so nothing else can reach the parser.
#[verifier::external_body]
pub(crate) fn read_certificates(pem: &[u8]) -> (r: Result<Vec<Vec<u8>>, std::io::Error>)
    ensures
        pem_certificates(pem@) == match r {
            Ok(ders) => Some(byte_strings(ders)),
            Err(_) => None,
        },
{
    rustls_pemfile::certs(&mut std::io::Cursor::new(pem))
}

/// Calls `rustls_pemfile::pkcs8_private_keys` on the bytes of a PEM file. The
/// claim is only that the outcome is a function of those bytes.
#[verifier::external_body]
pub(crate) fn read_pkcs8_keys(pem: &[u8]) -> (r: Result<Vec<Vec<u8>>, std::io::Error>)
    ensures
        pem_pkcs8_keys(pem@) == match r {
            Ok(ders) => Some(byte_strings(ders)),
            Err(_) => None,
        },
{
    rustls_pemfile::pkcs8_private_keys(&mut std::io::Cursor::new(pem))
}

/// Calls `rcgen::generate_simple_self_signed` for the given names and hands
/// back the certificate and then its private key, both as DER. A new key is
/// drawn at each call, so nothing is claimed of the bytes. The names must be
/// ASCII: the certificate holds them as IA5 strings, and the encoder panics
/// on any other character.
#[verifier::external_body]
pub(crate) fn generate_self_signed(names: Vec<String>) -> (r: Result<
    (Vec<u8>, Vec<u8>),
    rcgen::RcgenError,
>)
    requires
        forall|i: int| 0 <= i < names@.len() ==> is_ascii_chars(#[trigger] names@[i]@),
{
    let cert = rcgen::generate_simple_self_signed(names)?;
    let key = cert.serialize_private_key_der();
    Ok((cert.serialize_der()?, key))
}

/// Builds a `rustls::ServerConfig` with that crate's default cipher suites
/// and key exchange groups, for the given protocol versions, without client
/// authentication, and with `chain` and `key` as its one certificate. The
/// claims: whether this succeeds is a function of the versions and the key;
/// the configuration admits the versions that were given and no other; and
/// it presents the chain as it was given, which the builder stores without
/// a look at it.
#[verifier::external_body]
pub(crate) fn build_server_config(versions: Vec<TlsVersion>, chain: Vec<Vec<u8>>, key: Vec<u8>) -> (r:
    Result<rustls::ServerConfig, rustls::Error>)
    ensures
        r.is_ok() == config_accepted(versions@, key@),
        r matches Ok(config) ==> admitted_versions(config) == versions@.to_set()
            && presented_chain(config) == byte_strings(chain),
{
    let versions: Vec<_> = versions
        .iter()
        .map(|version| match version {
            TlsVersion::Tls12 => &rustls::version::TLS12,
            TlsVersion::Tls13 => &rustls::version::TLS13,
        })
        .collect();
    let chain = chain.into_iter().map(rustls::Certificate).collect();
    rustls::ServerConfig::builder()
        .with_safe_default_cipher_suites()
        .with_safe_default_kx_groups()
        .with_protocol_versions(&versions)?
        .with_no_client_auth()
        .with_single_cert(chain, rustls::PrivateKey(key))
}

} // verus!
