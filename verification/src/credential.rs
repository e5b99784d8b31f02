//! The credential: the certificate chain and the private key that both
//! listeners present, and the TLS configuration made from them.
//!
//! The credential is either read from two PEM files or made on the spot for
//! `localhost`. Reading the files is left to the caller; what is done with
//! their bytes is decided here.

use crate::data::byte_strings;
use crate::trusted::{
    admitted_versions, build_server_config, config_accepted, generate_self_signed,
    pem_certificates, pem_pkcs8_keys, presented_chain, read_certificates, read_pkcs8_keys,
};
use std::path::PathBuf;
use vstd::prelude::*;
use vstd::string::*;

verus! {

/// Where the credential is to come from, as given on the command line: the
/// two paths are given together or not at all.
#[derive(Debug)]
pub struct Certs {
    /// PEM file with the certificate chain, leaf first.
    pub cert: Option<PathBuf>,
    /// PEM file with the PKCS#8 private key of the leaf.
    pub key: Option<PathBuf>,
}

/// Why no credential could be had.
#[derive(Clone, Copy, Debug, PartialEq, Eq, Structural)]
pub enum CredentialError {
    /// One of the two paths was given without the other.
    IncompleteArgs,
    /// A file could not be read.
    Unreadable,
    /// A file is not well-formed PEM.
    Malformed,
    /// The key file holds no PKCS#8 private key.
    NoKey,
    /// The private key is not one that TLS can sign with.
    InvalidKey,
    /// No self-signed certificate could be generated.
    Generation,
}

/// The two ways to a credential.
#[derive(Clone, Copy, Debug, PartialEq, Eq, Structural)]
pub enum Source {
    /// Generate a key and a self-signed certificate for `localhost`.
    SelfSigned,
    /// Read the certificate file and the key file.
    Files,
}

impl Certs {
    /// The source that the arguments ask for.
    pub open spec fn wanted(self) -> Result<Source, CredentialError> {
        match (self.cert, self.key) {
            (None, None) => Ok(Source::SelfSigned),
            (Some(_), Some(_)) => Ok(Source::Files),
            _ => Err(CredentialError::IncompleteArgs),
        }
    }

    /// Decides where the credential comes from, before any file is touched.
    pub fn source(&self) -> (r: Result<Source, CredentialError>)
        ensures
            r == self.wanted(),
    {
        match (&self.cert, &self.key) {
            (None, None) => Ok(Source::SelfSigned),
            (Some(_), Some(_)) => Ok(Source::Files),
            _ => Err(CredentialError::IncompleteArgs),
        }
    }
}

/// A certificate chain with the private key of its leaf, all in DER.
#[derive(Debug)]
pub struct Credential {
    /// The certificates, leaf first.
    pub chain: Vec<Vec<u8>>,
    pub key: Vec<u8>,
}

/// A credential as plain data: the chain, then the key.
pub struct CredentialView {
    pub chain: Seq<Seq<u8>>,
    pub key: Seq<u8>,
}

impl View for Credential {
    type V = CredentialView;

    open spec fn view(&self) -> CredentialView {
        CredentialView { chain: byte_strings(self.chain), key: self.key@ }
    }
}

/// The outcome of a step that gives a credential, as plain data.
pub open spec fn outcome(r: Result<Credential, CredentialError>) -> Result<
    CredentialView,
    CredentialError,
> {
    match r {
        Ok(credential) => Ok(credential@),
        Err(e) => Err(e),
    }
}

/// The error of a step, if it failed.
pub open spec fn failure<T>(r: Result<T, CredentialError>) -> Option<CredentialError> {
    match r {
        Ok(_) => None,
        Err(e) => Some(e),
    }
}

/// The credential in what the two PEM files held, where `None` stands for a
/// file that could not be parsed: all the certificates, and the first of the
/// keys.
pub open spec fn selected(certs: Option<Seq<Seq<u8>>>, keys: Option<Seq<Seq<u8>>>) -> Result<
    CredentialView,
    CredentialError,
> {
    match (certs, keys) {
        (Some(chain), Some(keys)) => if keys.len() == 0 {
            Err(CredentialError::NoKey)
        } else {
            Ok(CredentialView { chain, key: keys[0] })
        },
        _ => Err(CredentialError::Malformed),
    }
}

/// The sections of a PEM file as plain data, nothing for a file that could
/// not be parsed.
pub open spec fn sections(parsed: Result<Vec<Vec<u8>>, std::io::Error>) -> Option<Seq<Seq<u8>>> {
    match parsed {
        Ok(ders) => Some(byte_strings(ders)),
        Err(_) => None,
    }
}

/// Picks the credential out of what the parser made of the certificate file
/// and of the key file.
pub fn select_credential(
    certs: Result<Vec<Vec<u8>>, std::io::Error>,
    keys: Result<Vec<Vec<u8>>, std::io::Error>,
) -> (r: Result<Credential, CredentialError>)
    ensures
        outcome(r) == selected(sections(certs), sections(keys)),
{
    let chain = match certs {
        Ok(chain) => chain,
        Err(_) => {
            return Err(CredentialError::Malformed);
        },
    };
    let mut keys = match keys {
        Ok(keys) => keys,
        Err(_) => {
            return Err(CredentialError::Malformed);
        },
    };
    if keys.len() == 0 {
        return Err(CredentialError::NoKey);
    }
    let ghost all = byte_strings(keys);
    let key = keys.swap_remove(0);
    proof {
        assert(key@ == all[0]);
    }
    Ok(Credential { chain, key })
}

/// Parses the bytes of the certificate file and of the key file and picks
/// the credential out of them.
pub fn read_credential(cert_pem: &[u8], key_pem: &[u8]) -> (r: Result<Credential, CredentialError>)
    ensures
        outcome(r) == selected(pem_certificates(cert_pem@), pem_pkcs8_keys(key_pem@)),
{
    let certs = read_certificates(cert_pem);
    let keys = read_pkcs8_keys(key_pem);
    select_credential(certs, keys)
}

/// The credential in what certificate generation gave back, the certificate
/// first and then its private key: a chain of that one certificate.
pub fn generated_credential(generated: Result<(Vec<u8>, Vec<u8>), rcgen::RcgenError>) -> (r: Result<
    Credential,
    CredentialError,
>)
    ensures
        outcome(r) == match generated {
            Ok((cert, key)) => Ok(CredentialView { chain: seq![cert@], key: key@ }),
            Err(_) => Err(CredentialError::Generation),
        },
{
    match generated {
        Ok((cert, key)) => {
            let mut chain: Vec<Vec<u8>> = Vec::new();
            chain.push(cert);
            assert(byte_strings(chain) =~= seq![cert@]);
            Ok(Credential { chain, key })
        },
        Err(_) => Err(CredentialError::Generation),
    }
}

/// The host name that a generated certificate is for.
pub open spec fn localhost() -> Seq<char> {
    seq!['l', 'o', 'c', 'a', 'l', 'h', 'o', 's', 't']
}

/// The names that a generated certificate is asked for: `localhost` and no
/// other.
pub fn self_signed_names() -> (names: Vec<String>)
    ensures
        names@.len() == 1,
        names@[0]@ == localhost(),
{
    let mut names: Vec<String> = Vec::new();
    names.push(String::from_str("localhost"));
    proof {
        reveal_strlit("localhost");
        assert(names@[0]@ =~= localhost());
    }
    names
}

/// Generates a private key and a self-signed certificate for the names of
/// [`self_signed_names`]. What comes back differs from call to call; a
/// success is always a chain of one certificate.
pub fn build_certs() -> (r: Result<Credential, CredentialError>)
    ensures
        match r {
            Ok(credential) => credential@.chain.len() == 1,
            Err(e) => e == CredentialError::Generation,
        },
{
    generated_credential(generate_self_signed(self_signed_names()))
}

/// A version of the TLS protocol.
#[derive(Clone, Copy, Debug, PartialEq, Eq, Structural)]
pub enum TlsVersion {
    Tls12,
    Tls13,
}

/// The protocol versions that the server speaks: TLS 1.3 and nothing older.
pub open spec fn served_versions() -> Seq<TlsVersion> {
    seq![TlsVersion::Tls13]
}

/// The protocol versions for the TLS configuration.
pub fn protocol_versions() -> (versions: Vec<TlsVersion>)
    ensures
        versions@ == served_versions(),
{
    let versions: Vec<TlsVersion> = vec![TlsVersion::Tls13];
    assert(versions@ =~= served_versions());
    versions
}

/// The TLS configuration as far as it can be told apart from others: the
/// versions that it admits and the chain that it presents.
pub open spec fn configured(config: rustls::ServerConfig, chain: Seq<Seq<u8>>) -> bool {
    &&& admitted_versions(config) == set![TlsVersion::Tls13]
    &&& presented_chain(config) == chain
}

impl Credential {
    /// Makes the TLS configuration that presents this credential. It admits
    /// TLS 1.3 and nothing older, so no client can talk it down to an older
    /// version.
    pub fn server_config(self) -> (r: Result<rustls::ServerConfig, CredentialError>)
        ensures
            failure(r) == (if config_accepted(served_versions(), self.key@) {
                None
            } else {
                Some(CredentialError::InvalidKey)
            }),
            r matches Ok(config) ==> configured(config, self@.chain),
    {
        let versions = protocol_versions();
        proof {
            assert(versions@.to_set() =~= set![TlsVersion::Tls13]) by {
                assert(versions@[0] == TlsVersion::Tls13);
                assert forall|v: TlsVersion| versions@.to_set().contains(v) implies v
                    == TlsVersion::Tls13 by {
                    let i = choose|i: int| 0 <= i < versions@.len() && versions@[i] == v;
                }
            }
        }
        match build_server_config(versions, self.chain, self.key) {
            Ok(config) => Ok(config),
            Err(_) => Err(CredentialError::InvalidKey),
        }
    }
}

/// The bytes of a file, nothing for a file that could not be read.
pub open spec fn contents(file: Option<Vec<u8>>) -> Option<Seq<u8>> {
    match file {
        Some(bytes) => Some(bytes@),
        None => None,
    }
}

/// The credential in the two files, where `None` stands for a file that
/// could not be read.
pub open spec fn files_credential(cert_file: Option<Seq<u8>>, key_file: Option<Seq<u8>>) -> Result<
    CredentialView,
    CredentialError,
> {
    match (cert_file, key_file) {
        (Some(cert_pem), Some(key_pem)) => selected(
            pem_certificates(cert_pem),
            pem_pkcs8_keys(key_pem),
        ),
        _ => Err(CredentialError::Unreadable),
    }
}

/// Why the two files give no TLS configuration, if they give none.
pub open spec fn files_failure(cert_file: Option<Seq<u8>>, key_file: Option<Seq<u8>>) -> Option<
    CredentialError,
> {
    match files_credential(cert_file, key_file) {
        Ok(credential) => if config_accepted(served_versions(), credential.key) {
            None
        } else {
            Some(CredentialError::InvalidKey)
        },
        Err(e) => Some(e),
    }
}

/// Gets the credential that `opt` asks for. `cert_file` and `key_file` are
/// the bytes of the two files, `None` for a file that could not be read; they
/// are looked at only where `opt` names both files.
pub fn load_credential(opt: &Certs, cert_file: &Option<Vec<u8>>, key_file: &Option<Vec<u8>>) -> (r:
    Result<Credential, CredentialError>)
    ensures
        match opt.wanted() {
            Err(e) => outcome(r) == Err::<CredentialView, CredentialError>(e),
            Ok(Source::Files) => outcome(r) == files_credential(
                contents(*cert_file),
                contents(*key_file),
            ),
            Ok(Source::SelfSigned) => match r {
                Ok(credential) => credential@.chain.len() == 1,
                Err(e) => e == CredentialError::Generation,
            },
        },
{
    match opt.source() {
        Err(e) => Err(e),
        Ok(Source::SelfSigned) => build_certs(),
        Ok(Source::Files) => match (cert_file, key_file) {
            (Some(cert_pem), Some(key_pem)) => read_credential(
                cert_pem.as_slice(),
                key_pem.as_slice(),
            ),
            _ => Err(CredentialError::Unreadable),
        },
    }
}

/// Gets the credential that `opt` asks for and makes the TLS configuration
/// from it. The arguments are those of [`load_credential`].
pub fn load_crypto(opt: &Certs, cert_file: &Option<Vec<u8>>, key_file: &Option<Vec<u8>>) -> (r:
    Result<rustls::ServerConfig, CredentialError>)
    ensures
        match opt.wanted() {
            Err(e) => failure(r) == Some(e),
            Ok(Source::Files) => failure(r) == files_failure(
                contents(*cert_file),
                contents(*key_file),
            ),
            Ok(Source::SelfSigned) => r is Ok || failure(r) == Some(CredentialError::Generation)
                || failure(r) == Some(CredentialError::InvalidKey),
        },
        r matches Ok(config) ==> match opt.wanted() {
            Ok(Source::Files) => files_credential(contents(*cert_file), contents(*key_file))
                matches Ok(credential) && configured(config, credential.chain),
            _ => admitted_versions(config) == set![TlsVersion::Tls13] && presented_chain(
                config,
            ).len() == 1,
        },
{
    match load_credential(opt, cert_file, key_file) {
        Ok(credential) => credential.server_config(),
        Err(e) => Err(e),
    }
}

} // verus!
