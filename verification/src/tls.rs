//! The certificates and the key of the agents' listener, as they stand in PEM files.

use rustls::pki_types::PrivateKeyDer;
use vstd::prelude::*;
use crate::text::{cat2, cat4};

verus! {

/// How a private key is encoded.
#[derive(Debug, Clone, Copy, PartialEq, Eq, Structural)]
pub enum KeyFormat {
    Pkcs1,
    Sec1,
    Pkcs8,
    /// In a way that has no name here.
    Other,
}

/// The certificates in a PEM file, or why it cannot be read.
pub uninterp spec fn pem_certs(pem: Seq<u8>) -> Result<Seq<Seq<u8>>, Seq<char>>;

/// The first private key in a PEM file, where it holds one, or why it cannot be
/// read.
pub uninterp spec fn pem_key(pem: Seq<u8>) -> Result<Option<(KeyFormat, Seq<u8>)>, Seq<char>>;

/// The bytes of a list.
pub open spec fn byte_views(v: Seq<Vec<u8>>) -> Seq<Seq<u8>> {
    v.map_values(|b: Vec<u8>| b@)
}

/// The view of what was read of the certificates.
pub open spec fn certs_view(r: Result<Vec<Vec<u8>>, String>) -> Result<Seq<Seq<u8>>, Seq<char>> {
    match r {
        Ok(v) => Ok(byte_views(v@)),
        Err(e) => Err(e@),
    }
}

/// The view of what was read of a key.
pub open spec fn key_view(r: Result<Option<(KeyFormat, Vec<u8>)>, String>) -> Result<
    Option<(KeyFormat, Seq<u8>)>,
    Seq<char>,
> {
    match r {
        Ok(Some((format, der))) => Ok(Some((format, der@))),
        Ok(None) => Ok(None),
        Err(e) => Err(e@),
    }
}

/// `rustls_pemfile::certs`: the certificates of all sections that hold one, or the
/// text of the first error.
#[verifier::external_body]
pub(crate) fn read_certs(pem: &[u8]) -> (r: Result<Vec<Vec<u8>>, String>)
    ensures
        certs_view(r) == pem_certs(pem@),
{
    let mut rest = pem;
    let read: Result<Vec<_>, _> = rustls_pemfile::certs(&mut rest).collect();
    read.map(|v| v.iter().map(|c| c.to_vec()).collect()).map_err(|e| e.to_string())
}

/// `rustls_pemfile::private_key`: the first section that holds a private key, with
/// the format that it names, or the text of the first error before it.
#[verifier::external_body]
pub(crate) fn read_key(pem: &[u8]) -> (r: Result<Option<(KeyFormat, Vec<u8>)>, String>)
    ensures
        key_view(r) == pem_key(pem@),
{
    let mut rest = pem;
    let key = rustls_pemfile::private_key(&mut rest).map_err(|e| e.to_string())?;
    Ok(key.map(|k| match k {
        PrivateKeyDer::Pkcs1(d) => (KeyFormat::Pkcs1, d.secret_pkcs1_der().to_vec()),
        PrivateKeyDer::Sec1(d) => (KeyFormat::Sec1, d.secret_sec1_der().to_vec()),
        PrivateKeyDer::Pkcs8(d) => (KeyFormat::Pkcs8, d.secret_pkcs8_der().to_vec()),
        d => (KeyFormat::Other, d.secret_der().to_vec()),
    }))
}

/// Why the agents' listener cannot use a PEM file.
#[derive(Debug, Clone, PartialEq, Eq)]
pub enum CertFault {
    /// It is broken.
    Unreadable { error: String },
    /// It holds nothing of what is looked for.
    Empty,
}

/// Whether a fault says that a file is broken, in these words.
pub open spec fn is_unreadable(fault: CertFault, words: Seq<char>) -> bool {
    fault matches CertFault::Unreadable { error } && error@ == words
}

/// The certificates in a PEM file: all of them, and at least one, or a fault.
pub fn certificates(pem: &[u8]) -> (r: Result<Vec<Vec<u8>>, CertFault>)
    ensures
        match pem_certs(pem@) {
            Err(words) => r matches Err(fault) && is_unreadable(fault, words),
            Ok(list) => if list.len() == 0 {
                r matches Err(CertFault::Empty)
            } else {
                r matches Ok(v) && byte_views(v@) == list
            },
        },
{
    match read_certs(pem) {
        Err(error) => Err(CertFault::Unreadable { error }),
        Ok(list) => {
            assert(byte_views(list@).len() == list@.len());
            if list.len() == 0 {
                Err(CertFault::Empty)
            } else {
                Ok(list)
            }
        },
    }
}

/// The first private key in a PEM file, or a fault.
pub fn private_key(pem: &[u8]) -> (r: Result<(KeyFormat, Vec<u8>), CertFault>)
    ensures
        match pem_key(pem@) {
            Err(words) => r matches Err(fault) && is_unreadable(fault, words),
            Ok(None) => r matches Err(CertFault::Empty),
            Ok(Some((format, der))) => r matches Ok((f, d)) && f == format && d@ == der,
        },
{
    match read_key(pem) {
        Err(error) => Err(CertFault::Unreadable { error }),
        Ok(None) => Err(CertFault::Empty),
        Ok(Some(key)) => Ok(key),
    }
}

/// What the agents' listener needs of its files.
#[derive(Debug, Clone, PartialEq, Eq)]
pub struct ListenerFiles {
    /// The server's certificate and those above it.
    pub chain: Vec<Vec<u8>>,
    pub key_format: KeyFormat,
    pub key: Vec<u8>,
    /// The authorities that agents' certificates have to come from.
    pub authorities: Vec<Vec<u8>>,
}

/// The fault of a certificate file in words.
pub open spec fn cert_words(fault: CertFault, path: Seq<char>) -> Seq<char> {
    match fault {
        CertFault::Unreadable { error } => "parse cert "@ + path + ": "@ + error@,
        CertFault::Empty => "no certificates found in "@ + path,
    }
}

/// The fault of a certificate file in words.
pub fn cert_text(fault: &CertFault, path: &str) -> (r: String)
    ensures
        r@ == cert_words(*fault, path@),
{
    match fault {
        CertFault::Unreadable { error } => cat4("parse cert ", path, ": ", error.as_str()),
        CertFault::Empty => cat2("no certificates found in ", path),
    }
}

/// The fault of a key file in words.
pub open spec fn key_words(fault: CertFault, path: Seq<char>) -> Seq<char> {
    match fault {
        CertFault::Unreadable { error } => "parse key "@ + path + ": "@ + error@,
        CertFault::Empty => "no private key in "@ + path,
    }
}

/// The fault of a key file in words.
pub fn key_text(fault: &CertFault, path: &str) -> (r: String)
    ensures
        r@ == key_words(*fault, path@),
{
    match fault {
        CertFault::Unreadable { error } => cat4("parse key ", path, ": ", error.as_str()),
        CertFault::Empty => cat2("no private key in ", path),
    }
}

/// A PEM file: where it stands, and what it holds or why it cannot be opened.
pub struct PemFile<'a> {
    pub path: &'a str,
    pub pem: Result<&'a [u8], &'a str>,
}

/// Whether a PEM file holds certificates, at least one, and nothing broken.
pub open spec fn has_certs(f: PemFile) -> bool {
    f.pem matches Ok(pem) && pem_certs(pem@) matches Ok(list) && list.len() > 0
}

/// Whether a PEM file holds a key, and nothing broken before it.
pub open spec fn has_key(f: PemFile) -> bool {
    f.pem matches Ok(pem) && pem_key(pem@) matches Ok(Some(_))
}

/// What is said of a file without good certificates.
pub open spec fn cert_complaint(f: PemFile) -> Seq<char> {
    match f.pem {
        Err(words) => "read cert "@ + f.path@ + ": "@ + words@,
        Ok(pem) => match pem_certs(pem@) {
            Err(words) => "parse cert "@ + f.path@ + ": "@ + words,
            Ok(_) => "no certificates found in "@ + f.path@,
        },
    }
}

/// What is said of a file without a good key.
pub open spec fn key_complaint(f: PemFile) -> Seq<char> {
    match f.pem {
        Err(words) => "read key "@ + f.path@ + ": "@ + words@,
        Ok(pem) => match pem_key(pem@) {
            Err(words) => "parse key "@ + f.path@ + ": "@ + words,
            Ok(_) => "no private key in "@ + f.path@,
        },
    }
}

/// The certificates of a PEM file, or what is said of it where it has none.
pub fn load_certs(f: &PemFile) -> (r: Result<Vec<Vec<u8>>, String>)
    ensures
        match r {
            Ok(v) => has_certs(*f) && byte_views(v@) == pem_certs(f.pem->Ok_0@)->Ok_0,
            Err(words) => !has_certs(*f) && words@ == cert_complaint(*f),
        },
{
    match f.pem {
        Err(words) => Err(cat4("read cert ", f.path, ": ", words)),
        Ok(pem) => match certificates(pem) {
            Ok(v) => Ok(v),
            Err(fault) => Err(cert_text(&fault, f.path)),
        },
    }
}

/// The first private key of a PEM file, or what is said of it where it has none.
pub fn load_key(f: &PemFile) -> (r: Result<(KeyFormat, Vec<u8>), String>)
    ensures
        match r {
            Ok((format, der)) => has_key(*f) && pem_key(f.pem->Ok_0@)->Ok_0 == Some((format, der@)),
            Err(words) => !has_key(*f) && words@ == key_complaint(*f),
        },
{
    match f.pem {
        Err(words) => Err(cat4("read key ", f.path, ": ", words)),
        Ok(pem) => match private_key(pem) {
            Ok(key) => Ok(key),
            Err(fault) => Err(key_text(&fault, f.path)),
        },
    }
}

/// Whether `r` is what a listener needs of the three files, or the first complaint.
pub open spec fn are_listener_files(cert: PemFile, key: PemFile, agent_ca: PemFile, r: Result<ListenerFiles, String>) -> bool {
    match r {
        Ok(files) => {
            &&& has_certs(cert) && has_key(key) && has_certs(agent_ca)
            &&& byte_views(files.chain@) == pem_certs(cert.pem->Ok_0@)->Ok_0
            &&& pem_key(key.pem->Ok_0@)->Ok_0 == Some((files.key_format, files.key@))
            &&& byte_views(files.authorities@) == pem_certs(agent_ca.pem->Ok_0@)->Ok_0
        },
        Err(words) => if !has_certs(cert) {
            words@ == cert_complaint(cert)
        } else if !has_key(key) {
            words@ == key_complaint(key)
        } else {
            !has_certs(agent_ca) && words@ == cert_complaint(agent_ca)
        },
    }
}

/// What the agents' listener needs, from its three files: the server's certificates,
/// its key, and the agents' authorities. Anything missing or broken in any of them
/// leaves nothing, so that no agent can connect.
pub fn listener_files(cert: &PemFile, key: &PemFile, agent_ca: &PemFile) -> (r: Result<
    ListenerFiles,
    String,
>)
    ensures
        are_listener_files(*cert, *key, *agent_ca, r),
{
    let chain = match load_certs(cert) {
        Ok(v) => v,
        Err(words) => return Err(words),
    };
    let (key_format, der) = match load_key(key) {
        Ok(k) => k,
        Err(words) => return Err(words),
    };
    let authorities = match load_certs(agent_ca) {
        Ok(v) => v,
        Err(words) => return Err(words),
    };
    Ok(ListenerFiles { chain, key_format, key: der, authorities })
}

/// A listener comes of three good files, each for its own purpose; otherwise the first
/// bad file is named.
pub proof fn law_listeners_need_all_three_files(
    cert: PemFile,
    key: PemFile,
    agent_ca: PemFile,
    r: Result<ListenerFiles, String>,
)
    requires
        are_listener_files(cert, key, agent_ca, r),
    ensures
        r is Ok ==> cert.pem is Ok && pem_certs(cert.pem->Ok_0@) == Ok::<Seq<Seq<u8>>, Seq<char>>(
            byte_views(r->Ok_0.chain@),
        ) && r->Ok_0.chain@.len() > 0,
        r is Ok ==> agent_ca.pem is Ok && pem_certs(agent_ca.pem->Ok_0@) == Ok::<
            Seq<Seq<u8>>,
            Seq<char>,
        >(byte_views(r->Ok_0.authorities@)) && r->Ok_0.authorities@.len() > 0,
        r is Ok ==> key.pem is Ok && pem_key(key.pem->Ok_0@) == Ok::<
            Option<(KeyFormat, Seq<u8>)>,
            Seq<char>,
        >(Some((r->Ok_0.key_format, r->Ok_0.key@))),
        cert.pem is Err ==> r is Err && r->Err_0@ == "read cert "@ + cert.path@ + ": "@
            + cert.pem->Err_0@,
        has_certs(cert) && key.pem is Err ==> r is Err && r->Err_0@ == "read key "@ + key.path@ + ": "@
            + key.pem->Err_0@,
        has_certs(cert) && has_key(key) && agent_ca.pem is Err ==> r is Err && r->Err_0@
            == "read cert "@ + agent_ca.path@ + ": "@ + agent_ca.pem->Err_0@,
        cert.pem is Ok && pem_certs(cert.pem->Ok_0@) is Ok && pem_certs(cert.pem->Ok_0@)->Ok_0.len() > 0
            && key.pem is Ok && pem_key(key.pem->Ok_0@) is Ok && pem_key(key.pem->Ok_0@)->Ok_0 is Some
            && agent_ca.pem is Ok && pem_certs(agent_ca.pem->Ok_0@) is Ok && pem_certs(
            agent_ca.pem->Ok_0@,
        )->Ok_0.len() > 0 ==> r is Ok,
        cert.pem is Ok && pem_certs(cert.pem->Ok_0@) is Ok && pem_certs(cert.pem->Ok_0@)->Ok_0.len()
            == 0 ==> r is Err && r->Err_0@ == "no certificates found in "@ + cert.path@,
        has_certs(cert) && key.pem is Ok && pem_key(key.pem->Ok_0@) == Ok::<
            Option<(KeyFormat, Seq<u8>)>,
            Seq<char>,
        >(None) ==> r is Err && r->Err_0@ == "no private key in "@ + key.path@,
{
}

} // verus!
