//! The mTLS accept path: polling for peer certificates and extracting the
//! authenticated identity.
//!
//! Some client stacks finish the TLS handshake before their certificates
//! are visible, so the acceptor polls up to 20 times at 250 ms intervals
//! for the peer certificates to appear; absence after that is fatal for
//! the handshake. The authenticated name is the first subject-alternative
//! name, or the certificate's subject DN when the SAN extension is
//! absent. The TLS library and the certificate parser live outside this
//! crate; their findings arrive here as plain values.

use vstd::prelude::*;

verus! {

/// How a certificate can fail to parse.
#[derive(Debug)]
pub enum InvalidCertError {
    /// The parser wanted more bytes than the certificate holds.
    DataNeeded,
    /// The certificate's encoding is invalid; carries the parser's words.
    X509(String),
}

/// How accepting an inbound connection can fail.
#[derive(Debug)]
pub enum AcceptError {
    /// The transport failed; carries the reported reason.
    Io(String),
    /// The peer never presented certificates.
    NoPeerCerts,
    /// The peer's certificate does not parse.
    InvalidCert(InvalidCertError),
    /// The certificate's subject-alternative-names extension is invalid.
    SubjectAltNameExtError,
}

/// How parsing the peer certificate can fail, as the parser reports it.
pub enum CertParseError {
    /// The certificate's bytes ran out before the structure was complete.
    Incomplete,
    /// The encoding is invalid; carries the parser's words.
    Invalid(String),
}

/// Classifies a certificate-parse failure as the accept error it is: a
/// truncated certificate needed more data, anything else is an invalid
/// encoding. Either way the handshake is fatal and the caller must drop
/// the stream.
pub fn classify_cert_failure(e: CertParseError) -> (r: AcceptError)
    ensures
        match e {
            CertParseError::Incomplete => r == AcceptError::InvalidCert(
                InvalidCertError::DataNeeded,
            ),
            CertParseError::Invalid(s) => (r matches AcceptError::InvalidCert(
                InvalidCertError::X509(t),
            ) && t == s),
        },
{
    match e {
        CertParseError::Incomplete => AcceptError::InvalidCert(InvalidCertError::DataNeeded),
        CertParseError::Invalid(s) => AcceptError::InvalidCert(InvalidCertError::X509(s)),
    }
}

/// How many times the acceptor polls for peer certificates.
pub const CERT_POLL_ROUNDS: u32 = 20;

/// One round of the peer-certificate poll.
pub enum CertPoll {
    /// The certificates are visible: go on with the handshake.
    Proceed,
    /// Not yet visible: sleep one interval and ask again.
    Wait,
    /// Still not visible after the last round: the handshake fails with
    /// `NoPeerCerts`.
    GiveUp,
}

/// Decides one round of the poll, given how many rounds have passed and
/// whether the peer certificates are visible yet.
pub fn cert_poll_step(round: u32, certs_present: bool) -> (r: CertPoll)
    ensures
        certs_present ==> r is Proceed,
        !certs_present && round < CERT_POLL_ROUNDS ==> r is Wait,
        !certs_present && round >= CERT_POLL_ROUNDS ==> r is GiveUp,
{
    if certs_present {
        CertPoll::Proceed
    } else if round < CERT_POLL_ROUNDS {
        CertPoll::Wait
    } else {
        CertPoll::GiveUp
    }
}

/// The authenticated identity of a peer, from what its certificate
/// yields: the first subject-alternative name when the SAN extension is
/// present, the subject DN when it is absent. A present but empty SAN
/// list names nobody.
pub fn authenticated_name(sans: Option<Vec<String>>, subject_dn: String) -> (r: Option<String>)
    ensures
        match sans {
            Some(ns) => {
                if ns@.len() > 0 {
                    r matches Some(n) && n@ == ns@[0]@
                } else {
                    r is None
                }
            },
            None => r matches Some(n) && n@ == subject_dn@,
        },
{
    match sans {
        Some(mut ns) => {
            if ns.len() > 0 {
                let first = ns.remove(0);
                Some(first)
            } else {
                None
            }
        },
        None => Some(subject_dn),
    }
}

} // verus!
