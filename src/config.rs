//! Settings of the service that the library itself reads.

use vstd::prelude::*;

verus! {

/// The encryption of the connection to the mail server.
#[derive(Clone, Copy, PartialEq, Eq, Structural, Debug)]
pub enum SmtpEncryption {
    /// TLS from the start.
    Tls,
    /// A plain connection upgraded with STARTTLS.
    StartTls,
}

impl Default for SmtpEncryption {
    fn default() -> (r: SmtpEncryption)
        ensures
            r == SmtpEncryption::Tls,
    {
        SmtpEncryption::Tls
    }
}

} // verus!
