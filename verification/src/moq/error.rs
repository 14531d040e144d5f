//! Errors of the MOQT mode.

use vstd::prelude::*;

verus! {

/// An error raised in the MOQT mode; each variant carries its message.
#[derive(Debug, Clone)]
pub enum MoqError {
    /// Parsing the URL failed.
    Url(String),
    /// Setting up TLS failed.
    Tls(String),
    /// The QUIC connection or a stream operation failed.
    Quic(String),
    /// The MOQT session or protocol handling failed.
    Session(String),
    /// Validating the configuration or the arguments failed.
    Config(String),
    /// Capturing, encoding or decoding media failed.
    Media(String),
    /// Building or reading the MSF catalog failed.
    Catalog(String),
}

/// The kinds of `MoqError`.
#[derive(Debug, Clone, Copy, PartialEq, Eq, Structural)]
pub enum MoqErrorKind {
    Url,
    Tls,
    Quic,
    Session,
    Config,
    Media,
    Catalog,
}

impl MoqError {
    /// The kind of the error.
    pub open spec fn spec_kind(self) -> MoqErrorKind {
        match self {
            MoqError::Url(_) => MoqErrorKind::Url,
            MoqError::Tls(_) => MoqErrorKind::Tls,
            MoqError::Quic(_) => MoqErrorKind::Quic,
            MoqError::Session(_) => MoqErrorKind::Session,
            MoqError::Config(_) => MoqErrorKind::Config,
            MoqError::Media(_) => MoqErrorKind::Media,
            MoqError::Catalog(_) => MoqErrorKind::Catalog,
        }
    }

    /// The text that names the kind of error in front of its message.
    pub open spec fn spec_prefix(self) -> Seq<char> {
        match self {
            MoqError::Url(_) => "URL error: "@,
            MoqError::Tls(_) => "TLS error: "@,
            MoqError::Quic(_) => "QUIC error: "@,
            MoqError::Session(_) => "MOQT session error: "@,
            MoqError::Config(_) => "config error: "@,
            MoqError::Media(_) => "media error: "@,
            MoqError::Catalog(_) => "catalog error: "@,
        }
    }

    /// The message that the error carries.
    pub open spec fn spec_message(self) -> Seq<char> {
        match self {
            MoqError::Url(m) => m@,
            MoqError::Tls(m) => m@,
            MoqError::Quic(m) => m@,
            MoqError::Session(m) => m@,
            MoqError::Config(m) => m@,
            MoqError::Media(m) => m@,
            MoqError::Catalog(m) => m@,
        }
    }

    /// Renders the error for a user: the kind of error, a colon and the message.
    pub fn to_string(&self) -> (r: String)
        ensures
            r@ == self.spec_prefix() + self.spec_message(),
    {
        let (prefix, message): (&str, &String) = match self {
            MoqError::Url(m) => ("URL error: ", m),
            MoqError::Tls(m) => ("TLS error: ", m),
            MoqError::Quic(m) => ("QUIC error: ", m),
            MoqError::Session(m) => ("MOQT session error: ", m),
            MoqError::Config(m) => ("config error: ", m),
            MoqError::Media(m) => ("media error: ", m),
            MoqError::Catalog(m) => ("catalog error: ", m),
        };
        let mut out = prefix.to_owned();
        out.append(message.as_str());
        out
    }
}

} // verus!
