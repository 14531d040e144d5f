//! Pieces of the MOQT client that do not depend on the session engine: the results it
//! hands out, the SETUP options it offers, and the error a closed session becomes.

use vstd::prelude::*;

use crate::moq::error::MoqError;
use crate::moq::url::ServerUrl;
use crate::text::{lower_hex, push_lower_hex};

verus! {

/// Name of this implementation in the SETUP option MOQT_IMPLEMENTATION.
pub const IMPLEMENTATION_NAME: &'static str = "momo-rs";

/// The outcome of the filters evaluated before an object is sent
/// (draft-ietf-moq-transport-21 §3.3.3: only objects that pass every filter are forwarded).
#[derive(Debug, Clone, Copy, PartialEq, Eq, Structural)]
pub enum ObjectFilterOutcome {
    /// The object passed: send it.
    Pass,
    /// The object did not pass: do not put it on the wire.
    Skip,
}

/// A REQUEST_UPDATE received from the peer.
#[derive(Debug, Clone, Copy, PartialEq, Eq, Structural)]
pub struct IncomingRequestUpdate {
    /// The Request ID of the request it updates.
    pub request_id: u64,
}

/// The result of a SUBSCRIBE.
#[derive(Debug, Clone, Copy, PartialEq, Eq, Structural)]
pub struct SubscribeResult {
    /// Our Request ID.
    pub request_id: u64,
    /// The Track Alias set by SUBSCRIBE_OK.
    pub track_alias: u64,
}

/// The result of a FETCH.
#[derive(Debug, Clone, Copy, PartialEq, Eq, Structural)]
pub struct FetchResult {
    /// Our Request ID.
    pub request_id: u64,
}

/// The SETUP options this client sends.
#[derive(Debug, Clone, Copy, PartialEq, Eq, Structural)]
pub enum SetupOptionKind {
    /// AUTHORITY (draft-ietf-moq-transport-21 §9.1.1).
    Authority,
    /// PATH (§9.1.2).
    Path,
    /// MOQT_IMPLEMENTATION.
    MoqtImplementation,
}

/// The UTF-8 bytes of a text.
pub open spec fn utf8(s: Seq<char>) -> Seq<u8> {
    vstd::utf8::encode_utf8(s)
}

fn str_bytes(s: &str) -> (r: Vec<u8>)
    ensures
        r@ == utf8(s@),
{
    crate::bytes::copy_range(s.as_bytes(), 0, s.as_bytes().len())
}

/// Builds the SETUP options for a direct QUIC connection: AUTHORITY and, when the URL has
/// one, PATH (draft-ietf-moq-transport-21 §9.1.1 / §9.1.2), then MOQT_IMPLEMENTATION.
/// No datagrams are sent, so MAX_FILTER_RANGES and the like are left out.
pub fn setup_options(server: &ServerUrl) -> (r: Vec<(SetupOptionKind, Vec<u8>)>)
    ensures
        r@.len() == (if server@.path is Some { 3int } else { 2int }),
        r@[0].0 == SetupOptionKind::Authority,
        r@[0].1@ == utf8(server@.authority),
        server@.path matches Some(p) ==> r@[1].0 == SetupOptionKind::Path && r@[1].1@ == utf8(p),
        r@.last().0 == SetupOptionKind::MoqtImplementation,
        r@.last().1@ == utf8(IMPLEMENTATION_NAME@),
{
    let mut options: Vec<(SetupOptionKind, Vec<u8>)> = Vec::new();
    let authority = server.authority();
    options.push((SetupOptionKind::Authority, str_bytes(authority)));
    if let Some(path) = server.path_option() {
        options.push((SetupOptionKind::Path, str_bytes(path)));
    }
    options.push((SetupOptionKind::MoqtImplementation, str_bytes(IMPLEMENTATION_NAME)));
    options
}

/// The error a session closed by the peer becomes: `session closed: code=0x…
/// reason=…`, the code in lower-case hexadecimal.
pub fn close_session_error(code: u64, reason: &str) -> (r: MoqError)
    ensures
        r matches MoqError::Session(m) && m@ == "session closed: code=0x"@ + lower_hex(code as nat) + " reason="@ + reason@,
{
    let mut m = "session closed: code=0x".to_owned();
    push_lower_hex(&mut m, code);
    m.append(" reason=");
    m.append(reason);
    MoqError::Session(m)
}

} // verus!
