//! Parsing the MOQT server URL.
//!
//! Takes a `moqt://host:port/path` URL and yields the AUTHORITY and PATH values of the
//! SETUP message and the address of the QUIC connection.

use vstd::prelude::*;

use crate::moq::error::MoqError;
use crate::text::{dec, parse_unsigned, push_decimal, spec_parse_unsigned};

verus! {

/// The default MOQT port.
pub const DEFAULT_PORT: u16 = 4433;

/// The index of the first `c` in `s`.
pub open spec fn first_index_of(s: Seq<char>, c: char) -> Option<int>
    decreases s.len(),
{
    if s.len() == 0 {
        None
    } else if s[0] == c {
        Some(0)
    } else {
        match first_index_of(s.drop_first(), c) {
            Some(i) => Some(i + 1),
            None => None,
        }
    }
}

/// The index of the last `c` in `s`.
pub open spec fn last_index_of(s: Seq<char>, c: char) -> Option<int>
    decreases s.len(),
{
    if s.len() == 0 {
        None
    } else if s.last() == c {
        Some(s.len() - 1)
    } else {
        last_index_of(s.drop_last(), c)
    }
}

/// The parts of a parsed server URL.
pub struct ServerUrlView {
    pub host: Seq<char>,
    pub port: u16,
    pub authority: Seq<char>,
    pub path: Option<Seq<char>>,
}

/// The port given by `value`, or the message refusing it.
pub open spec fn spec_port(value: Seq<char>, url: Seq<char>) -> Result<u16, Seq<char>> {
    match spec_parse_unsigned(value, 65535) {
        Some(n) => Ok(n as u16),
        None => Err("invalid port '"@ + value + "': "@ + url),
    }
}

/// The host and port of an authority; an IPv6 literal is written in brackets.
pub open spec fn spec_host_and_port(authority: Seq<char>, url: Seq<char>) -> Result<(Seq<char>, u16), Seq<char>> {
    match last_index_of(authority, ']') {
        Some(end) => if authority[0] != '[' {
            Err("invalid IPv6 literal: "@ + authority)
        } else {
            let after = authority.subrange(end + 1, authority.len() as int);
            let host = authority.subrange(1, end);
            if after.len() > 0 && after[0] == ':' {
                match spec_port(after.drop_first(), url) {
                    Ok(port) => Ok((host, port)),
                    Err(m) => Err(m),
                }
            } else {
                Ok((host, DEFAULT_PORT))
            }
        },
        None => match last_index_of(authority, ':') {
            Some(i) => match spec_port(authority.subrange(i + 1, authority.len() as int), url) {
                Ok(port) => Ok((authority.subrange(0, i), port)),
                Err(m) => Err(m),
            },
            None => Ok((authority, DEFAULT_PORT)),
        },
    }
}

/// The `host:port` authority of a host and a port; a host that the URL wrote in brackets
/// (an IPv6 literal) keeps them.
pub open spec fn spec_authority(host: Seq<char>, port: u16, bracketed: bool) -> Seq<char> {
    if bracketed {
        "["@ + host + "]:"@ + dec(port as nat)
    } else {
        host + ":"@ + dec(port as nat)
    }
}

/// What parsing a server URL gives: its parts, or the message of the error.
/// The scheme must be `moqt`; a missing port means [`DEFAULT_PORT`]; a path that is
/// just `/` is not sent as PATH.
pub open spec fn spec_parse_server_url(url: Seq<char>) -> Result<ServerUrlView, Seq<char>> {
    if !(url.len() >= 7 && url.subrange(0, 7) == "moqt://"@) {
        Err("URL must start with 'moqt://': "@ + url)
    } else {
        let rest = url.subrange(7, url.len() as int);
        let authority = match first_index_of(rest, '/') {
            Some(i) => rest.subrange(0, i),
            None => rest,
        };
        let path = match first_index_of(rest, '/') {
            Some(i) => Some(rest.subrange(i, rest.len() as int)),
            None => None,
        };
        if authority.len() == 0 {
            Err("authority is empty: "@ + url)
        } else {
            match spec_host_and_port(authority, url) {
                Err(m) => Err(m),
                Ok((host, port)) => if host.len() == 0 {
                    Err("host is empty: "@ + url)
                } else {
                    Ok(ServerUrlView {
                        host,
                        port,
                        authority: spec_authority(host, port, last_index_of(authority, ']') is Some),
                        path: match path {
                            Some(p) => if p == "/"@ { None } else { Some(p) },
                            None => None,
                        },
                    })
                },
            }
        }
    }
}

/// A parsed server URL.
#[derive(Debug, Clone)]
pub struct ServerUrl {
    /// Host name (an IPv6 literal without its brackets).
    host: String,
    /// Port number.
    port: u16,
    /// The `host:port` authority.
    authority: String,
    /// Request path; `None` for `/`.
    path: Option<String>,
}

impl View for ServerUrl {
    type V = ServerUrlView;

    closed spec fn view(&self) -> ServerUrlView {
        ServerUrlView {
            host: self.host@,
            port: self.port,
            authority: self.authority@,
            path: match self.path {
                Some(p) => Some(p@),
                None => None,
            },
        }
    }
}

fn find_first(s: &str, c: char) -> (r: Option<usize>)
    ensures
        r matches Some(i) ==> first_index_of(s@, c) == Some(i as int),
        r is None ==> first_index_of(s@, c) is None,
{
    let n = s.unicode_len();
    let mut i: usize = 0;
    assert(s@.skip(0) =~= s@);
    while i < n
        invariant
            n == s@.len(),
            i <= n,
            first_index_of(s@, c) == match first_index_of(s@.skip(i as int), c) {
                Some(j) => Some(j + i),
                None => None,
            },
        decreases n - i,
    {
        assert(s@.skip(i as int).drop_first() =~= s@.skip(i + 1));
        if s.get_char(i) == c {
            return Some(i);
        }
        i = i + 1;
    }
    None
}

fn find_last(s: &str, c: char) -> (r: Option<usize>)
    ensures
        r matches Some(i) ==> last_index_of(s@, c) == Some(i as int) && i < s@.len(),
        r is None ==> last_index_of(s@, c) is None,
{
    let n = s.unicode_len();
    let mut i: usize = n;
    assert(s@.take(n as int) =~= s@);
    while i > 0
        invariant
            n == s@.len(),
            i <= n,
            last_index_of(s@, c) == last_index_of(s@.take(i as int), c),
        decreases i,
    {
        assert(s@.take(i as int).drop_last() =~= s@.take(i - 1));
        if s.get_char(i - 1) == c {
            return Some(i - 1);
        }
        i = i - 1;
    }
    None
}

fn message_with(prefix: &str, value: &str) -> (r: String)
    ensures
        r@ == prefix@ + value@,
{
    let mut out = prefix.to_owned();
    out.append(value);
    out
}

/// Parses a port number.
fn parse_port(value: &str, url: &str) -> (r: Result<u16, MoqError>)
    ensures
        match spec_port(value@, url@) {
            Ok(port) => r == Ok::<u16, MoqError>(port),
            Err(m) => r matches Err(e) && e is Url && e.spec_message() == m,
        },
{
    match parse_unsigned(value, 65535) {
        Some(n) => Ok(n as u16),
        None => {
            let mut message = "invalid port '".to_owned();
            message.append(value);
            message.append("': ");
            message.append(url);
            Err(MoqError::Url(message))
        },
    }
}

fn host_and_port(authority: &str, url: &str) -> (r: Result<(String, u16), MoqError>)
    requires
        authority@.len() > 0,
    ensures
        match spec_host_and_port(authority@, url@) {
            Ok((host, port)) => r matches Ok((h, p)) && h@ == host && p == port,
            Err(m) => r matches Err(e) && e is Url && e.spec_message() == m,
        },
{
    let n = authority.unicode_len();
    match find_last(authority, ']') {
        Some(end) => {
            if authority.get_char(0) != '[' {
                return Err(MoqError::Url(message_with("invalid IPv6 literal: ", authority)));
            }
            proof {
                lemma_last_index_bound(authority@, ']');
            }
            let host = authority.substring_char(1, end);
            let after = authority.substring_char(end + 1, n);
            if after.unicode_len() > 0 && after.get_char(0) == ':' {
                let value = after.substring_char(1, after.unicode_len());
                assert(value@ =~= after@.drop_first());
                match parse_port(value, url) {
                    Ok(port) => Ok((host.to_owned(), port)),
                    Err(e) => Err(e),
                }
            } else {
                Ok((host.to_owned(), DEFAULT_PORT))
            }
        },
        None => match find_last(authority, ':') {
            Some(i) => {
                let value = authority.substring_char(i + 1, n);
                match parse_port(value, url) {
                    Ok(port) => Ok((authority.substring_char(0, i).to_owned(), port)),
                    Err(e) => Err(e),
                }
            },
            None => Ok((authority.to_owned(), DEFAULT_PORT)),
        },
    }
}

fn authority_of(host: &str, port: u16, bracketed: bool) -> (r: String)
    ensures
        r@ == spec_authority(host@, port, bracketed),
{
    let mut out = if bracketed { "[".to_owned() } else { "".to_owned() };
    out.append(host);
    out.append(if bracketed { "]:" } else { ":" });
    push_decimal(&mut out, port as u64);
    proof {
        reveal_strlit("[");
        reveal_strlit("");
        reveal_strlit("]:");
        reveal_strlit(":");
        if !bracketed {
            assert(""@ + host@ =~= host@);
        }
    }
    out
}

impl ServerUrl {
    /// Parses a `moqt://` URL.
    ///
    /// Only the `moqt` scheme is accepted. Without a port, [`DEFAULT_PORT`] is used. The
    /// authority is rebuilt as `host:port` from the parsed host (in brackets when the URL
    /// wrote it so) and port, the default port included.
    /// A path that is just `/` becomes `None` and is not sent as PATH.
    pub fn parse(url: &str) -> (r: Result<ServerUrl, MoqError>)
        ensures
            match spec_parse_server_url(url@) {
                Ok(v) => r matches Ok(s) && s@ == v,
                Err(m) => r matches Err(e) && e is Url && e.spec_message() == m,
            },
    {
        proof {
            reveal_strlit("moqt://");
            reveal_strlit("/");
        }
        let n = url.unicode_len();
        let has_scheme = n >= 7 && url.get_char(0) == 'm' && url.get_char(1) == 'o'
            && url.get_char(2) == 'q' && url.get_char(3) == 't' && url.get_char(4) == ':'
            && url.get_char(5) == '/' && url.get_char(6) == '/';
        proof {
            if n >= 7 {
                if has_scheme {
                    assert(url@.subrange(0, 7) =~= "moqt://"@);
                } else {
                    assert(url@.subrange(0, 7) != "moqt://"@) by {
                        if url@.subrange(0, 7) == "moqt://"@ {
                            assert(url@.subrange(0, 7)[0] == url@[0]);
                            assert(url@.subrange(0, 7)[1] == url@[1]);
                            assert(url@.subrange(0, 7)[2] == url@[2]);
                            assert(url@.subrange(0, 7)[3] == url@[3]);
                            assert(url@.subrange(0, 7)[4] == url@[4]);
                            assert(url@.subrange(0, 7)[5] == url@[5]);
                            assert(url@.subrange(0, 7)[6] == url@[6]);
                        }
                    }
                }
            }
        }
        if !has_scheme {
            return Err(MoqError::Url(message_with("URL must start with 'moqt://': ", url)));
        }
        let rest = url.substring_char(7, n);
        let rest_len = rest.unicode_len();
        let slash = find_first(rest, '/');
        let (authority, path) = match slash {
            Some(i) => {
                proof {
                    lemma_first_index_bound(rest@, '/');
                }
                (rest.substring_char(0, i), Some(rest.substring_char(i, rest_len)))
            },
            None => (rest, None),
        };
        if authority.unicode_len() == 0 {
            return Err(MoqError::Url(message_with("authority is empty: ", url)));
        }
        let bracketed = find_last(authority, ']').is_some();
        let (host, port) = match host_and_port(authority, url) {
            Ok(v) => v,
            Err(e) => return Err(e),
        };
        if host.as_str().unicode_len() == 0 {
            return Err(MoqError::Url(message_with("host is empty: ", url)));
        }
        let path = match path {
            Some(p) => {
                let is_root = p.unicode_len() == 1 && p.get_char(0) == '/';
                proof {
                    if p@.len() == 1 {
                        if is_root {
                            assert(p@ =~= "/"@);
                        } else {
                            assert(p@ != "/"@) by {
                                if p@ == "/"@ {
                                    assert(p@[0] == '/');
                                }
                            }
                        }
                    }
                }
                if is_root { None } else { Some(p.to_owned()) }
            },
            None => None,
        };
        let authority = authority_of(host.as_str(), port, bracketed);
        Ok(ServerUrl { host, port, authority, path })
    }

    /// The host name.
    pub fn host(&self) -> (r: &str)
        ensures
            r@ == self@.host,
    {
        self.host.as_str()
    }

    /// The port number.
    pub fn port(&self) -> (r: u16)
        ensures
            r == self@.port,
    {
        self.port
    }

    /// The `host:port` authority, sent as the AUTHORITY option of SETUP.
    pub fn authority(&self) -> (r: &str)
        ensures
            r@ == self@.authority,
    {
        self.authority.as_str()
    }

    /// The value of the PATH option of SETUP, if one is sent.
    pub fn path_option(&self) -> (r: Option<&str>)
        ensures
            match self@.path {
                Some(p) => r matches Some(s) && s@ == p,
                None => r is None,
            },
    {
        match &self.path {
            Some(p) => Some(p.as_str()),
            None => None,
        }
    }
}

proof fn lemma_last_index_bound(s: Seq<char>, c: char)
    ensures
        last_index_of(s, c) matches Some(i) ==> 0 <= i < s.len() && s[i] == c,
    decreases s.len(),
{
    if s.len() > 0 && s.last() != c {
        lemma_last_index_bound(s.drop_last(), c);
    }
}

proof fn lemma_first_index_bound(s: Seq<char>, c: char)
    ensures
        first_index_of(s, c) matches Some(i) ==> 0 <= i < s.len() && s[i] == c,
    decreases s.len(),
{
    if s.len() > 0 && s[0] != c {
        lemma_first_index_bound(s.drop_first(), c);
    }
}

proof fn lemma_first_slash_after(a: Seq<char>, p: Seq<char>)
    requires
        !a.contains('/'),
        p.len() > 0,
        p[0] == '/',
    ensures
        first_index_of(a + p, '/') == Some(a.len() as int),
        first_index_of(a, '/') is None,
    decreases a.len(),
{
    if a.len() == 0 {
        assert(a + p =~= p);
    } else {
        assert(a[0] != '/');
        assert((a + p)[0] == a[0]);
        assert((a + p).drop_first() =~= a.drop_first() + p);
        assert(!a.drop_first().contains('/')) by {
            if a.drop_first().contains('/') {
                let j = choose|j: int| 0 <= j < a.drop_first().len() && a.drop_first()[j] == '/';
                assert(a[j + 1] == '/');
            }
        }
        lemma_first_slash_after(a.drop_first(), p);
    }
}

/// The path of a server URL is everything from the first `/`, and the authority everything
/// before it: parsing `moqt://` + `a` + `p`, where `a` holds no `/` and `p` begins with one,
/// succeeds exactly when parsing `moqt://` + `a` does, gives the same host, port and
/// authority, and gives the path `p` (none for `/` alone).
pub proof fn lemma_path_starts_at_first_slash(a: Seq<char>, p: Seq<char>)
    requires
        !a.contains('/'),
        p.len() > 0,
        p[0] == '/',
    ensures
        spec_parse_server_url("moqt://"@ + a + p) is Ok <==> spec_parse_server_url("moqt://"@ + a) is Ok,
        spec_parse_server_url("moqt://"@ + a + p) matches Ok(v) ==> {
            let w = spec_parse_server_url("moqt://"@ + a)->Ok_0;
            &&& v.host == w.host
            &&& v.port == w.port
            &&& v.authority == w.authority
            &&& w.path is None
            &&& v.path == (if p == "/"@ { None::<Seq<char>> } else { Some(p) })
        },
{
    reveal_strlit("moqt://");
    let u1 = "moqt://"@ + a + p;
    let u2 = "moqt://"@ + a;
    lemma_first_slash_after(a, p);
    assert(u1.subrange(0, 7) =~= "moqt://"@);
    assert(u2.subrange(0, 7) =~= "moqt://"@);
    assert(u1.subrange(7, u1.len() as int) =~= a + p);
    assert(u2.subrange(7, u2.len() as int) =~= a);
    assert((a + p).subrange(0, a.len() as int) =~= a);
    assert((a + p).subrange(a.len() as int, (a + p).len() as int) =~= p);
}

} // verus!
