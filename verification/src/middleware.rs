//! The middleware decision for one request: let an authenticated session
//! through, or build the redirect to the login flow, with the request's own
//! path and query carried along percent-encoded as the `return_path` query
//! parameter.

use vstd::prelude::*;
use vstd::string::StrSliceExecFns;
use vstd::string::StringExecFns;
use vstd::utf8::encode_utf8;

use crate::authenticated_session::AuthenticatedSession;
use crate::headers::textops::ascii_string_from_bytes;

verus! {

/// Whether a byte of the return path must be percent-escaped: everything
/// outside printable ASCII, and the query-breaking characters space, `"`,
/// `#`, `<`, `>`, `&`, `=` and `;`.
pub open spec fn escapes(b: u8) -> bool {
    b <= 0x20 || b > 0x7e || b == 0x22 || b == 0x23 || b == 0x3c || b == 0x3e || b == 0x26 || b
        == 0x3d || b == 0x3b
}

/// The uppercase hexadecimal digit for `d`.
pub open spec fn hex_upper(d: int) -> u8 {
    if d < 10 {
        (0x30 + d) as u8
    } else {
        (0x41 + d - 10) as u8
    }
}

/// The three-byte escape `%XX` of `b`.
pub open spec fn escape_bytes(b: u8) -> Seq<u8> {
    seq![0x25u8, hex_upper(b as int / 16), hex_upper(b as int % 16)]
}

/// The percent-encoding of `bs` under [`escapes`].
pub open spec fn query_encoded(bs: Seq<u8>) -> Seq<u8>
    decreases bs.len(),
{
    if bs.len() == 0 {
        Seq::<u8>::empty()
    } else {
        (if escapes(bs[0]) {
            escape_bytes(bs[0])
        } else {
            seq![bs[0]]
        }) + query_encoded(bs.drop_first())
    }
}

/// The percent-encoded form of `s`, over its UTF-8 bytes, as text.
pub open spec fn query_encoded_text(s: Seq<char>) -> Seq<char> {
    query_encoded(encode_utf8(s)).map_values(|b: u8| b as char)
}

/// The uppercase hexadecimal digit for `d`.
fn hex_upper_exec(d: u8) -> (r: u8)
    requires
        d < 16,
    ensures
        r == hex_upper(d as int),
{
    if d < 10 {
        0x30 + d
    } else {
        0x41 + d - 10
    }
}

/// Percent-encode one query parameter value.
pub fn encode_query_value(s: &str) -> (r: String)
    ensures
        r@ == query_encoded_text(s@),
{
    let bytes = s.as_bytes_vec();
    let n = bytes.len();
    let mut out: Vec<u8> = Vec::new();
    let mut i: usize = 0;
    proof {
        assert(bytes@.subrange(0, n as int) =~= bytes@);
        assert(Seq::<u8>::empty() + query_encoded(bytes@) =~= query_encoded(bytes@));
    }
    while i < n
        invariant
            i <= n,
            n == bytes@.len(),
            out@ + query_encoded(bytes@.subrange(i as int, n as int)) == query_encoded(bytes@),
            forall|k: int| 0 <= k < out@.len() ==> out@[k] < 0x80,
        decreases n - i,
    {
        let b = bytes[i];
        let ghost rest = bytes@.subrange(i as int, n as int);
        proof {
            assert(rest[0] == bytes@[i as int]);
            assert(rest.drop_first() =~= bytes@.subrange(i + 1, n as int));
        }
        if b <= 0x20 || b > 0x7e || b == 0x22 || b == 0x23 || b == 0x3c || b == 0x3e || b == 0x26
            || b == 0x3d || b == 0x3b {
            out.push(0x25);
            out.push(hex_upper_exec(b / 16));
            out.push(hex_upper_exec(b % 16));
        } else {
            out.push(b);
        }
        i = i + 1;
    }
    proof {
        assert(bytes@.subrange(n as int, n as int) =~= Seq::<u8>::empty());
        assert(out@ =~= query_encoded(bytes@));
    }
    ascii_string_from_bytes(out)
}

/// The path-and-query text a login redirect should return to.
pub open spec fn return_path_text(path: Seq<char>, query: Option<Seq<char>>) -> Seq<char> {
    match query {
        Some(q) => path + "?"@ + q,
        None => path,
    }
}

/// The full redirect location for an unauthenticated request: the login
/// location, then the percent-encoded return path as the `return_path`
/// query parameter.
pub open spec fn redirect_location_text(
    login: Seq<char>,
    path: Seq<char>,
    query: Option<Seq<char>>,
) -> Seq<char> {
    login + "?return_path="@ + query_encoded_text(return_path_text(path, query))
}

/// Middleware guarding a group of routes behind a Shibboleth login: a
/// request whose session is not authenticated is redirected to the login
/// location, carrying the request's own path and query as its
/// `return_path`.
pub struct Shibbleware<T> {
    auth_login_location: &'static str,
    phantom: core::marker::PhantomData<T>,
}

impl<T: AuthenticatedSession> Shibbleware<T> {
    /// The location unauthenticated requests are sent to.
    pub closed spec fn spec_location(&self) -> Seq<char> {
        self.auth_login_location@
    }

    /// Middleware that sends unauthenticated requests to
    /// `auth_login_location`.
    pub fn new(auth_login_location: &'static str) -> (r: Shibbleware<T>)
        ensures
            r.spec_location() == auth_login_location@,
    {
        Shibbleware { auth_login_location, phantom: core::marker::PhantomData }
    }

    /// The location unauthenticated requests are sent to.
    pub fn auth_login_location(&self) -> (r: &'static str)
        ensures
            r@ == self.spec_location(),
    {
        self.auth_login_location
    }

    /// The redirect location for a request that arrived at `path` with
    /// `query`.
    pub fn redirect_location(&self, path: &str, query: Option<&str>) -> (r: String)
        ensures
            r@ == redirect_location_text(
                self.spec_location(),
                path@,
                match query {
                    Some(q) => Some(q@),
                    None => None,
                },
            ),
    {
        let mut rp = path.to_owned();
        match query {
            Some(q) => {
                rp.append("?");
                rp.append(q);
            }
            None => {}
        }
        let encoded = encode_query_value(rp.as_str());
        let mut out = self.auth_login_location.to_owned();
        out.append("?return_path=");
        out.append(encoded.as_str());
        out
    }

    /// The middleware's decision for one request: an authenticated session
    /// passes through, any other is answered with a redirect to the login
    /// location.
    pub fn handle_request(&self, authenticated: bool, path: &str, query: Option<&str>) -> (r:
        Option<String>)
        ensures
            authenticated <==> r is None,
            !authenticated ==> (r matches Some(loc) && loc@ == redirect_location_text(
                self.spec_location(),
                path@,
                match query {
                    Some(q) => Some(q@),
                    None => None,
                },
            )),
    {
        if authenticated {
            None
        } else {
            Some(self.redirect_location(path, query))
        }
    }
}

} // verus!
