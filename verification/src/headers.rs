//! Construction of the four request headers from the caller-supplied
//! authentication token.
//!
//! A token is usable only if every one of its characters is valid inside
//! an HTTP header value: at the byte level a header value may hold bytes
//! 32..=255 except 127 (DEL), plus horizontal tab.  Characters outside
//! ASCII encode to bytes at or above 128, which are all allowed, so the
//! check can be stated character by character.
use vstd::prelude::*;
use vstd::string::*;

verus! {

/// Whether one character may appear in an HTTP header value.
pub open spec fn valid_header_char(c: char) -> bool {
    c == '\t' || (32 <= c as nat && c as nat != 127)
}

/// Whether a whole text is usable as an HTTP header value.
pub open spec fn valid_header_value(s: Seq<char>) -> bool {
    forall|i: int| 0 <= i < s.len() ==> valid_header_char(s[i])
}

/// The message reported when the token cannot be placed in a header.
pub open spec fn spec_invalid_token_msg() -> Seq<char> {
    "Invalid token header: failed to parse header value"@
}

/// Check a text for use as an HTTP header value.
pub fn check_header_value(s: &str) -> (r: bool)
    ensures
        r == valid_header_value(s@),
{
    let n = s.unicode_len();
    let mut i: usize = 0;
    while i < n
        invariant
            n == s@.len(),
            i <= n,
            forall|j: int| 0 <= j < i ==> valid_header_char(s@[j]),
        decreases n - i,
    {
        let c = s.get_char(i);
        let ok = c == '\t' || ((c as u32) >= 32 && (c as u32) != 127);
        if !ok {
            proof {
                assert(!valid_header_char(s@[i as int]));
            }
            return false;
        }
        i = i + 1;
    }
    true
}

/// The four request headers sent with every call, in order: the raw
/// token, the bearer form of the same token, and the two content
/// negotiation headers.  Fails, before any request could be made, when
/// the token cannot stand in a header value.
pub fn build_auth_headers(token: &str) -> (r: Result<Vec<(String, String)>, String>)
    ensures
        valid_header_value(token@) <==> r is Ok,
        (r matches Ok(hs) ==> hs@.len() == 4 && hs@[0].0@ == "AuthenticationToken"@ && hs@[0].1@
            == token@ && hs@[1].0@ == "Authorization"@ && hs@[1].1@ == "Bearer "@ + token@
            && hs@[2].0@ == "Accept"@ && hs@[2].1@ == "application/json"@ && hs@[3].0@
            == "Content-Type"@ && hs@[3].1@ == "application/json"@),
        (r matches Err(m) ==> m@ == spec_invalid_token_msg()),
{
    if !check_header_value(token) {
        return Err(String::from_str("Invalid token header: failed to parse header value"));
    }
    let mut bearer = String::from_str("Bearer ");
    bearer.append(token);
    let mut hs: Vec<(String, String)> = Vec::new();
    hs.push((String::from_str("AuthenticationToken"), token.to_owned()));
    hs.push((String::from_str("Authorization"), bearer));
    hs.push((String::from_str("Accept"), String::from_str("application/json")));
    hs.push((String::from_str("Content-Type"), String::from_str("application/json")));
    Ok(hs)
}

} // verus!
