//! Router discovery: the gateway's ID6 router name, the discovery URL, and
//! the outcome of a discovery response.
use vstd::prelude::*;
use vstd::string::StringSliceAdditionalSpecFns;

use super::messages::RouterInfoResponse;
use crate::text::{endpoint_url, str_chars, string_from_chars, trim_end_slashes};

verus! {

broadcast use vstd::string::group_string_axioms;

/// Why a gateway could not be discovered or named.
#[derive(Debug, Clone)]
pub enum DiscoveryError {
    /// The gateway ID is not 16 bytes long.
    InvalidGatewayIdLength { len: usize },
    /// The gateway ID holds a character that is not a hex digit.
    InvalidGatewayIdChar,
    /// The discovery server answered with an error.
    RouterError { error: String },
    /// The discovery response has no `uri`.
    MissingUri,
}

/// ASCII lower-casing of one character (what Unicode lower-casing does to
/// ASCII text).
pub open spec fn ascii_lower(c: char) -> char {
    if 'A' <= c <= 'Z' {
        ((c as u32) + 32) as char
    } else {
        c
    }
}

/// ID6 of a 16-character gateway ID: its lower-cased characters in four
/// groups of four, separated by colons.
pub open spec fn id6_text(id: Seq<char>) -> Seq<char> {
    let l = id.map_values(|c: char| ascii_lower(c));
    l.subrange(0, 4) + seq![':'] + l.subrange(4, 8) + seq![':'] + l.subrange(8, 12) + seq![':']
        + l.subrange(12, 16)
}

fn lower_char(c: char) -> (r: char)
    ensures
        r == ascii_lower(c),
{
    if 'A' <= c && c <= 'Z' {
        ((c as u32) + 32) as u8 as char
    } else {
        c
    }
}

/// A hex digit, either case.
pub open spec fn is_hex_char(c: char) -> bool {
    ||| '0' <= c <= '9'
    ||| 'a' <= c <= 'f'
    ||| 'A' <= c <= 'F'
}

/// Every character is a hex digit.
pub open spec fn all_hex(s: Seq<char>) -> bool {
    forall|i: int| 0 <= i < s.len() ==> #[trigger] is_hex_char(s[i])
}

/// Format a gateway ID (16 hex digits) as BasicStation ID6, which mimics
/// IPv6: "0016C001FF10A235" → "0016:c001:ff10:a235". An ID that is not 16
/// bytes long, or holds anything but hex digits, is refused.
pub fn gateway_id_to_id6(gateway_id: &str) -> (r: Result<String, DiscoveryError>)
    ensures
        gateway_id.len() != 16 ==> (r matches Err(DiscoveryError::InvalidGatewayIdLength {
            len,
        }) && len == gateway_id.len()),
        gateway_id.len() == 16 && !all_hex(gateway_id@) ==> (r matches Err(
            DiscoveryError::InvalidGatewayIdChar,
        )),
        gateway_id.len() == 16 && all_hex(gateway_id@) ==> (r matches Ok(s) && s@ == id6_text(
            gateway_id@,
        )),
{
    let len = gateway_id.len();
    if len != 16 {
        return Err(DiscoveryError::InvalidGatewayIdLength { len });
    }
    let chars = str_chars(gateway_id);
    let n = chars.len();
    let mut k: usize = 0;
    while k < n
        invariant
            n == chars@.len(),
            chars@ == gateway_id@,
            len == 16,
            len == gateway_id.len(),
            k <= n,
            forall|j: int| 0 <= j < k ==> #[trigger] is_hex_char(chars@[j]),
        decreases n - k,
    {
        let c = chars[k];
        if !(('0' <= c && c <= '9') || ('a' <= c && c <= 'f') || ('A' <= c && c <= 'F')) {
            assert(!is_hex_char(gateway_id@[k as int]));
            return Err(DiscoveryError::InvalidGatewayIdChar);
        }
        k = k + 1;
    }
    proof {
        assert(vstd::string::is_ascii(gateway_id)) by {
            assert forall|i: int| 0 <= i < gateway_id@.len() implies '\0' <= #[trigger] gateway_id@[i]
                <= '\u{7f}' by {
                assert(is_hex_char(chars@[i]));
            }
        }
        vstd::string::is_ascii_spec_bytes(gateway_id);
        assert(gateway_id.spec_bytes().len() == chars@.len());
    }
    assert(chars@.len() == 16);
    let ghost l = chars@.map_values(|c: char| ascii_lower(c));
    let mut out: Vec<char> = Vec::new();
    let mut i: usize = 0;
    while i < 16
        invariant
            chars@.len() == 16,
            l == chars@.map_values(|c: char| ascii_lower(c)),
            i <= 16,
            out@ == (if i <= 4 {
                l.subrange(0, i as int)
            } else if i <= 8 {
                l.subrange(0, 4) + seq![':'] + l.subrange(4, i as int)
            } else if i <= 12 {
                l.subrange(0, 4) + seq![':'] + l.subrange(4, 8) + seq![':'] + l.subrange(8, i as int)
            } else {
                l.subrange(0, 4) + seq![':'] + l.subrange(4, 8) + seq![':'] + l.subrange(8, 12)
                    + seq![':'] + l.subrange(12, i as int)
            }),
        decreases 16 - i,
    {
        if i == 4 || i == 8 || i == 12 {
            out.push(':');
        }
        out.push(lower_char(chars[i]));
        let ghost ii = i;
        i = i + 1;
        proof {
            assert(l[ii as int] == ascii_lower(chars@[ii as int]));
            if i <= 4 {
                assert(out@ =~= l.subrange(0, i as int));
            } else if i <= 8 {
                assert(out@ =~= l.subrange(0, 4) + seq![':'] + l.subrange(4, i as int));
            } else if i <= 12 {
                assert(out@ =~= l.subrange(0, 4) + seq![':'] + l.subrange(4, 8) + seq![':']
                    + l.subrange(8, i as int));
            } else {
                assert(out@ =~= l.subrange(0, 4) + seq![':'] + l.subrange(4, 8) + seq![':']
                    + l.subrange(8, 12) + seq![':'] + l.subrange(12, i as int));
            }
        }
    }
    Ok(string_from_chars(&out))
}

/// The discovery URL below an endpoint: `<endpoint>/router-info`, trailing
/// slashes of the endpoint dropped.
pub fn router_info_url(endpoint: &str) -> (r: String)
    ensures
        r@ == trim_end_slashes(endpoint@) + "/router-info"@,
{
    endpoint_url(endpoint, "/router-info")
}

/// The MUXS URI of a discovery response: an error reported by the server
/// wins; a response without `uri` is refused.
pub fn discovery_result(info: &RouterInfoResponse) -> (r: Result<String, DiscoveryError>)
    ensures
        match (info.error, info.uri) {
            (Some(e), _) => r matches Err(DiscoveryError::RouterError { error }) && error@ == e@,
            (None, None) => r matches Err(DiscoveryError::MissingUri),
            (None, Some(u)) => r matches Ok(s) && s@ == u@,
        },
{
    if let Some(error) = &info.error {
        return Err(DiscoveryError::RouterError { error: error.clone() });
    }
    match &info.uri {
        Some(u) => Ok(u.clone()),
        None => Err(DiscoveryError::MissingUri),
    }
}

} // verus!
