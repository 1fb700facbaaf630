//! CUPS: what an update response asks of the gateway, and when to ask again.
use vstd::prelude::*;

use crate::config::{Cups, Interval};
use crate::text::{str_chars, string_from_chars, sub_chars, trim, trim_bounds};
use client::CupsUpdateResponse;
use credentials::{parse_token_from_cred, token_from_cred};

pub mod client;
pub mod credentials;

verus! {

/// A TC URI restored from disk: the file's content trimmed, if anything is
/// left.
pub fn restored_tc_uri(content: &str) -> (r: Option<String>)
    ensures
        trim(content@).len() == 0 ==> r is None,
        trim(content@).len() > 0 ==> (r matches Some(u) && u@ == trim(content@)),
{
    let chars = str_chars(content);
    let (a, b) = trim_bounds(&chars);
    if a == b {
        None
    } else {
        Some(string_from_chars(&sub_chars(&chars, a, b)))
    }
}

/// What the gateway does with a CUPS update.
#[derive(Debug)]
pub struct CupsActions {
    /// A new TC (LNS) URI to use and save.
    pub new_tc_uri: Option<String>,
    /// New CUPS credentials to save.
    pub save_cups_cred: bool,
    /// New TC credentials to save.
    pub save_tc_cred: bool,
    /// The auth header carried by new TC credentials in token mode.
    pub tc_auth_header: Option<(String, String)>,
}

/// Act on a parsed CUPS update: a TC URI is taken over, credential blobs are
/// saved, and TC credentials in token mode provide the LNS auth header. A new
/// CUPS URI and update data are only reported.
pub fn update_actions(update: &CupsUpdateResponse) -> (r: CupsActions)
    ensures
        r.new_tc_uri.deep_view() == update@.tc_uri,
        r.save_cups_cred == update.cups_cred is Some,
        r.save_tc_cred == update.tc_cred is Some,
        match update@.tc_cred {
            Some(blob) => match token_from_cred(blob) {
                Some((name, value)) => r.tc_auth_header matches Some(h) && h.0@ == name && h.1@
                    == value,
                None => r.tc_auth_header is None,
            },
            None => r.tc_auth_header is None,
        },
{
    let new_tc_uri = match &update.tc_uri {
        Some(u) => Some(u.clone()),
        None => None,
    };
    let tc_auth_header = match &update.tc_cred {
        Some(blob) => {
            proof {
                assert(blob.deep_view() =~= blob@);
            }
            parse_token_from_cred(blob.as_slice())
        },
        None => None,
    };
    CupsActions {
        new_tc_uri,
        save_cups_cred: update.cups_cred.is_some(),
        save_tc_cred: update.tc_cred.is_some(),
        tc_auth_header,
    }
}

/// How long to wait before the next CUPS check: `oksync_interval` after a
/// successful check, `resync_interval` after a failed one.
pub fn next_check_interval(succeeded: bool, cups: &Cups) -> (r: Interval)
    ensures
        r == (if succeeded { cups.oksync_interval } else { cups.resync_interval }),
{
    if succeeded {
        cups.oksync_interval
    } else {
        cups.resync_interval
    }
}

} // verus!
