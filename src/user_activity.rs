//! What the per-user activity log records, and the file-safe form of a
//! username the log files are named after.

use crate::text::{chars_of, is_alphanumeric, push_char, unicode_alphanumeric};
use vstd::prelude::*;

verus! {

/// One kind of user activity.
#[derive(Debug, Clone)]
pub enum UserAction {
    Login,
    Logout,
    ChatRequest { model: String, message_count: usize, tokens_estimated: Option<u32> },
    QuotaCheck { used: u32, remaining: u32 },
    QuotaExceeded { used: u32, limit: u32 },
    RateLimited,
    AccountDisabled,
    Error { error_type: String, message: String },
}

/// The character `c` becomes in a file name: itself if alphanumeric, `_`
/// or `-`, else `_`.
pub open spec fn safe_char(c: char) -> char {
    if unicode_alphanumeric(c) || c == '_' || c == '-' { c } else { '_' }
}

/// `username` with every character that could reach outside a directory
/// replaced by `_`.
pub fn sanitize_username(username: &str) -> (r: String)
    ensures
        r@ == username@.map_values(|c: char| safe_char(c)),
{
    let chars = chars_of(username);
    let mut out = String::new();
    let mut i: usize = 0;
    while i < chars.len()
        invariant
            chars@ == username@,
            i <= chars@.len(),
            out@ == username@.subrange(0, i as int).map_values(|c: char| safe_char(c)),
        decreases chars@.len() - i,
    {
        let c = chars[i];
        let kept = if is_alphanumeric(c) || c == '_' || c == '-' { c } else { '_' };
        push_char(&mut out, kept);
        proof {
            assert(username@.subrange(0, i + 1).map_values(|c: char| safe_char(c)) =~= username@.subrange(
                0,
                i as int,
            ).map_values(|c: char| safe_char(c)).push(safe_char(c)));
        }
        i = i + 1;
    }
    proof {
        assert(username@.subrange(0, i as int) =~= username@);
    }
    out
}

} // verus!
