//! Offline detection: recognising expired `device:{code}:online` keys.
use vstd::prelude::*;
use crate::text::{chars_match, str_chars};

verus! {

/// The device code of a `device:{code}:online` key: the characters between
/// the prefix and the suffix, when the key starts with `device:` and the rest
/// ends with `:online`.
pub open spec fn spec_device_code(key: Seq<char>) -> Option<Seq<char>> {
    if key.len() >= 14 && key.subrange(0, 7) == "device:"@ && key.subrange(key.len() - 7, key.len() as int)
        == ":online"@ {
        Some(key.subrange(7, key.len() - 7))
    } else {
        None
    }
}

/// Extract the device code from a `device:{code}:online` key; `None` when the
/// key does not match that pattern.
pub fn extract_device_code(expired_key: &str) -> (r: Option<&str>)
    ensures
        match r {
            Some(code) => spec_device_code(expired_key@) == Some(code@),
            None => spec_device_code(expired_key@) is None,
        },
{
    proof {
        reveal_strlit("device:");
        reveal_strlit(":online");
    }
    let v = str_chars(expired_key);
    let n = v.len();
    if n < 14 {
        return None;
    }
    if !chars_match(&v, 0, 7, "device:") {
        return None;
    }
    if !chars_match(&v, n - 7, n, ":online") {
        return None;
    }
    Some(expired_key.substring_char(7, n - 7))
}

} // verus!
