//! Expansion of the position-based diff encoding used for variant URLs.
use vstd::prelude::*;
use vstd::utf8::{decode_utf8, encode_utf8, is_char_boundary};
use crate::text::{
    chars_of, decimal_value, find_char, first_from, is_decimal, parse_decimal, slice_chars,
    string_of,
};

verus! {

/// The two parts of a diff field `"<position>|<replacement>"`: the position as a number and
/// the replacement, which is everything after the first `|`. `None` when the field has no
/// `|` or the position is not a decimal number that fits in `usize`.
pub open spec fn diff_parts(diff: Seq<char>) -> Option<(nat, Seq<char>)> {
    let bar = first_from(diff, '|', 0);
    let head = diff.subrange(0, bar);
    if bar < diff.len() && is_decimal(head) && decimal_value(head) <= usize::MAX {
        Some((decimal_value(head), diff.subrange(bar + 1, diff.len() as int)))
    } else {
        None
    }
}

/// The canonical URL cut at the given byte offset, followed by the replacement. `None` when
/// the diff field is malformed or the offset is not a character boundary of the URL (in
/// particular, when it lies beyond its end).
pub open spec fn expanded(url: Seq<char>, diff: Seq<char>) -> Option<Seq<char>> {
    match diff_parts(diff) {
        Some((pos, repl)) => if is_char_boundary(encode_utf8(url), pos as int) {
            Some(decode_utf8(encode_utf8(url).subrange(0, pos as int)) + repl)
        } else {
            None
        },
        None => None,
    }
}

/// Rebuilds a variant URL from the canonical `base_url` and a diff field
/// `"<position>|<replacement>"`: everything of `base_url` from byte `position` on is replaced.
/// Returns `None` exactly when the diff field cannot be applied to `base_url`.
pub fn expand_to_full_url(base_url: &str, diff_str: &str) -> (r: Option<String>)
    ensures
        r is Some <==> expanded(base_url@, diff_str@) is Some,
        r is Some ==> expanded(base_url@, diff_str@) == Some(r->0@),
{
    let d = chars_of(diff_str);
    let bar = find_char(&d, 0, '|');
    if bar >= d.len() {
        return None;
    }
    let pos = match parse_decimal(&d, 0, bar) {
        Some(p) => p,
        None => return None,
    };
    proof {
        vstd::utf8::encode_utf8_valid_utf8(base_url@);
    }
    if !base_url.is_char_boundary(pos) {
        return None;
    }
    let (prefix, _rest) = base_url.split_at(pos);
    let replacement = string_of(&slice_chars(&d, bar + 1, d.len()));
    let mut out = String::from_str(prefix);
    out.append(replacement.as_str());
    proof {
        vstd::utf8::encode_utf8_decode_utf8(prefix@);
    }
    Some(out)
}

} // verus!
