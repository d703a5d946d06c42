use vstd::prelude::*;
use vstd::string::StrSliceExecFns;

use crate::strutil::{
    find_blank_from, find_char_from, lemma_find_char_bounds, spec_find_blank, spec_find_char,
    spec_take, spec_trim, take_chars, trim_chars,
};

verus! {

/// The literal marker with which a legacy quoted-reply fallback begins:
/// a quoted user mention, `"> <@"`.
pub open spec fn has_reply_marker(b: Seq<char>) -> bool {
    b.len() >= 4 && b[0] == '>' && b[1] == ' ' && b[2] == '<' && b[3] == '@'
}

/// Maximum length of a reply preview, in Unicode scalar values.
pub const REPLY_PREVIEW_MAX: usize = 80;

/// The quoted sender and trimmed, truncated preview extracted from a
/// fallback-wrapped body whose quote block ends at the blank line `p` and
/// whose first line ends at the newline `k`.
pub open spec fn spec_reply_parts(b: Seq<char>, k: int) -> (Seq<char>, Seq<char>)
    recommends
        4 <= k <= b.len(),
{
    let after_prefix = b.subrange(2, k);
    match spec_find_char(after_prefix, 0, '>') {
        Some(j) => (
            after_prefix.subrange(1, j),
            spec_take(spec_trim(after_prefix.subrange(j + 1, after_prefix.len() as int)), 80),
        ),
        None => ("@unknown"@, Seq::<char>::empty()),
    }
}

/// What reply-fallback parsing yields on a body: the optional
/// (sender, preview) pair and the remaining body. A body that does not
/// begin with the quote marker, or that has no blank line ending the quote
/// block, passes through unchanged with no reply attached.
pub open spec fn spec_strip_reply(b: Seq<char>) -> (Option<(Seq<char>, Seq<char>)>, Seq<char>) {
    if !has_reply_marker(b) {
        (None, b)
    } else {
        match spec_find_blank(b, 0) {
            None => (None, b),
            Some(p) => {
                let k = spec_find_char(b, 0, '\n').unwrap();
                let (sender, preview) = spec_reply_parts(b, k);
                (Some((sender, preview)), b.subrange(p + 2, b.len() as int))
            },
        }
    }
}

proof fn lemma_find_blank_gives_newline(b: Seq<char>, from: int)
    requires
        0 <= from <= b.len(),
    ensures
        spec_find_blank(b, from) matches Some(p)
            ==> from <= p && p + 1 < b.len() && b[p] == '\n' && b[p + 1] == '\n',
    decreases b.len() - from,
{
    if from + 1 < b.len() && !(b[from] == '\n' && b[from + 1] == '\n') {
        lemma_find_blank_gives_newline(b, from + 1);
    }
}

/// Extract a quoted-reply preview embedded in a legacy plain-text body.
///
/// A body is treated as a fallback-wrapped reply only when it begins with
/// the quote marker `"> <@"` and contains a blank line ending the quote
/// block; otherwise the body passes through unchanged and no reply
/// metadata is attached. The sender is the text between `<` and `>` on the
/// quote block's first line (a sentinel unknown-sender value when absent);
/// the preview is the quoted text after the closing bracket, trimmed and
/// truncated to at most eighty Unicode scalar values.
pub fn strip_reply_fallback(body: &str) -> (r: (Option<(String, String)>, String))
    ensures
        r.0.deep_view() == spec_strip_reply(body@).0,
        r.1@ == spec_strip_reply(body@).1,
        !has_reply_marker(body@) ==> r.0 is None && r.1@ == body@,
        r.0 matches Some(pair) ==> pair.1@.len() <= 80,
{
    let n = body.unicode_len();
    let has_marker = n >= 4 && body.get_char(0) == '>' && body.get_char(1) == ' '
        && body.get_char(2) == '<' && body.get_char(3) == '@';
    if !has_marker {
        return (None, body.to_owned());
    }
    let p = match find_blank_from(body, 0) {
        Some(p) => p,
        None => {
            return (None, body.to_owned());
        },
    };
    proof {
        lemma_find_blank_gives_newline(body@, 0);
    }
    let rest = body.substring_char(p + 2, n).to_owned();

    // The first newline of the body ends the quote block's first line; one
    // exists because the blank line itself begins with a newline. The
    // marker occupies the first four positions, so it lies at or beyond
    // position four.
    let k = match find_char_from(body, 0, '\n') {
        Some(k) => k,
        None => {
            proof {
                lemma_find_char_bounds(body@, 0, '\n');
            }
            unreached()
        },
    };
    proof {
        lemma_find_char_bounds(body@, 0, '\n');
        assert(4 <= k);
    }
    let after_prefix = body.substring_char(2, k);
    let (sender, preview) = match find_char_from(after_prefix, 0, '>') {
        Some(j) => {
            proof {
                lemma_find_char_bounds(after_prefix@, 0, '>');
                assert(after_prefix@[0] == '<');
            }
            let sender = after_prefix.substring_char(1, j).to_owned();
            let quoted = after_prefix.substring_char(j + 1, after_prefix.unicode_len());
            let trimmed = trim_chars(quoted);
            let preview = take_chars(trimmed.as_str(), REPLY_PREVIEW_MAX);
            (sender, preview)
        },
        None => {
            let sender: String = "@unknown".to_owned();
            (sender, String::new())
        },
    };
    (Some((sender, preview)), rest)
}

} // verus!
