use vstd::prelude::*;
use vstd::string::StrSliceExecFns;

verus! {

/// Whether a character has the Unicode white-space property, as decided by
/// the standard library.
pub uninterp spec fn whitespace_char(c: char) -> bool;

/// Relies on char::is_whitespace: whether a character has the Unicode
/// White_Space property, a function of the character alone.
#[verifier::external_body]
pub(crate) fn char_is_whitespace(c: char) -> (r: bool)
    ensures
        r == whitespace_char(c),
{
    c.is_whitespace()
}

/// Position of the first occurrence of `c` at or after `from`.
pub open spec fn spec_find_char(s: Seq<char>, from: int, c: char) -> Option<int>
    decreases s.len() - from,
    when 0 <= from <= s.len()
{
    if from >= s.len() {
        None
    } else if s[from] == c {
        Some(from)
    } else {
        spec_find_char(s, from + 1, c)
    }
}

/// Position of the first blank line (two consecutive newlines) at or after
/// `from`.
pub open spec fn spec_find_blank(s: Seq<char>, from: int) -> Option<int>
    decreases s.len() - from,
    when 0 <= from <= s.len()
{
    if from + 1 >= s.len() {
        None
    } else if s[from] == '\n' && s[from + 1] == '\n' {
        Some(from)
    } else {
        spec_find_blank(s, from + 1)
    }
}

pub(crate) fn find_char_from(s: &str, from: usize, c: char) -> (r: Option<usize>)
    requires
        from <= s@.len(),
    ensures
        match r {
            Some(i) => from <= i && Some(i as int) == spec_find_char(s@, from as int, c),
            None => spec_find_char(s@, from as int, c) is None,
        },
{
    let n = s.unicode_len();
    let mut i = from;
    while i < n
        invariant
            from <= i <= n,
            n == s@.len(),
            spec_find_char(s@, from as int, c) == spec_find_char(s@, i as int, c),
        decreases n - i,
    {
        if s.get_char(i) == c {
            return Some(i);
        }
        i = i + 1;
    }
    None
}

pub(crate) fn find_blank_from(s: &str, from: usize) -> (r: Option<usize>)
    requires
        from <= s@.len(),
    ensures
        match r {
            Some(i) => from <= i && Some(i as int) == spec_find_blank(s@, from as int),
            None => spec_find_blank(s@, from as int) is None,
        },
{
    let n = s.unicode_len();
    let mut i = from;
    while i < n && i + 1 < n
        invariant
            from <= i,
            i <= n,
            n == s@.len(),
            spec_find_blank(s@, from as int) == spec_find_blank(s@, i as int),
        decreases n - i,
    {
        if s.get_char(i) == '\n' && s.get_char(i + 1) == '\n' {
            return Some(i);
        }
        i = i + 1;
    }
    None
}

/// What a successful or failed search says of the characters around it.
pub proof fn lemma_find_char_bounds(b: Seq<char>, from: int, c: char)
    requires
        0 <= from <= b.len(),
    ensures
        spec_find_char(b, from, c) matches Some(k) ==> from <= k < b.len() && b[k] == c
            && forall|i: int| from <= i < k ==> b[i] != c,
        spec_find_char(b, from, c) is None ==> forall|i: int| from <= i < b.len() ==> b[i] != c,
    decreases b.len() - from,
{
    if from < b.len() && b[from] != c {
        lemma_find_char_bounds(b, from + 1, c);
    }
}

/// Finding `c` in a suffix of `s` is finding it in `s` from the cut point,
/// shifted by the cut.
pub proof fn lemma_find_char_skip(s: Seq<char>, k: int, from: int, c: char)
    requires
        0 <= k <= s.len(),
        k <= from <= s.len(),
    ensures
        spec_find_char(s.subrange(k, s.len() as int), from - k, c) == match spec_find_char(
            s,
            from,
            c,
        ) {
            Some(i) => Some(i - k),
            None => None::<int>,
        },
    decreases s.len() - from,
{
    let t = s.subrange(k, s.len() as int);
    if from >= s.len() {
    } else if s[from] == c {
        assert(t[from - k] == s[from]);
    } else {
        assert(t[from - k] == s[from]);
        lemma_find_char_skip(s, k, from + 1, c);
    }
}

/// Character-by-character string equality.
pub(crate) fn str_eq(a: &str, b: &str) -> (r: bool)
    ensures
        r == (a@ == b@),
{
    let na = a.unicode_len();
    let nb = b.unicode_len();
    if na != nb {
        return false;
    }
    let mut i: usize = 0;
    while i < na
        invariant
            i <= na,
            na == a@.len(),
            na == b@.len(),
            forall|j: int| 0 <= j < i ==> a@[j] == b@[j],
        decreases na - i,
    {
        if a.get_char(i) != b.get_char(i) {
            return false;
        }
        i = i + 1;
    }
    proof {
        assert(a@ =~= b@);
    }
    true
}

/// What the standard library's locale-independent lowercase mapping
/// yields for a character sequence.
pub uninterp spec fn lower_of(s: Seq<char>) -> Seq<char>;

/// Relies on str::to_lowercase: the result depends on the characters
/// alone, and an empty string stays empty.
#[verifier::external_body]
pub(crate) fn lowercase_str(s: &str) -> (r: String)
    ensures
        r@ == lower_of(s@),
        s@.len() == 0 ==> r@.len() == 0,
{
    s.to_lowercase()
}

/// `needle` occurs in `hay` starting at position `k`.
pub open spec fn spec_occurs_at(hay: Seq<char>, needle: Seq<char>, k: int) -> bool {
    0 <= k && k + needle.len() <= hay.len() && hay.subrange(k, k + needle.len()) == needle
}

/// `needle` occurs somewhere in `hay`.
pub open spec fn spec_contains_seq(hay: Seq<char>, needle: Seq<char>) -> bool {
    exists|k: int| spec_occurs_at(hay, needle, k)
}

/// Substring search, character by character.
pub(crate) fn str_contains(hay: &str, needle: &str) -> (r: bool)
    ensures
        r == spec_contains_seq(hay@, needle@),
{
    let nh = hay.unicode_len();
    let nn = needle.unicode_len();
    if nn > nh {
        proof {
            assert forall|k: int| !spec_occurs_at(hay@, needle@, k) by {}
        }
        return false;
    }
    if nn == 0 {
        proof {
            assert(hay@.subrange(0, 0) =~= needle@);
            assert(spec_occurs_at(hay@, needle@, 0));
        }
        return true;
    }
    let mut k: usize = 0;
    while k <= nh - nn
        invariant
            1 <= nn <= nh,
            k <= nh - nn + 1,
            nh == hay@.len(),
            nn == needle@.len(),
            forall|k2: int| 0 <= k2 < k ==> !spec_occurs_at(hay@, needle@, k2),
        decreases nh - nn - k + 1,
    {
        let mut j: usize = 0;
        let mut matched = true;
        while matched && j < nn
            invariant
                j <= nn,
                k + nn <= nh,
                nh == hay@.len(),
                nn == needle@.len(),
                matched ==> forall|j2: int| 0 <= j2 < j ==> hay@[k + j2] == needle@[j2],
                !matched ==> !spec_occurs_at(hay@, needle@, k as int),
            decreases nn - j + (if matched {
                1int
            } else {
                0int
            }),
        {
            if hay.get_char(k + j) != needle.get_char(j) {
                matched = false;
                proof {
                    assert(hay@[k + j] != needle@[j as int]);
                    assert(!spec_occurs_at(hay@, needle@, k as int)) by {
                        if spec_occurs_at(hay@, needle@, k as int) {
                            assert(hay@.subrange(k as int, k + nn)[j as int] == needle@[j as int]);
                        }
                    }
                }
            } else {
                j = j + 1;
            }
        }
        if matched {
            proof {
                assert(hay@.subrange(k as int, k + nn) =~= needle@);
                assert(spec_occurs_at(hay@, needle@, k as int));
            }
            return true;
        }
        proof {
            assert(!spec_occurs_at(hay@, needle@, k as int));
        }
        k = k + 1;
    }
    proof {
        assert forall|k2: int| !spec_occurs_at(hay@, needle@, k2) by {
            if k2 >= k {
                assert(k2 + needle@.len() > hay@.len());
            }
        }
    }
    false
}

/// `s` with leading white space removed.
pub open spec fn spec_trim_start(s: Seq<char>) -> Seq<char>
    decreases s.len(),
{
    if s.len() > 0 && whitespace_char(s[0]) {
        spec_trim_start(s.drop_first())
    } else {
        s
    }
}

/// `s` with trailing white space removed.
pub open spec fn spec_trim_end(s: Seq<char>) -> Seq<char>
    decreases s.len(),
{
    if s.len() > 0 && whitespace_char(s.last()) {
        spec_trim_end(s.drop_last())
    } else {
        s
    }
}

/// `s` with leading and trailing white space removed.
pub open spec fn spec_trim(s: Seq<char>) -> Seq<char> {
    spec_trim_end(spec_trim_start(s))
}

proof fn lemma_trim_start_prefix(s: Seq<char>, a: int)
    requires
        0 <= a <= s.len(),
        forall|j: int| 0 <= j < a ==> whitespace_char(s[j]),
        a < s.len() ==> !whitespace_char(s[a]),
    ensures
        spec_trim_start(s) == s.subrange(a, s.len() as int),
    decreases a,
{
    if a == 0 {
        if s.len() > 0 {
            assert(!whitespace_char(s[0]));
        }
        assert(spec_trim_start(s) == s);
        assert(s.subrange(0, s.len() as int) =~= s);
    } else {
        assert(whitespace_char(s[0]));
        let t = s.drop_first();
        assert forall|j: int| 0 <= j < a - 1 implies whitespace_char(t[j]) by {
            assert(t[j] == s[j + 1]);
        }
        lemma_trim_start_prefix(t, a - 1);
        assert(t.subrange(a - 1, t.len() as int) =~= s.subrange(a, s.len() as int));
    }
}

proof fn lemma_trim_end_suffix(s: Seq<char>, b: int)
    requires
        0 <= b <= s.len(),
        forall|j: int| b <= j < s.len() ==> whitespace_char(s[j]),
        b > 0 ==> !whitespace_char(s[b - 1]),
    ensures
        spec_trim_end(s) == s.subrange(0, b),
    decreases s.len(),
{
    if b == s.len() {
        if s.len() > 0 {
            assert(!whitespace_char(s.last()));
        }
        assert(s.subrange(0, s.len() as int) =~= s);
    } else {
        assert(whitespace_char(s.last()));
        let t = s.drop_last();
        lemma_trim_end_suffix(t, b);
        assert(t.subrange(0, b) =~= s.subrange(0, b));
    }
}

/// Remove leading and trailing white space, as `str::trim` does.
pub(crate) fn trim_chars(s: &str) -> (r: String)
    ensures
        r@ == spec_trim(s@),
{
    let n = s.unicode_len();
    let mut a: usize = 0;
    while a < n && char_is_whitespace(s.get_char(a))
        invariant
            a <= n,
            n == s@.len(),
            forall|j: int| 0 <= j < a ==> whitespace_char(s@[j]),
        decreases n - a,
    {
        a = a + 1;
    }
    proof {
        lemma_trim_start_prefix(s@, a as int);
    }
    let mut b: usize = n;
    while b > a && char_is_whitespace(s.get_char(b - 1))
        invariant
            a <= b <= n,
            n == s@.len(),
            forall|j: int| b <= j < n ==> whitespace_char(s@[j]),
        decreases b,
    {
        b = b - 1;
    }
    proof {
        let t = s@.subrange(a as int, n as int);
        assert forall|j: int| b - a <= j < t.len() implies whitespace_char(t[j]) by {
            assert(t[j] == s@[j + a]);
        }
        if b > a {
            assert(t[b - a - 1] == s@[b as int - 1]);
        }
        lemma_trim_end_suffix(t, b - a as int);
        assert(t.subrange(0, b - a as int) =~= s@.subrange(a as int, b as int));
    }
    let out = s.substring_char(a, b);
    out.to_owned()
}

/// The first `n` characters of `s` (all of it when shorter).
pub open spec fn spec_take(s: Seq<char>, n: int) -> Seq<char> {
    if s.len() <= n {
        s
    } else {
        s.take(n)
    }
}

/// Truncate to at most `n` characters, counted in Unicode scalar values.
pub(crate) fn take_chars(s: &str, n: usize) -> (r: String)
    ensures
        r@ == spec_take(s@, n as int),
        r@.len() <= n,
{
    let len = s.unicode_len();
    if len <= n {
        proof {
            assert(s@.subrange(0, len as int) =~= s@);
        }
        let out = s.substring_char(0, len);
        out.to_owned()
    } else {
        proof {
            assert(s@.subrange(0, n as int) =~= s@.take(n as int));
        }
        let out = s.substring_char(0, n);
        out.to_owned()
    }
}

} // verus!
