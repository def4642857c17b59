//! Splitting on three-character delimiter runs and whitespace trimming.
//!
//! The wire format separates note blocks with `~~~` and fields with `|||`:
//! both delimiters are one character repeated three times, so the splitting
//! functions take the repeated character as a parameter. There is no escaping
//! mechanism in the wire format: content that itself contains a delimiter
//! character can corrupt framing, a documented limitation of the format.

use vstd::prelude::*;
use vstd::string::{StrSliceExecFns, StringExecFns};

verus! {

/// Whitespace, as trimming understands it: the Unicode `White_Space`
/// characters (the set `char::is_whitespace` recognizes), removed from both
/// ends of every field and deciding which blocks are blank.
pub open spec fn is_space(c: char) -> bool {
    c == '\u{0009}' || c == '\u{000A}' || c == '\u{000B}' || c == '\u{000C}' || c == '\u{000D}'
        || c == '\u{0020}' || c == '\u{0085}' || c == '\u{00A0}' || c == '\u{1680}' || c
        == '\u{2000}' || c == '\u{2001}' || c == '\u{2002}' || c == '\u{2003}' || c == '\u{2004}'
        || c == '\u{2005}' || c == '\u{2006}' || c == '\u{2007}' || c == '\u{2008}' || c
        == '\u{2009}' || c == '\u{200A}' || c == '\u{2028}' || c == '\u{2029}' || c == '\u{202F}'
        || c == '\u{205F}' || c == '\u{3000}'
}

fn is_space_char(c: char) -> (b: bool)
    ensures
        b == is_space(c),
{
    c == '\u{0009}' || c == '\u{000A}' || c == '\u{000B}' || c == '\u{000C}' || c == '\u{000D}'
        || c == '\u{0020}' || c == '\u{0085}' || c == '\u{00A0}' || c == '\u{1680}' || c
        == '\u{2000}' || c == '\u{2001}' || c == '\u{2002}' || c == '\u{2003}' || c == '\u{2004}'
        || c == '\u{2005}' || c == '\u{2006}' || c == '\u{2007}' || c == '\u{2008}' || c
        == '\u{2009}' || c == '\u{200A}' || c == '\u{2028}' || c == '\u{2029}' || c == '\u{202F}'
        || c == '\u{205F}' || c == '\u{3000}'
}

/// A delimiter (three copies of `c`) occurs in `s` at position `i`.
pub open spec fn delim_at(s: Seq<char>, c: char, i: int) -> bool {
    &&& 0 <= i
    &&& i + 3 <= s.len()
    &&& s[i] == c
    &&& s[i + 1] == c
    &&& s[i + 2] == c
}

/// The position of the leftmost delimiter occurrence in `s`, if any.
pub open spec fn first_delim(s: Seq<char>, c: char) -> Option<int>
    decreases s.len(),
{
    if s.len() < 3 {
        None
    } else if s[0] == c && s[1] == c && s[2] == c {
        Some(0int)
    } else {
        match first_delim(s.subrange(1, s.len() as int), c) {
            None => None,
            Some(j) => Some(j + 1),
        }
    }
}

/// `first_delim` returns the leftmost delimiter occurrence, and `None`
/// exactly when there is none.
pub proof fn lemma_first_delim(s: Seq<char>, c: char)
    ensures
        match first_delim(s, c) {
            Some(i) => delim_at(s, c, i) && (forall|k: int| 0 <= k < i ==> !delim_at(s, c, k)),
            None => forall|k: int| !delim_at(s, c, k),
        },
    decreases s.len(),
{
    if s.len() < 3 {
    } else if s[0] == c && s[1] == c && s[2] == c {
    } else {
        let t = s.subrange(1, s.len() as int);
        lemma_first_delim(t, c);
        assert forall|k: int| 1 <= k implies (delim_at(s, c, k) <==> delim_at(t, c, k - 1)) by {
            assert(delim_at(t, c, k - 1) ==> s[k] == t[k - 1] && s[k + 1] == t[k] && s[k + 2]
                == t[k + 1]);
            assert(delim_at(s, c, k) ==> t[k - 1] == s[k] && t[k] == s[k + 1] && t[k + 1] == s[k
                + 2]);
        }
        match first_delim(t, c) {
            None => {
                assert forall|k: int| !delim_at(s, c, k) by {
                    if 1 <= k {
                        assert(!delim_at(t, c, k - 1));
                    }
                }
            },
            Some(j) => {
                assert(delim_at(t, c, j));
                assert(delim_at(s, c, j + 1));
                assert forall|k: int| 0 <= k < j + 1 implies !delim_at(s, c, k) by {
                    if 1 <= k {
                        assert(!delim_at(t, c, k - 1));
                    }
                }
            },
        }
    }
}

/// If a delimiter occurs at `j` and nowhere earlier, `first_delim` finds `j`.
pub proof fn lemma_first_delim_is(s: Seq<char>, c: char, j: int)
    requires
        delim_at(s, c, j),
        forall|k: int| 0 <= k < j ==> !delim_at(s, c, k),
    ensures
        first_delim(s, c) == Some(j),
{
    lemma_first_delim(s, c);
    match first_delim(s, c) {
        None => {
            assert(!delim_at(s, c, j));
        },
        Some(i) => {
            if i < j {
                assert(!delim_at(s, c, i));
            }
            if j < i {
                assert(!delim_at(s, c, j));
            }
        },
    }
}

/// If no delimiter occurs anywhere in `s`, `first_delim` is `None`.
pub proof fn lemma_first_delim_none(s: Seq<char>, c: char)
    requires
        forall|k: int| !delim_at(s, c, k),
    ensures
        first_delim(s, c) == None::<int>,
{
    lemma_first_delim(s, c);
    if let Some(i) = first_delim(s, c) {
        assert(!delim_at(s, c, i));
    }
}

/// `s` split on every (leftmost, non-overlapping) occurrence of the
/// three-character delimiter `ccc`. Always yields at least one piece; the
/// delimiter occurrences themselves are not part of any piece.
pub open spec fn split_on(s: Seq<char>, c: char) -> Seq<Seq<char>>
    decreases s.len(),
    via split_on_decreases
{
    match first_delim(s, c) {
        None => seq![s],
        Some(i) => seq![s.subrange(0, i)] + split_on(s.subrange(i + 3, s.len() as int), c),
    }
}

#[via_fn]
proof fn split_on_decreases(s: Seq<char>, c: char) {
    lemma_first_delim(s, c);
}

pub proof fn lemma_split_on_len(s: Seq<char>, c: char)
    ensures
        split_on(s, c).len() >= 1,
    decreases s.len(),
{
    lemma_first_delim(s, c);
    if let Some(i) = first_delim(s, c) {
        lemma_split_on_len(s.subrange(i + 3, s.len() as int), c);
    }
}

/// Finds the leftmost three-`c` delimiter in `s`, by character position.
fn find_delim(s: &str, c: char) -> (r: Option<usize>)
    ensures
        match r {
            Some(j) => first_delim(s@, c) == Some(j as int),
            None => first_delim(s@, c) == None::<int>,
        },
{
    let len = s.unicode_len();
    if len < 3 {
        proof {
            lemma_first_delim_none(s@, c);
        }
        return None;
    }
    let mut j: usize = 0;
    while j <= len - 3
        invariant
            len == s@.len(),
            3 <= len,
            j <= len - 2,
            forall|k: int| 0 <= k < j ==> !delim_at(s@, c, k),
        decreases len - j,
    {
        if s.get_char(j) == c && s.get_char(j + 1) == c && s.get_char(j + 2) == c {
            proof {
                lemma_first_delim_is(s@, c, j as int);
            }
            return Some(j);
        }
        j += 1;
    }
    proof {
        assert forall|k: int| !delim_at(s@, c, k) by {
            if 0 <= k && k + 3 <= s@.len() {
                assert(k < j);
            }
        }
        lemma_first_delim_none(s@, c);
    }
    None
}

/// Splits `s` on every occurrence of the three-`c` delimiter.
pub fn split_str(s: &str, c: char) -> (r: Vec<String>)
    ensures
        r@.len() == split_on(s@, c).len(),
        forall|i: int| 0 <= i < r@.len() ==> r@[i]@ == split_on(s@, c)[i],
{
    let mut out: Vec<String> = Vec::new();
    let mut rest: String = s.to_owned();
    loop
        invariant
            out@.len() + split_on(rest@, c).len() == split_on(s@, c).len(),
            forall|i: int| 0 <= i < out@.len() ==> out@[i]@ == split_on(s@, c)[i],
            forall|i: int|
                0 <= i < split_on(rest@, c).len() ==> split_on(rest@, c)[i] == split_on(
                    s@,
                    c,
                )[out@.len() + i],
        decreases rest@.len(),
    {
        proof {
            lemma_split_on_len(rest@, c);
        }
        match find_delim(rest.as_str(), c) {
            None => {
                assert(split_on(rest@, c) == seq![rest@]);
                assert(split_on(rest@, c)[0] == split_on(s@, c)[out@.len() as int]);
                out.push(rest);
                return out;
            },
            Some(i) => {
                proof {
                    lemma_first_delim(rest@, c);
                }
                let ghost before = rest@;
                let ghost after = before.subrange(i + 3, before.len() as int);
                let len = rest.as_str().unicode_len();
                let head = String::from_str(rest.as_str().substring_char(0, i));
                let tail = String::from_str(rest.as_str().substring_char(i + 3, len));
                proof {
                    assert(split_on(before, c) == seq![before.subrange(0, i as int)] + split_on(
                        after,
                        c,
                    ));
                    assert(split_on(before, c)[0] == before.subrange(0, i as int));
                    assert(head@ == split_on(s@, c)[out@.len() as int]);
                    assert forall|m: int| 0 <= m < split_on(after, c).len() implies split_on(
                        after,
                        c,
                    )[m] == split_on(s@, c)[out@.len() + 1 + m] by {
                        assert(split_on(after, c)[m] == split_on(before, c)[m + 1]);
                    }
                }
                out.push(head);
                rest = tail;
            },
        }
    }
}

/// `s` with leading whitespace removed.
pub open spec fn trim_front(s: Seq<char>) -> Seq<char>
    decreases s.len(),
{
    if s.len() > 0 && is_space(s[0]) {
        trim_front(s.subrange(1, s.len() as int))
    } else {
        s
    }
}

/// `s` with trailing whitespace removed.
pub open spec fn trim_back(s: Seq<char>) -> Seq<char>
    decreases s.len(),
{
    if s.len() > 0 && is_space(s[s.len() - 1]) {
        trim_back(s.subrange(0, s.len() - 1))
    } else {
        s
    }
}

/// `s` with whitespace removed from both ends.
pub open spec fn trim_spec(s: Seq<char>) -> Seq<char> {
    trim_back(trim_front(s))
}

proof fn lemma_trim_front_skip(s: Seq<char>, i: int)
    requires
        0 <= i <= s.len(),
        forall|k: int| 0 <= k < i ==> is_space(s[k]),
        i < s.len() ==> !is_space(s[i]),
    ensures
        trim_front(s) == s.subrange(i, s.len() as int),
    decreases i,
{
    if i == 0 {
        if s.len() > 0 && is_space(s[0]) {
            assert(false);
        }
        assert(s.subrange(0, s.len() as int) =~= s);
    } else {
        let t = s.subrange(1, s.len() as int);
        lemma_trim_front_skip(t, i - 1);
        assert(t.subrange(i - 1, t.len() as int) =~= s.subrange(i, s.len() as int));
    }
}

proof fn lemma_trim_back_skip(s: Seq<char>, j: int)
    requires
        0 <= j <= s.len(),
        forall|k: int| j <= k < s.len() ==> is_space(s[k]),
        j > 0 ==> !is_space(s[j - 1]),
    ensures
        trim_back(s) == s.subrange(0, j),
    decreases s.len() - j,
{
    if j == s.len() {
        if s.len() > 0 && is_space(s[s.len() - 1]) {
            assert(false);
        }
        assert(s.subrange(0, s.len() as int) =~= s);
    } else {
        let t = s.subrange(0, s.len() - 1);
        lemma_trim_back_skip(t, j);
        assert(t.subrange(0, j) =~= s.subrange(0, j));
    }
}

/// Trimming yields the empty sequence exactly on all-whitespace input.
pub proof fn lemma_trim_empty_iff(s: Seq<char>)
    ensures
        trim_spec(s).len() == 0 <==> (forall|k: int| 0 <= k < s.len() ==> is_space(s[k])),
{
    if forall|k: int| 0 <= k < s.len() ==> is_space(s[k]) {
        lemma_trim_front_all_space(s);
    }
    if trim_spec(s).len() == 0 {
        lemma_trim_back_empty(trim_front(s));
        lemma_trim_front_spaces(s);
    }
}

proof fn lemma_trim_front_all_space(s: Seq<char>)
    requires
        forall|k: int| 0 <= k < s.len() ==> is_space(s[k]),
    ensures
        trim_front(s).len() == 0,
    decreases s.len(),
{
    if s.len() > 0 {
        lemma_trim_front_all_space(s.subrange(1, s.len() as int));
    }
}

proof fn lemma_trim_back_empty(s: Seq<char>)
    requires
        trim_back(s).len() == 0,
    ensures
        forall|k: int| 0 <= k < s.len() ==> is_space(s[k]),
    decreases s.len(),
{
    if s.len() > 0 && is_space(s[s.len() - 1]) {
        let t = s.subrange(0, s.len() - 1);
        lemma_trim_back_empty(t);
        assert forall|k: int| 0 <= k < s.len() implies is_space(s[k]) by {
            if k < s.len() - 1 {
                assert(is_space(t[k]));
            }
        }
    }
}

/// If the front-trimmed remainder is all whitespace, so was all of `s`.
proof fn lemma_trim_front_spaces(s: Seq<char>)
    requires
        forall|k: int| 0 <= k < trim_front(s).len() ==> is_space(trim_front(s)[k]),
    ensures
        forall|k: int| 0 <= k < s.len() ==> is_space(s[k]),
    decreases s.len(),
{
    if s.len() > 0 && is_space(s[0]) {
        let t = s.subrange(1, s.len() as int);
        assert(trim_front(s) == trim_front(t));
        lemma_trim_front_spaces(t);
        assert forall|k: int| 0 <= k < s.len() implies is_space(s[k]) by {
            if k >= 1 {
                assert(is_space(t[k - 1]));
            }
        }
    } else {
        assert(trim_front(s) == s);
    }
}

/// Removes whitespace from both ends of `s`.
pub fn trim_str(s: &str) -> (r: String)
    ensures
        r@ == trim_spec(s@),
{
    let len = s.unicode_len();
    let mut i: usize = 0;
    while i < len && is_space_char(s.get_char(i))
        invariant
            len == s@.len(),
            0 <= i <= len,
            forall|k: int| 0 <= k < i ==> is_space(s@[k]),
        decreases len - i,
    {
        i += 1;
    }
    let mut j: usize = len;
    while j > i && is_space_char(s.get_char(j - 1))
        invariant
            len == s@.len(),
            i <= j <= len,
            forall|k: int| j <= k < len ==> is_space(s@[k]),
        decreases j,
    {
        j -= 1;
    }
    proof {
        lemma_trim_front_skip(s@, i as int);
        let t = s@.subrange(i as int, s@.len() as int);
        lemma_trim_back_skip(t, j - i);
        assert(t.subrange(0, j - i) =~= s@.subrange(i as int, j as int));
    }
    String::from_str(s.substring_char(i, j))
}

} // verus!
