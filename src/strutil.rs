use vstd::prelude::*;

verus! {

/// Whether `c` has Unicode's White_Space property.
pub open spec fn is_white(c: char) -> bool {
    let u = c as u32;
    (0x9 <= u && u <= 0xd) || u == 0x20 || u == 0x85 || u == 0xa0 || u == 0x1680 || (0x2000 <= u
        && u <= 0x200a) || u == 0x2028 || u == 0x2029 || u == 0x202f || u == 0x205f || u == 0x3000
}

/// Whether a text holds nothing but whitespace.
pub open spec fn is_blank(s: Seq<char>) -> bool {
    forall|i: int| 0 <= i < s.len() ==> is_white(#[trigger] s[i])
}

/// Whether `ss` occurs in `ms` starting at position `i`.
pub open spec fn occurs_at(ms: Seq<char>, ss: Seq<char>, i: int) -> bool {
    0 <= i && i + ss.len() <= ms.len() && ms.subrange(i, i + ss.len()) == ss
}

/// Whether `i` is the first position at which `ss` occurs in `ms`.
pub open spec fn first_occurrence(ms: Seq<char>, ss: Seq<char>, i: int) -> bool {
    occurs_at(ms, ss, i) && forall|j: int| 0 <= j < i ==> !occurs_at(ms, ss, j)
}

/// Whether the first occurrence of `ss` in `ms` is neither at the first
/// nor at the last position of `ms`.
pub open spec fn falls_within(ms: Seq<char>, ss: Seq<char>) -> bool {
    exists|i: int| first_occurrence(ms, ss, i) && i != 0 && i != ms.len() - 1
}

/// `s` without its leading whitespace.
pub open spec fn trim_start(s: Seq<char>) -> Seq<char>
    decreases s.len(),
{
    if s.len() > 0 && is_white(s[0]) {
        trim_start(s.drop_first())
    } else {
        s
    }
}

/// `s` without its trailing whitespace.
pub open spec fn trim_end(s: Seq<char>) -> Seq<char>
    decreases s.len(),
{
    if s.len() > 0 && is_white(s.last()) {
        trim_end(s.drop_last())
    } else {
        s
    }
}

/// `s` without leading and trailing whitespace.
pub open spec fn trimmed(s: Seq<char>) -> Seq<char> {
    trim_end(trim_start(s))
}

/// The length of the longest prefix of `s` free of whitespace.
pub open spec fn word_len(s: Seq<char>) -> nat
    decreases s.len(),
{
    if s.len() == 0 || is_white(s[0]) {
        0
    } else {
        1 + word_len(s.drop_first())
    }
}

/// The maximal runs of non-whitespace characters of `s`, in order.
pub open spec fn words(s: Seq<char>) -> Seq<Seq<char>>
    decreases s.len(),
    via words_decreases
{
    if s.len() == 0 {
        seq![]
    } else if is_white(s[0]) {
        words(s.drop_first())
    } else {
        let n = word_len(s);
        seq![s.take(n as int)] + words(s.skip(n as int))
    }
}

#[via_fn]
proof fn words_decreases(s: Seq<char>) {
    if s.len() > 0 && !is_white(s[0]) {
        lemma_word_len_bounds(s);
    }
}

/// A word is never longer than the text, and is not empty where the text
/// starts with a character that is not whitespace.
pub proof fn lemma_word_len_bounds(s: Seq<char>)
    ensures
        word_len(s) <= s.len(),
        s.len() > 0 && !is_white(s[0]) ==> word_len(s) > 0,
    decreases s.len(),
{
    if s.len() > 0 && !is_white(s[0]) {
        lemma_word_len_bounds(s.drop_first());
    }
}

proof fn lemma_word_len_exact(s: Seq<char>, n: int)
    requires
        0 <= n <= s.len(),
        forall|k: int| 0 <= k < n ==> !is_white(#[trigger] s[k]),
        n == s.len() || is_white(s[n]),
    ensures
        word_len(s) == n,
    decreases n,
{
    if n > 0 {
        let t = s.drop_first();
        assert forall|k: int| 0 <= k < n - 1 implies !is_white(#[trigger] t[k]) by {
            assert(t[k] == s[k + 1]);
        }
        if n - 1 < t.len() {
            assert(t[n - 1] == s[n]);
        }
        lemma_word_len_exact(t, n - 1);
    }
}

/// The position of the first occurrence of `ss` in `ms`, if there is one.
pub fn find_str(ms: &str, ss: &str) -> (r: Option<usize>)
    ensures
        r matches Some(i) ==> first_occurrence(ms@, ss@, i as int),
        r is None ==> forall|j: int| !occurs_at(ms@, ss@, j),
{
    let lm = ms.unicode_len();
    let ls = ss.unicode_len();
    if ls > lm {
        return None;
    }
    let mut i: usize = 0;
    while i <= lm - ls
        invariant
            lm == ms@.len(),
            ls == ss@.len(),
            ls <= lm,
            i <= lm - ls + 1,
            forall|j: int| 0 <= j < i ==> !occurs_at(ms@, ss@, j),
        decreases lm - ls + 1 - i,
    {
        let mut k: usize = 0;
        let mut same = true;
        while k < ls && same
            invariant
                lm == ms@.len(),
                ls == ss@.len(),
                i + ls <= lm,
                k <= ls,
                same ==> forall|m: int| 0 <= m < k ==> ms@[i + m] == ss@[m],
                !same ==> !occurs_at(ms@, ss@, i as int),
            decreases ls - k + (if same { 1int } else { 0int }),
        {
            if ms.get_char(i + k) != ss.get_char(k) {
                same = false;
                assert(ms@.subrange(i as int, i + ls)[k as int] == ms@[i + k]);
            } else {
                k = k + 1;
            }
        }
        if same {
            assert(ms@.subrange(i as int, i + ls) =~= ss@);
            return Some(i);
        }
        if i == lm - ls {
            return None;
        }
        i = i + 1;
    }
    None
}

/// Removes leading and trailing whitespace.
pub fn trim(s: &str) -> (r: &str)
    ensures
        r@ == trimmed(s@),
{
    let len = s.unicode_len();
    let mut a: usize = 0;
    assert(s@.subrange(0, len as int) =~= s@);
    while a < len && is_whitespace(s.get_char(a))
        invariant
            len == s@.len(),
            a <= len,
            trim_start(s@) == trim_start(s@.subrange(a as int, len as int)),
        decreases len - a,
    {
        assert(s@.subrange(a as int, len as int).drop_first() =~= s@.subrange(a + 1, len as int));
        a = a + 1;
    }
    assert(trim_start(s@) == s@.subrange(a as int, len as int));
    let mut b: usize = len;
    while b > a && is_whitespace(s.get_char(b - 1))
        invariant
            len == s@.len(),
            a <= b <= len,
            trim_start(s@) == s@.subrange(a as int, len as int),
            trimmed(s@) == trim_end(s@.subrange(a as int, b as int)),
        decreases b - a,
    {
        assert(s@.subrange(a as int, b as int).drop_last() =~= s@.subrange(a as int, b - 1));
        b = b - 1;
    }
    s.substring_char(a, b)
}

/// Whether `c` is whitespace.
pub fn is_whitespace(c: char) -> (r: bool)
    ensures
        r == is_white(c),
{
    let u = c as u32;
    (0x9 <= u && u <= 0xd) || u == 0x20 || u == 0x85 || u == 0xa0 || u == 0x1680 || (0x2000 <= u
        && u <= 0x200a) || u == 0x2028 || u == 0x2029 || u == 0x202f || u == 0x205f || u == 0x3000
}

/// Splits `s` into its whitespace-separated words.
pub fn split_words(s: &str) -> (r: Vec<&str>)
    ensures
        r@.len() == words(s@).len(),
        forall|i: int| 0 <= i < r@.len() ==> (#[trigger] r@[i])@ == words(s@)[i],
{
    let len = s.unicode_len();
    let mut out: Vec<&str> = Vec::new();
    let ghost mut got: Seq<Seq<char>> = seq![];
    let mut i: usize = 0;
    assert(s@.skip(0) =~= s@);
    while i < len
        invariant
            len == s@.len(),
            i <= len,
            got.len() == out@.len(),
            forall|k: int| 0 <= k < out@.len() ==> (#[trigger] out@[k])@ == got[k],
            got + words(s@.skip(i as int)) == words(s@),
        decreases len - i,
    {
        let ghost rest = s@.skip(i as int);
        if is_whitespace(s.get_char(i)) {
            assert(rest.drop_first() =~= s@.skip(i + 1));
            i = i + 1;
        } else {
            let mut j: usize = i + 1;
            while j < len && !is_whitespace(s.get_char(j))
                invariant
                    len == s@.len(),
                    i < j <= len,
                    forall|k: int| i <= k < j ==> !is_white(#[trigger] s@[k]),
                decreases len - j,
            {
                j = j + 1;
            }
            proof {
                assert forall|k: int| 0 <= k < j - i implies !is_white(#[trigger] rest[k]) by {
                    assert(rest[k] == s@[i + k]);
                }
                if j < len {
                    assert(rest[j - i] == s@[j as int]);
                }
                lemma_word_len_exact(rest, j - i);
                assert(rest.take(j - i) =~= s@.subrange(i as int, j as int));
                assert(rest.skip(j - i) =~= s@.skip(j as int));
                assert(words(rest) == seq![s@.subrange(i as int, j as int)] + words(
                    s@.skip(j as int),
                ));
                got = got.push(s@.subrange(i as int, j as int));
                assert(got + words(s@.skip(j as int)) =~= got.drop_last() + words(rest));
            }
            out.push(s.substring_char(i, j));
            i = j;
        }
    }
    proof {
        assert(s@.skip(len as int) =~= Seq::<char>::empty());
        assert(got + words(s@.skip(i as int)) =~= got);
    }
    out
}

/// Text utilities that the lexer builds on.
pub struct Strutil {}

impl Strutil {
    /// Whether `ss` first occurs in `ms` strictly inside it: neither at its
    /// first nor at its last position (positions count characters).
    pub fn fall_within(ms: &str, ss: &str) -> (r: bool)
        ensures
            r == falls_within(ms@, ss@),
    {
        match find_str(ms, ss) {
            Some(i) => {
                let last = ms.unicode_len();
                if i == 0 || i == last - 1 {
                    proof {
                        assert forall|k: int|
                            first_occurrence(ms@, ss@, k) implies k == i as int by {
                            if k < i {
                            } else if k > i {
                                assert(!occurs_at(ms@, ss@, i as int));
                            }
                        }
                    }
                    false
                } else {
                    true
                }
            },
            None => false,
        }
    }

    /// Whether the line holds nothing but whitespace.
    pub fn empty_line(s: &str) -> (r: bool)
        ensures
            r == is_blank(s@),
    {
        let len = s.unicode_len();
        let mut i: usize = 0;
        while i < len
            invariant
                len == s@.len(),
                i <= len,
                forall|k: int| 0 <= k < i ==> is_white(#[trigger] s@[k]),
            decreases len - i,
        {
            if !is_whitespace(s.get_char(i)) {
                return false;
            }
            i = i + 1;
        }
        true
    }
}

} // verus!
