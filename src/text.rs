//! Character-level helpers on strings, each proved against a small
//! specification over `Seq<char>`.

use vstd::prelude::*;
use vstd::string::StrSliceExecFns;
use vstd::string::StringExecFns;

verus! {

/// The code of `c` after folding an ASCII upper-case letter to lower case.
pub open spec fn fold_ascii(c: char) -> u32 {
    if 65 <= (c as u32) && (c as u32) <= 90 {
        (c as u32 + 32) as u32
    } else {
        c as u32
    }
}

/// `a` and `b` are equal once ASCII letters are compared without case.
pub open spec fn eq_ignore_ascii_case(a: Seq<char>, b: Seq<char>) -> bool {
    &&& a.len() == b.len()
    &&& forall|i: int| 0 <= i < a.len() ==> #[trigger] fold_ascii(a[i]) == fold_ascii(b[i])
}

/// `p` is a prefix of `s`.
pub open spec fn has_prefix(s: Seq<char>, p: Seq<char>) -> bool {
    p.len() <= s.len() && s.subrange(0, p.len() as int) == p
}

/// `p` occurs in `s` starting at index `i`.
pub open spec fn occurs_at(s: Seq<char>, p: Seq<char>, i: int) -> bool {
    0 <= i && i + p.len() <= s.len() && s.subrange(i, i + p.len()) == p
}

/// `p` occurs somewhere in `s`.
pub open spec fn has_infix(s: Seq<char>, p: Seq<char>) -> bool {
    exists|i: int| occurs_at(s, p, i)
}

/// The words of `w` joined by single spaces.
pub open spec fn join_words(w: Seq<Seq<char>>) -> Seq<char>
    decreases w.len(),
{
    if w.len() == 0 {
        Seq::empty()
    } else if w.len() == 1 {
        w[0]
    } else {
        join_words(w.drop_last()) + seq![' '] + w.last()
    }
}

/// Each word occurs in the words joined by spaces.
pub proof fn lemma_join_words_contains(w: Seq<Seq<char>>)
    ensures
        forall|i: int| 0 <= i < w.len() ==> has_infix(join_words(w), #[trigger] w[i]),
    decreases w.len(),
{
    if w.len() == 1 {
        assert(occurs_at(join_words(w), w[0], 0)) by {
            assert(join_words(w).subrange(0, w[0].len() as int) =~= w[0]);
        }
    } else if w.len() > 1 {
        let prev = w.drop_last();
        lemma_join_words_contains(prev);
        let j = join_words(w);
        let jp = join_words(prev);
        assert(j == jp + seq![' '] + w.last());
        assert forall|i: int| 0 <= i < w.len() implies has_infix(j, #[trigger] w[i]) by {
            if i < w.len() - 1 {
                assert(prev[i] == w[i]);
                let p = choose|p: int| occurs_at(jp, prev[i], p);
                assert(j.subrange(p, p + w[i].len()) =~= jp.subrange(p, p + w[i].len()));
                assert(occurs_at(j, w[i], p));
            } else {
                let p: int = jp.len() as int + 1;
                assert(j.subrange(p, p + w[i].len()) =~= w.last());
                assert(occurs_at(j, w[i], p));
            }
        }
    }
}

/// `s` with every underscore turned into a space.
pub open spec fn underscores_to_spaces(s: Seq<char>) -> Seq<char> {
    s.map_values(|c: char| if c == '_' { ' ' } else { c })
}

pub fn fold_ascii_char(c: char) -> (r: u32)
    ensures
        r == fold_ascii(c),
{
    let v = c as u32;
    if 65 <= v && v <= 90 {
        v + 32
    } else {
        v
    }
}

/// Compares two strings, ignoring the case of ASCII letters.
pub fn str_eq_ignore_ascii_case(a: &str, b: &str) -> (r: bool)
    ensures
        r == eq_ignore_ascii_case(a@, b@),
{
    let n = a.unicode_len();
    let m = b.unicode_len();
    if n != m {
        return false;
    }
    let mut i: usize = 0;
    while i < n
        invariant
            n == a@.len(),
            m == b@.len(),
            n == m,
            i <= n,
            forall|j: int| 0 <= j < i ==> #[trigger] fold_ascii(a@[j]) == fold_ascii(b@[j]),
        decreases n - i,
    {
        let x = fold_ascii_char(a.get_char(i));
        let y = fold_ascii_char(b.get_char(i));
        if x != y {
            return false;
        }
        i = i + 1;
    }
    true
}

/// Exact equality of two strings.
pub fn str_equal(a: &str, b: &str) -> (r: bool)
    ensures
        r == (a@ == b@),
{
    let x = a.to_owned();
    let y = b.to_owned();
    x == y
}

/// Whether `s` occurs in `text` starting at character index `i`.
fn matches_at(text: &str, s: &str, i: usize) -> (r: bool)
    requires
        i <= text@.len(),
    ensures
        r == occurs_at(text@, s@, i as int),
{
    let n = text.unicode_len();
    let m = s.unicode_len();
    if m > n - i {
        return false;
    }
    let mut k: usize = 0;
    while k < m
        invariant
            n == text@.len(),
            m == s@.len(),
            i + m <= n,
            k <= m,
            forall|j: int| 0 <= j < k ==> text@[i + j] == #[trigger] s@[j],
        decreases m - k,
    {
        if text.get_char(i + k) != s.get_char(k) {
            assert(text@.subrange(i as int, i + m)[k as int] != s@[k as int]);
            return false;
        }
        k = k + 1;
    }
    assert(text@.subrange(i as int, i + m) =~= s@);
    true
}

/// Whether `text` begins with `prefix`.
pub fn starts_with(text: &str, prefix: &str) -> (r: bool)
    ensures
        r == has_prefix(text@, prefix@),
{
    matches_at(text, prefix, 0)
}

/// Whether `part` occurs anywhere in `text`.
pub fn contains(text: &str, part: &str) -> (r: bool)
    ensures
        r == has_infix(text@, part@),
{
    let n = text.unicode_len();
    let mut i: usize = 0;
    while i < n
        invariant
            n == text@.len(),
            i <= n,
            forall|j: int| 0 <= j < i ==> !occurs_at(text@, part@, j),
        decreases n - i,
    {
        if matches_at(text, part, i) {
            return true;
        }
        i = i + 1;
    }
    if matches_at(text, part, n) {
        return true;
    }
    assert forall|j: int| !occurs_at(text@, part@, j) by {
        if 0 <= j && j < n {
        }
    }
    false
}

/// Relies on `String::push`: appends one character.
#[verifier::external_body]
pub(crate) fn push_char(s: &mut String, c: char)
    ensures
        final(s)@ == old(s)@.push(c),
{
    s.push(c);
}

/// The words of `words` joined by single spaces.
pub fn join_with_spaces(words: &Vec<String>) -> (r: String)
    ensures
        r@ == join_words(words@.map_values(|w: String| w@)),
{
    let ghost ws = words@.map_values(|w: String| w@);
    let mut out = String::new();
    let mut i: usize = 0;
    while i < words.len()
        invariant
            i <= words@.len(),
            ws == words@.map_values(|w: String| w@),
            out@ == join_words(ws.subrange(0, i as int)),
        decreases words.len() - i,
    {
        if i > 0 {
            push_char(&mut out, ' ');
        }
        out.append(words[i].as_str());
        assert(ws.subrange(0, i + 1).drop_last() =~= ws.subrange(0, i as int));
        i = i + 1;
    }
    assert(ws.subrange(0, words@.len() as int) =~= ws);
    out
}

/// `s` with every underscore turned into a space.
pub fn replace_underscores(s: &str) -> (r: String)
    ensures
        r@ == underscores_to_spaces(s@),
{
    let n = s.unicode_len();
    let mut out = String::new();
    let mut i: usize = 0;
    while i < n
        invariant
            n == s@.len(),
            i <= n,
            out@ =~= underscores_to_spaces(s@.subrange(0, i as int)),
        decreases n - i,
    {
        let c = s.get_char(i);
        if c == '_' {
            push_char(&mut out, ' ');
        } else {
            push_char(&mut out, c);
        }
        i = i + 1;
    }
    assert(s@.subrange(0, n as int) =~= s@);
    out
}

} // verus!
