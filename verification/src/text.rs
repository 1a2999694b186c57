//! Character-level primitives: searching a text, trimming it, comparing two texts.
//!
//! A text is modelled as the sequence of its characters, the view of a `str`.

use vstd::prelude::*;
use vstd::string::*;
use vstd::utf8::*;

verus! {

/// The index of the first occurrence of `c` in `s`, or `s.len()` where `c` does not occur.
pub open spec fn first_index(s: Seq<char>, c: char) -> int
    decreases s.len(),
{
    if s.len() == 0 || s[0] == c {
        0
    } else {
        1 + first_index(s.drop_first(), c)
    }
}

/// Whether `c` occurs in `s`.
pub open spec fn occurs(s: Seq<char>, c: char) -> bool {
    exists|i: int| 0 <= i < s.len() && s[i] == c
}

/// `s` without its last character, where that is a carriage return.
pub open spec fn strip_cr(s: Seq<char>) -> Seq<char> {
    if s.len() > 0 && s.last() == '\r' {
        s.drop_last()
    } else {
        s
    }
}

/// Whether `s` stands between double quotes: it begins with one and ends with another.
pub open spec fn quoted(s: Seq<char>) -> bool {
    s.len() >= 2 && s.first() == '"' && s.last() == '"'
}

/// `s` without the pair of double quotes that encloses it, or `s` itself where no such pair
/// encloses it. Only the outermost pair goes: quotes further inside stay, a quote on one side
/// alone stays, and nothing is unescaped.
pub open spec fn unquote(s: Seq<char>) -> Seq<char> {
    if quoted(s) {
        s.subrange(1, s.len() - 1)
    } else {
        s
    }
}

/// `first_index` lies within `0..=s.len()`, no earlier character is `c`, and the character it
/// points at, if any, is `c`.
pub proof fn lemma_first_index(s: Seq<char>, c: char)
    ensures
        0 <= first_index(s, c) <= s.len(),
        forall|i: int| 0 <= i < first_index(s, c) ==> s[i] != c,
        first_index(s, c) < s.len() ==> s[first_index(s, c)] == c,
        first_index(s, c) < s.len() <==> occurs(s, c),
    decreases s.len(),
{
    if s.len() == 0 || s[0] == c {
    } else {
        let t = s.drop_first();
        lemma_first_index(t, c);
        assert forall|i: int| 0 <= i < first_index(s, c) implies s[i] != c by {
            if i > 0 {
                assert(s[i] == t[i - 1]);
            }
        }
        if occurs(s, c) {
            let i = choose|i: int| 0 <= i < s.len() && s[i] == c;
            assert(t[i - 1] == c);
        }
    }
}

/// The index that has no `c` before it, and either points at a `c` or is the length of `s`,
/// is `first_index`.
pub proof fn lemma_first_index_is(s: Seq<char>, c: char, n: int)
    requires
        0 <= n <= s.len(),
        forall|i: int| 0 <= i < n ==> s[i] != c,
        n < s.len() ==> s[n] == c,
    ensures
        first_index(s, c) == n,
{
    lemma_first_index(s, c);
}

/// Searching a concatenation: the first occurrence lies in the first part where that holds
/// `c`, and else in the second part, after all of the first.
pub proof fn lemma_first_index_concat(a: Seq<char>, b: Seq<char>, c: char)
    ensures
        first_index(a + b, c) == if occurs(a, c) {
            first_index(a, c)
        } else {
            a.len() + first_index(b, c)
        },
{
    lemma_first_index(a, c);
    lemma_first_index(b, c);
    let n = first_index(a, c);
    let m = first_index(b, c);
    if occurs(a, c) {
        assert((a + b)[n] == a[n]);
        lemma_first_index_is(a + b, c, n);
    } else {
        lemma_first_index_is(a + b, c, a.len() + m);
    }
}

/// The characters of `text`, in order.
pub fn chars_of(text: &str) -> (chars: Vec<char>)
    ensures
        chars@ == text@,
{
    let mut chars: Vec<char> = Vec::new();
    for c in it: text.chars()
        invariant
            it.seq() == text@,
            chars@ == text@.take(it.index()),
    {
        chars.push(c);
    }
    chars
}

/// Searches `chars[from..to]` for `c`: the index of its first occurrence there, or `to`.
pub fn find(chars: &Vec<char>, from: usize, to: usize, c: char) -> (at: usize)
    requires
        from <= to <= chars@.len(),
    ensures
        from <= at <= to,
        at - from == first_index(chars@.subrange(from as int, to as int), c),
{
    let ghost part = chars@.subrange(from as int, to as int);
    let mut at: usize = from;
    while at < to && chars[at] != c
        invariant
            from <= at <= to <= chars@.len(),
            part == chars@.subrange(from as int, to as int),
            forall|i: int| 0 <= i < at - from ==> part[i] != c,
        decreases to - at,
    {
        at += 1;
    }
    proof {
        lemma_first_index_is(part, c, at - from);
    }
    at
}

/// Narrows `chars[from..to]` to what `unquote` keeps of it.
pub fn unquote_range(chars: &Vec<char>, from: usize, to: usize) -> (kept: (usize, usize))
    requires
        from <= to <= chars@.len(),
    ensures
        kept == if quoted(chars@.subrange(from as int, to as int)) {
            ((from + 1) as usize, (to - 1) as usize)
        } else {
            (from, to)
        },
        from <= kept.0 <= kept.1 <= to,
        chars@.subrange(kept.0 as int, kept.1 as int) == unquote(
            chars@.subrange(from as int, to as int),
        ),
{
    if to - from >= 2 && chars[from] == '"' && chars[to - 1] == '"' {
        (from + 1, to - 1)
    } else {
        (from, to)
    }
}

/// Two texts with the same UTF-8 encoding are the same text.
pub proof fn lemma_encoding_determines_text(a: Seq<char>, b: Seq<char>)
    requires
        encode_utf8(a) == encode_utf8(b),
    ensures
        a == b,
{
    encode_utf8_decode_utf8(a);
    encode_utf8_decode_utf8(b);
}

/// Whether `a` and `b` are the same text.
pub fn same_text(a: &str, b: &str) -> (same: bool)
    ensures
        same == (a@ == b@),
{
    let x = a.as_bytes();
    let y = b.as_bytes();
    if x.len() != y.len() {
        return false;
    }
    let mut i: usize = 0;
    while i < x.len()
        invariant
            i <= x@.len(),
            x@.len() == y@.len(),
            x@ == a.spec_bytes(),
            y@ == b.spec_bytes(),
            forall|j: int| 0 <= j < i ==> x@[j] == y@[j],
        decreases x@.len() - i,
    {
        if x[i] != y[i] {
            return false;
        }
        i += 1;
    }
    proof {
        assert(x@ =~= y@);
        lemma_encoding_determines_text(a@, b@);
    }
    true
}

} // verus!
