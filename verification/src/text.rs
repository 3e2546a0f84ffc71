//! Text as sequences of characters: reading a string's characters into a
//! vector, equality, suffixes, and the lexicographic order.

use vstd::prelude::*;

verus! {

/// `String::push` appends the given character to the end of the string.
pub assume_specification[ String::push ](s: &mut String, c: char)
    ensures
        final(s)@ == old(s)@.push(c),
;

/// The characters of `s`, in order.
pub fn chars_of(s: &str) -> (chars: Vec<char>)
    ensures
        chars@ == s@,
{
    let mut chars: Vec<char> = Vec::new();
    for c in it: s.chars()
        invariant
            it.seq() == s@,
            chars@ == s@.take(it.index()),
    {
        chars.push(c);
    }
    chars
}

/// `suffix` stands at the end of `s`.
pub open spec fn has_suffix(s: Seq<char>, suffix: Seq<char>) -> bool {
    suffix.len() <= s.len() && s.skip(s.len() - suffix.len()) == suffix
}

/// `a` comes before `b` in the lexicographic order of their characters: at
/// the first place where they differ `a` has the smaller character, or `a`
/// ends there and `b` goes on.
pub open spec fn lex_less(a: Seq<char>, b: Seq<char>) -> bool
    decreases a.len(),
{
    if b.len() == 0 {
        false
    } else if a.len() == 0 {
        true
    } else if a[0] != b[0] {
        a[0] < b[0]
    } else {
        lex_less(a.skip(1), b.skip(1))
    }
}

/// Each text comes before every later one.
pub open spec fn strictly_ascending(texts: Seq<Seq<char>>) -> bool {
    forall|i: int, j: int| 0 <= i < j < texts.len() ==> lex_less(texts[i], texts[j])
}

/// No text comes before itself.
pub proof fn lemma_lex_irreflexive(a: Seq<char>)
    ensures
        !lex_less(a, a),
    decreases a.len(),
{
    if a.len() > 0 {
        lemma_lex_irreflexive(a.skip(1));
    }
}

/// What comes before a text comes before all that the text comes before.
pub proof fn lemma_lex_transitive(a: Seq<char>, b: Seq<char>, c: Seq<char>)
    requires
        lex_less(a, b),
        lex_less(b, c),
    ensures
        lex_less(a, c),
    decreases a.len(),
{
    if a.len() > 0 && a[0] == b[0] && b[0] == c[0] {
        lemma_lex_transitive(a.skip(1), b.skip(1), c.skip(1));
    }
}

/// Of two texts that differ, one comes before the other.
pub proof fn lemma_lex_total(a: Seq<char>, b: Seq<char>)
    ensures
        lex_less(a, b) || lex_less(b, a) || a == b,
    decreases a.len(),
{
    if a.len() > 0 && b.len() > 0 && a[0] == b[0] {
        lemma_lex_total(a.skip(1), b.skip(1));
        if a.skip(1) == b.skip(1) {
            assert(a =~= seq![a[0]] + a.skip(1));
            assert(b =~= seq![b[0]] + b.skip(1));
        }
    } else if a.len() == 0 && b.len() == 0 {
        assert(a =~= b);
    }
}

/// Texts in strictly ascending order are all different.
pub proof fn lemma_ascending_is_duplicate_free(texts: Seq<Seq<char>>)
    requires
        strictly_ascending(texts),
    ensures
        forall|i: int, j: int| 0 <= i < j < texts.len() ==> texts[i] != texts[j],
{
    assert forall|i: int, j: int| 0 <= i < j < texts.len() implies texts[i] != texts[j] by {
        lemma_lex_irreflexive(texts[i]);
    }
}

/// Two strictly ascending sequences that hold the same texts are equal.
pub proof fn lemma_ascending_is_unique(left: Seq<Seq<char>>, right: Seq<Seq<char>>)
    requires
        strictly_ascending(left),
        strictly_ascending(right),
        forall|t: Seq<char>| left.contains(t) <==> right.contains(t),
    ensures
        left == right,
    decreases left.len(),
{
    if left.len() == 0 {
        if right.len() > 0 {
            assert(right.contains(right[0]));
        }
        assert(left =~= right);
    } else {
        let top = left.last();
        assert(left.contains(top));
        let at = choose|at: int| 0 <= at < right.len() && right[at] == top;
        assert(at == right.len() - 1) by {
            if at < right.len() - 1 {
                let above = right.last();
                assert(right.contains(above));
                let k = choose|k: int| 0 <= k < left.len() && left[k] == above;
                lemma_lex_irreflexive(top);
                if k < left.len() - 1 {
                    lemma_lex_transitive(above, top, above);
                    lemma_lex_irreflexive(above);
                }
            }
        }
        let left_rest = left.drop_last();
        let right_rest = right.drop_last();
        assert forall|t: Seq<char>| left_rest.contains(t) <==> right_rest.contains(t) by {
            lemma_lex_irreflexive(top);
            if left_rest.contains(t) {
                let k = choose|k: int| 0 <= k < left_rest.len() && left_rest[k] == t;
                assert(left[k] == t);
                assert(left.contains(t));
                let m = choose|m: int| 0 <= m < right.len() && right[m] == t;
                assert(right_rest[m] == t);
            }
            if right_rest.contains(t) {
                let k = choose|k: int| 0 <= k < right_rest.len() && right_rest[k] == t;
                assert(right[k] == t);
                assert(right.contains(t));
                let m = choose|m: int| 0 <= m < left.len() && left[m] == t;
                assert(left_rest[m] == t);
            }
        }
        lemma_ascending_is_unique(left_rest, right_rest);
        assert(left =~= left_rest.push(top));
        assert(right =~= right_rest.push(top));
    }
}

/// Whether two strings hold the same characters.
pub fn same_text(a: &str, b: &str) -> (same: bool)
    ensures
        same == (a@ == b@),
{
    let a_chars = chars_of(a);
    let b_chars = chars_of(b);
    same_chars(&a_chars, &b_chars)
}

/// Whether two vectors hold the same characters.
pub fn same_chars(a: &Vec<char>, b: &Vec<char>) -> (same: bool)
    ensures
        same == (a@ == b@),
{
    if a.len() != b.len() {
        return false;
    }
    let mut i: usize = 0;
    while i < a.len()
        invariant
            i <= a.len(),
            a.len() == b.len(),
            a@.take(i as int) == b@.take(i as int),
        decreases a.len() - i,
    {
        if a[i] != b[i] {
            return false;
        }
        proof {
            assert(a@.take(i + 1) =~= a@.take(i as int).push(a@[i as int]));
            assert(b@.take(i + 1) =~= b@.take(i as int).push(b@[i as int]));
        }
        i += 1;
    }
    proof {
        assert(a@ =~= a@.take(a.len() as int));
        assert(b@ =~= b@.take(b.len() as int));
    }
    true
}

/// Whether `s` ends in `suffix`.
pub fn ends_with(s: &str, suffix: &str) -> (ends: bool)
    ensures
        ends == has_suffix(s@, suffix@),
{
    let chars = chars_of(s);
    let wanted = chars_of(suffix);
    if wanted.len() > chars.len() {
        return false;
    }
    let start: usize = chars.len() - wanted.len();
    let ghost tail = chars@.skip(start as int);
    let mut i: usize = 0;
    while i < wanted.len()
        invariant
            i <= wanted.len(),
            start + wanted.len() == chars.len(),
            chars@ == s@,
            wanted@ == suffix@,
            tail == chars@.skip(start as int),
            tail.take(i as int) == wanted@.take(i as int),
        decreases wanted.len() - i,
    {
        if chars[start + i] != wanted[i] {
            proof {
                assert(tail[i as int] == chars@[start + i]);
                assert(tail != wanted@);
            }
            return false;
        }
        proof {
            assert(tail.take(i + 1) =~= tail.take(i as int).push(tail[i as int]));
            assert(wanted@.take(i + 1) =~= wanted@.take(i as int).push(wanted@[i as int]));
        }
        i += 1;
    }
    proof {
        assert(tail =~= tail.take(wanted.len() as int));
        assert(wanted@ =~= wanted@.take(wanted.len() as int));
    }
    true
}

/// Whether `a` comes before `b` in the lexicographic order.
pub fn chars_less(a: &Vec<char>, b: &Vec<char>) -> (less: bool)
    ensures
        less == lex_less(a@, b@),
{
    let mut i: usize = 0;
    proof {
        assert(a@.skip(0) =~= a@);
        assert(b@.skip(0) =~= b@);
    }
    loop
        invariant
            i <= a.len(),
            i <= b.len(),
            lex_less(a@, b@) == lex_less(a@.skip(i as int), b@.skip(i as int)),
        decreases a.len() - i,
    {
        if i >= b.len() {
            return false;
        }
        if i >= a.len() {
            return true;
        }
        proof {
            assert(a@.skip(i as int).skip(1) =~= a@.skip(i + 1));
            assert(b@.skip(i as int).skip(1) =~= b@.skip(i + 1));
        }
        if a[i] != b[i] {
            return a[i] < b[i];
        }
        i += 1;
    }
}

} // verus!
