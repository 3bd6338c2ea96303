//! Character sequences: searching and splitting.

use vstd::prelude::*;

verus! {

/// The index of the first `c` in `s`, or the length of `s` where it holds none.
pub open spec fn position(s: Seq<char>, c: char) -> int
    decreases s.len(),
{
    if s.len() == 0 || s[0] == c {
        0
    } else {
        1 + position(s.drop_first(), c)
    }
}

/// The pieces of `s` between the occurrences of `sep`, in order. A sequence
/// that holds `sep` n times has n + 1 pieces, some of which may be empty.
pub open spec fn split(s: Seq<char>, sep: char) -> Seq<Seq<char>>
    decreases s.len(),
{
    let at = position(s, sep);
    if 0 <= at < s.len() {
        seq![s.take(at)] + split(s.skip(at + 1), sep)
    } else {
        seq![s]
    }
}

/// `position` points at the first occurrence, or past the end.
pub proof fn lemma_position(s: Seq<char>, c: char)
    ensures
        0 <= position(s, c) <= s.len(),
        position(s, c) < s.len() ==> s[position(s, c)] == c,
        forall|k: int| 0 <= k < position(s, c) ==> s[k] != c,
        position(s, c) == s.len() <==> !s.contains(c),
    decreases s.len(),
{
    if s.len() == 0 || s[0] == c {
    } else {
        let rest = s.drop_first();
        lemma_position(rest, c);
        assert forall|k: int| 0 <= k < position(s, c) implies s[k] != c by {
            if k > 0 {
                assert(s[k] == rest[k - 1]);
            }
        }
        if position(s, c) < s.len() {
            assert(s[position(s, c)] == rest[position(rest, c)]);
        }
        if s.contains(c) {
            let k = choose|k: int| 0 <= k < s.len() && s[k] == c;
            assert(rest[k - 1] == c);
        }
    }
}

/// In `head + [c] + tail`, where `head` holds no `c`, the first `c` is the
/// one behind `head`.
pub proof fn lemma_position_joined(head: Seq<char>, c: char, tail: Seq<char>)
    requires
        !head.contains(c),
    ensures
        position(head + seq![c] + tail, c) == head.len(),
        (head + seq![c] + tail).take(head.len() as int) == head,
        (head + seq![c] + tail).skip(head.len() as int + 1) == tail,
{
    let s = head + seq![c] + tail;
    lemma_position(s, c);
    let at = position(s, c);
    assert(s[head.len() as int] == c);
    if at < head.len() {
        assert(head[at] == c);
    }
    assert(s.take(head.len() as int) =~= head);
    assert(s.skip(head.len() as int + 1) =~= tail);
}

/// A sequence without the separator is a single piece.
pub proof fn lemma_split_single(s: Seq<char>, sep: char)
    requires
        !s.contains(sep),
    ensures
        split(s, sep) == seq![s],
{
    lemma_position(s, sep);
}

/// Splitting `head + [sep] + tail`, where `head` holds no `sep`, gives
/// `head` and then the pieces of `tail`.
pub proof fn lemma_split_joined(head: Seq<char>, sep: char, tail: Seq<char>)
    requires
        !head.contains(sep),
    ensures
        split(head + seq![sep] + tail, sep) == seq![head] + split(tail, sep),
{
    lemma_position_joined(head, sep, tail);
}

/// Every sequence splits into at least one piece.
pub proof fn lemma_split_nonempty(s: Seq<char>, sep: char)
    ensures
        split(s, sep).len() >= 1,
{
}

/// The characters of a string, in order.
pub fn to_chars(s: &str) -> (chars: Vec<char>)
    ensures
        chars@ == s@,
{
    let mut chars: Vec<char> = Vec::new();
    for c in it: s.chars()
        invariant
            it.seq() == s@,
            chars@ == s@.take(it.index() as int),
    {
        chars.push(c);
        assert(s@.take(it.index() + 1) =~= s@.take(it.index() as int).push(c));
    }
    assert(s@.take(s@.len() as int) =~= s@);
    chars
}

/// The index of the first `c` in `chars` at or behind `from`, or the length
/// of `chars` where there is none.
pub fn find(chars: &Vec<char>, from: usize, c: char) -> (at: usize)
    requires
        from <= chars@.len(),
    ensures
        at == from + position(chars@.skip(from as int), c),
        from <= at <= chars@.len(),
{
    let mut at: usize = from;
    proof {
        lemma_position(chars@.skip(from as int), c);
    }
    while at < chars.len() && chars[at] != c
        invariant
            from <= at <= chars@.len(),
            position(chars@.skip(from as int), c) == (at - from) + position(
                chars@.skip(at as int),
                c,
            ),
        decreases chars@.len() - at,
    {
        proof {
            let here = chars@.skip(at as int);
            assert(here[0] == chars@[at as int]);
            assert(here.drop_first() =~= chars@.skip(at + 1));
        }
        at += 1;
    }
    proof {
        lemma_position(chars@.skip(at as int), c);
        if at < chars@.len() {
            assert(chars@.skip(at as int)[0] == chars@[at as int]);
        }
    }
    at
}

/// Whether `a` comes before `b` in the dictionary order of their characters'
/// code points, which is the order of strings.
pub open spec fn text_before(a: Seq<char>, b: Seq<char>) -> bool
    decreases a.len(),
{
    if b.len() == 0 {
        false
    } else if a.len() == 0 {
        true
    } else if a[0] != b[0] {
        (a[0] as int) < (b[0] as int)
    } else {
        text_before(a.drop_first(), b.drop_first())
    }
}

/// No text comes before itself.
pub proof fn lemma_text_before_irreflexive(a: Seq<char>)
    ensures
        !text_before(a, a),
    decreases a.len(),
{
    if a.len() > 0 {
        lemma_text_before_irreflexive(a.drop_first());
    }
}

/// Of two different texts, one comes before the other.
pub proof fn lemma_text_before_total(a: Seq<char>, b: Seq<char>)
    ensures
        a == b || text_before(a, b) || text_before(b, a),
    decreases a.len(),
{
    if a.len() == 0 || b.len() == 0 {
        if a.len() == 0 && b.len() == 0 {
            assert(a =~= b);
        }
    } else if a[0] == b[0] {
        lemma_text_before_total(a.drop_first(), b.drop_first());
        if a.drop_first() == b.drop_first() {
            assert(a =~= seq![a[0]] + a.drop_first());
            assert(b =~= seq![b[0]] + b.drop_first());
        }
    }
}

/// The order of texts is transitive.
pub proof fn lemma_text_before_transitive(a: Seq<char>, b: Seq<char>, c: Seq<char>)
    requires
        text_before(a, b),
        text_before(b, c),
    ensures
        text_before(a, c),
    decreases a.len(),
{
    if a.len() > 0 && a[0] == b[0] && b[0] == c[0] {
        lemma_text_before_transitive(a.drop_first(), b.drop_first(), c.drop_first());
    }
}

/// Texts that agree on their first `k` characters are ordered as what
/// follows those characters.
pub proof fn lemma_text_before_skip(a: Seq<char>, b: Seq<char>, k: int)
    requires
        0 <= k <= a.len(),
        k <= b.len(),
        a.take(k) == b.take(k),
    ensures
        text_before(a, b) == text_before(a.skip(k), b.skip(k)),
    decreases k,
{
    if k == 0 {
        assert(a.skip(0) =~= a);
        assert(b.skip(0) =~= b);
    } else {
        assert(a[0] == a.take(k)[0]);
        assert(b[0] == b.take(k)[0]);
        let x = a.drop_first();
        let y = b.drop_first();
        assert(x.take(k - 1) =~= a.take(k).drop_first());
        assert(y.take(k - 1) =~= b.take(k).drop_first());
        lemma_text_before_skip(x, y, k - 1);
        assert(x.skip(k - 1) =~= a.skip(k));
        assert(y.skip(k - 1) =~= b.skip(k));
    }
}

/// How one text stands to another in the order of texts.
#[derive(Clone, Copy, Debug, PartialEq, Eq, Structural)]
pub enum Rank {
    Before,
    Same,
    After,
}

/// Whether `rank` is how `a` stands to `b`.
pub open spec fn ranks(rank: Rank, a: Seq<char>, b: Seq<char>) -> bool {
    match rank {
        Rank::Before => text_before(a, b),
        Rank::Same => a == b,
        Rank::After => text_before(b, a),
    }
}

/// How `a` stands to `b` in the order of texts.
pub fn rank_texts(a: &Vec<char>, b: &Vec<char>) -> (rank: Rank)
    ensures
        ranks(rank, a@, b@),
{
    let mut at: usize = 0;
    assert(a@.take(0) =~= b@.take(0));
    while at < a.len() && at < b.len()
        invariant
            at <= a@.len(),
            at <= b@.len(),
            a@.take(at as int) == b@.take(at as int),
        decreases a@.len() - at,
    {
        let x: char = a[at];
        let y: char = b[at];
        proof {
            lemma_text_before_skip(a@, b@, at as int);
            lemma_text_before_skip(b@, a@, at as int);
            assert(a@.skip(at as int)[0] == a@[at as int]);
            assert(b@.skip(at as int)[0] == b@[at as int]);
        }
        if x < y {
            return Rank::Before;
        }
        if y < x {
            return Rank::After;
        }
        assert(a@[at as int] == b@[at as int]);
        assert(a@.take(at + 1) =~= a@.take(at as int).push(a@[at as int]));
        assert(b@.take(at + 1) =~= b@.take(at as int).push(b@[at as int]));
        at += 1;
    }
    proof {
        lemma_text_before_skip(a@, b@, at as int);
        lemma_text_before_skip(b@, a@, at as int);
    }
    if at < b.len() {
        Rank::Before
    } else if at < a.len() {
        Rank::After
    } else {
        assert(a@ =~= a@.take(at as int));
        assert(b@ =~= b@.take(at as int));
        Rank::Same
    }
}

} // verus!
