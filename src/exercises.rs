//! Small functions on slices, vectors and strings.
use vstd::prelude::*;
use crate::text::{chars_of, span_texts, spans_within, token_spans, tokens_spec};

verus! {

/// The sum of the numbers of `s`.
pub open spec fn sum_spec(s: Seq<i32>) -> int
    decreases s.len(),
{
    if s.len() == 0 {
        0
    } else {
        sum_spec(s.drop_last()) + s.last()
    }
}

/// Adds up the numbers of `slice`; every running sum must fit in an `i32`.
pub fn sum(slice: &[i32]) -> (r: i32)
    requires
        forall|k: int|
            0 <= k <= slice@.len() ==> i32::MIN <= #[trigger] sum_spec(slice@.subrange(0, k))
                <= i32::MAX,
    ensures
        r == sum_spec(slice@),
{
    let mut total: i32 = 0;
    let mut i: usize = 0;
    proof {
        assert(slice@.subrange(0, 0) =~= Seq::<i32>::empty());
    }
    while i < slice.len()
        invariant
            i <= slice@.len(),
            total == sum_spec(slice@.subrange(0, i as int)),
            forall|k: int|
                0 <= k <= slice@.len() ==> i32::MIN <= #[trigger] sum_spec(slice@.subrange(0, k))
                    <= i32::MAX,
        decreases slice@.len() - i,
    {
        proof {
            assert(slice@.subrange(0, i + 1).drop_last() =~= slice@.subrange(0, i as int));
            assert(i32::MIN <= sum_spec(slice@.subrange(0, i + 1)) <= i32::MAX);
        }
        total = total + slice[i];
        i = i + 1;
    }
    proof {
        assert(slice@.subrange(0, slice@.len() as int) =~= slice@);
    }
    total
}

/// The numbers of `s`, each kept at its first occurrence only.
pub open spec fn unique_spec(s: Seq<i32>) -> Seq<i32>
    decreases s.len(),
{
    if s.len() == 0 {
        s
    } else {
        let prev = unique_spec(s.drop_last());
        if prev.contains(s.last()) {
            prev
        } else {
            prev.push(s.last())
        }
    }
}

fn contains_value(v: &Vec<i32>, x: i32) -> (r: bool)
    ensures
        r == v@.contains(x),
{
    let mut i: usize = 0;
    while i < v.len()
        invariant
            i <= v@.len(),
            forall|k: int| 0 <= k < i ==> v@[k] != x,
        decreases v@.len() - i,
    {
        if v[i] == x {
            return true;
        }
        i = i + 1;
    }
    false
}

/// A new vector holding each number of `vs` once, in order of first occurrence.
pub fn unique(vs: &Vec<i32>) -> (r: Vec<i32>)
    ensures
        r@ == unique_spec(vs@),
{
    let mut r: Vec<i32> = Vec::new();
    let mut i: usize = 0;
    proof {
        assert(vs@.subrange(0, 0) =~= Seq::<i32>::empty());
    }
    while i < vs.len()
        invariant
            i <= vs@.len(),
            r@ == unique_spec(vs@.subrange(0, i as int)),
        decreases vs@.len() - i,
    {
        proof {
            assert(vs@.subrange(0, i + 1).drop_last() =~= vs@.subrange(0, i as int));
        }
        if !contains_value(&r, vs[i]) {
            r.push(vs[i]);
        }
        i = i + 1;
    }
    proof {
        assert(vs@.subrange(0, vs@.len() as int) =~= vs@);
    }
    r
}

/// The `i`-th number of the Fibonacci-like sequence that starts with `n1, n2`.
pub open spec fn fib_spec(n1: int, n2: int, i: nat) -> int
    decreases i,
{
    if i == 0 {
        n1
    } else if i == 1 {
        n2
    } else {
        fib_spec(n1, n2, (i - 1) as nat) + fib_spec(n1, n2, (i - 2) as nat)
    }
}

/// The first `how_many` numbers of the sequence that starts with `n1, n2` and goes on
/// with the sum of the two numbers before; each must fit in an `i32`.
pub fn fibonacci(n1: i32, n2: i32, how_many: usize) -> (r: Vec<i32>)
    requires
        forall|i: nat| i < how_many ==> i32::MIN <= #[trigger] fib_spec(n1 as int, n2 as int, i)
            <= i32::MAX,
    ensures
        r@.len() == how_many,
        forall|i: int| 0 <= i < how_many ==> r@[i] == fib_spec(n1 as int, n2 as int, i as nat),
{
    let mut r: Vec<i32> = Vec::new();
    let mut i: usize = 0;
    while i < how_many
        invariant
            i <= how_many,
            r@.len() == i,
            forall|k: int| 0 <= k < i ==> r@[k] == fib_spec(n1 as int, n2 as int, k as nat),
            forall|k: nat| k < how_many ==> i32::MIN <= #[trigger] fib_spec(n1 as int, n2 as int, k)
                <= i32::MAX,
        decreases how_many - i,
    {
        let next = if i == 0 {
            n1
        } else if i == 1 {
            n2
        } else {
            proof {
                assert(i32::MIN <= fib_spec(n1 as int, n2 as int, i as nat) <= i32::MAX);
            }
            r[i - 1] + r[i - 2]
        };
        r.push(next);
        i = i + 1;
    }
    r
}

/// The items of `s` whose mark in `keep` is true, in order.
pub open spec fn kept(s: Seq<i32>, keep: Seq<bool>) -> Seq<i32>
    decreases s.len(),
{
    if s.len() == 0 {
        s
    } else if keep[s.len() - 1] {
        kept(s.drop_last(), keep).push(s.last())
    } else {
        kept(s.drop_last(), keep)
    }
}

/// A new vector with the items of `vs` on which `pred` holds, in order.
pub fn filter<F: Fn(i32) -> bool>(vs: &Vec<i32>, pred: &F) -> (r: Vec<i32>)
    requires
        forall|x: i32| pred.requires((x,)),
    ensures
        exists|keep: Seq<bool>|
            keep.len() == vs@.len() && (forall|i: int|
                0 <= i < vs@.len() ==> pred.ensures((vs@[i],), #[trigger] keep[i]))
                && r@ == kept(vs@, keep),
{
    let mut r: Vec<i32> = Vec::new();
    let ghost mut keep: Seq<bool> = Seq::empty();
    let mut i: usize = 0;
    proof {
        assert(vs@.subrange(0, 0) =~= Seq::<i32>::empty());
    }
    while i < vs.len()
        invariant
            i <= vs@.len(),
            keep.len() == i,
            forall|x: i32| pred.requires((x,)),
            forall|k: int| 0 <= k < i ==> pred.ensures((vs@[k],), #[trigger] keep[k]),
            r@ == kept(vs@.subrange(0, i as int), keep),
        decreases vs@.len() - i,
    {
        let b = pred(vs[i]);
        let ghost prefix = vs@.subrange(0, i + 1);
        proof {
            assert(prefix.drop_last() =~= vs@.subrange(0, i as int));
            lemma_kept_extend(vs@.subrange(0, i as int), keep, b);
            keep = keep.push(b);
        }
        if b {
            r.push(vs[i]);
        }
        i = i + 1;
    }
    proof {
        assert(vs@.subrange(0, vs@.len() as int) =~= vs@);
    }
    r
}

/// Marks past the end of a sequence do not change what is kept of it.
proof fn lemma_kept_extend(s: Seq<i32>, keep: Seq<bool>, b: bool)
    requires
        keep.len() >= s.len(),
    ensures
        kept(s, keep.push(b)) == kept(s, keep),
    decreases s.len(),
{
    if s.len() > 0 {
        lemma_kept_extend(s.drop_last(), keep, b);
        assert(keep.push(b)[s.len() - 1] == keep[s.len() - 1]);
    }
}

/// The longer of two strings, counted in characters; the first one on a tie.
pub fn pick_longest(s1: &str, s2: &str) -> (r: String)
    ensures
        r@ == (if s1@.len() >= s2@.len() {
            s1@
        } else {
            s2@
        }),
{
    if s1.unicode_len() >= s2.unicode_len() {
        s1.to_owned()
    } else {
        s2.to_owned()
    }
}

/// Adds one to the number behind `x`.
pub fn add1(x: &mut i32)
    requires
        *old(x) < i32::MAX,
    ensures
        *final(x) == *old(x) + 1,
{
    *x = *x + 1;
}

/// The whitespace-separated words of `s`, as slices of it.
pub fn split_ref<'a>(s: &'a str) -> (r: Vec<&'a str>)
    ensures
        r@.map_values(|t: &str| t@) == tokens_spec(s@),
{
    let cs = chars_of(s);
    let spans = token_spans(&cs);
    let mut words: Vec<&'a str> = Vec::new();
    let mut i: usize = 0;
    while i < spans.len()
        invariant
            i <= spans@.len(),
            cs@ == s@,
            spans_within(spans@, cs@.len()),
            words@.map_values(|t: &str| t@) == span_texts(cs@, spans@).subrange(0, i as int),
        decreases spans@.len() - i,
    {
        let (a, b) = spans[i];
        let w = s.substring_char(a, b);
        let ghost before = words@;
        words.push(w);
        proof {
            assert(words@.map_values(|t: &str| t@) =~= before.map_values(|t: &str| t@).push(w@));
            assert(span_texts(cs@, spans@)[i as int] == cs@.subrange(a as int, b as int));
            assert(span_texts(cs@, spans@).subrange(0, i + 1) =~= span_texts(cs@, spans@).subrange(
                0,
                i as int,
            ).push(w@));
        }
        i = i + 1;
    }
    proof {
        assert(span_texts(cs@, spans@).subrange(0, spans@.len() as int) =~= span_texts(cs@, spans@));
    }
    words
}

} // verus!
