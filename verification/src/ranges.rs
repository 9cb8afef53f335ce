//! Half-open byte ranges as `(start, end)` pairs: lexicographic sorting and
//! coalescing of overlapping or touching ranges, with the laws that make a
//! coalesced list an exact, normalized description of the covered offsets.

use vstd::prelude::*;
use vstd::relations::{sorted_by, total_ordering};

verus! {

/// Lexicographic order on `(start, end)` pairs, the order of
/// `sort_by_key(|range| (range.start, range.end))`.
pub open spec fn pair_le(a: (u64, u64), b: (u64, u64)) -> bool {
    a.0 < b.0 || (a.0 == b.0 && a.1 <= b.1)
}

/// [`pair_le`] as a relation value.
pub open spec fn pair_order() -> spec_fn((u64, u64), (u64, u64)) -> bool {
    |a: (u64, u64), b: (u64, u64)| pair_le(a, b)
}

/// Lexicographic order on pairs is a total order.
pub proof fn lemma_pair_order_total()
    ensures
        total_ordering(pair_order()),
{
    let r = pair_order();
    assert forall|x: (u64, u64), y: (u64, u64)| #[trigger] r(x, y) && #[trigger] r(y, x) implies x
        == y by {
        assert(x.0 == y.0 && x.1 == y.1);
    }
}

/// Coalesces a sequence that is already sorted: each pair that starts at or
/// before the end of the last retained pair extends that pair to the larger
/// end; any other pair is retained as a new entry.
pub open spec fn merge_sorted(s: Seq<(u64, u64)>) -> Seq<(u64, u64)>
    decreases s.len(),
{
    if s.len() == 0 {
        Seq::empty()
    } else {
        let acc = merge_sorted(s.drop_last());
        let c = s.last();
        if acc.len() > 0 && c.0 <= acc.last().1 {
            let last = acc.last();
            acc.update(acc.len() - 1, (last.0, if c.1 > last.1 { c.1 } else { last.1 }))
        } else {
            acc.push(c)
        }
    }
}

/// Whether an offset lies inside one of the half-open pairs.
pub open spec fn covers(s: Seq<(u64, u64)>, p: int) -> bool {
    exists|i: int| 0 <= i < s.len() && (#[trigger] s[i]).0 <= p < s[i].1
}

/// Every pair is non-empty (`start < end`).
pub open spec fn all_nonempty(s: Seq<(u64, u64)>) -> bool {
    forall|i: int| 0 <= i < s.len() ==> (#[trigger] s[i]).0 < s[i].1
}

/// Pairs are strictly ascending and separated by at least one uncovered
/// offset: each pair ends strictly before the next one starts.
pub open spec fn separated(s: Seq<(u64, u64)>) -> bool {
    forall|i: int, j: int| 0 <= i < j < s.len() ==> (#[trigger] s[i]).1 < (#[trigger] s[j]).0
}

/// The sorted order of `s` (the order of `sort_by_key((start, end))`).
pub open spec fn sorted_pairs(s: Seq<(u64, u64)>) -> Seq<(u64, u64)> {
    s.sort_by(pair_order())
}

/// Sorts pairs lexicographically.
pub fn sort_pairs(input: &Vec<(u64, u64)>) -> (sorted: Vec<(u64, u64)>)
    ensures
        sorted@ == sorted_pairs(input@),
{
    broadcast use vstd::seq_lib::to_multiset_insert, vstd::seq_lib::to_multiset_build;

    let mut sorted: Vec<(u64, u64)> = Vec::new();
    let mut i: usize = 0;
    assert(input@.take(0) =~= sorted@);
    while i < input.len()
        invariant
            i <= input.len(),
            sorted_by(sorted@, pair_order()),
            sorted@.to_multiset() == input@.take(i as int).to_multiset(),
        decreases input.len() - i,
    {
        let x = input[i];
        let mut p: usize = 0;
        while p < sorted.len() && (sorted[p].0 < x.0 || (sorted[p].0 == x.0 && sorted[p].1 <= x.1))
            invariant
                p <= sorted.len(),
                forall|k: int| 0 <= k < p ==> pair_le(#[trigger] sorted@[k], x),
            decreases sorted.len() - p,
        {
            p = p + 1;
        }
        let ghost before = sorted@;
        proof {
            assert forall|k: int| p <= k < before.len() implies pair_le(x, #[trigger] before[k]) by {
                assert(pair_order()(before[p as int], before[k]));
            }
        }
        sorted.insert(p, x);
        proof {
            assert(sorted@ == before.insert(p as int, x));
            assert forall|a: int, b: int| 0 <= a < b < sorted@.len() implies #[trigger] pair_order()(
                sorted@[a],
                sorted@[b],
            ) by {
                if b < p {
                    assert(pair_order()(before[a], before[b]));
                } else if b == p {
                } else if a < p {
                    assert(pair_le(before[a], x));
                    assert(pair_le(x, before[b - 1]));
                } else if a == p {
                } else {
                    assert(pair_order()(before[a - 1], before[b - 1]));
                }
            }
            assert(input@.take(i + 1) =~= input@.take(i as int).push(x));
            vstd::seq_lib::to_multiset_insert(before, p as int, x);
            vstd::seq_lib::to_multiset_build(input@.take(i as int), x);
        }
        i = i + 1;
    }
    proof {
        assert(input@.take(input.len() as int) =~= input@);
        lemma_pair_order_total();
        input@.lemma_sort_by_ensures(pair_order());
        vstd::seq_lib::lemma_sorted_unique(sorted@, input@.sort_by(pair_order()), pair_order());
    }
    sorted
}

/// Coalesces a sorted vector of pairs (see [`merge_sorted`]).
pub fn merge_pairs(sorted: &Vec<(u64, u64)>) -> (merged: Vec<(u64, u64)>)
    ensures
        merged@ == merge_sorted(sorted@),
{
    let mut merged: Vec<(u64, u64)> = Vec::new();
    let mut i: usize = 0;
    while i < sorted.len()
        invariant
            i <= sorted.len(),
            merged@ == merge_sorted(sorted@.take(i as int)),
        decreases sorted.len() - i,
    {
        let c = sorted[i];
        proof {
            assert(sorted@.take(i + 1).drop_last() =~= sorted@.take(i as int));
        }
        let n = merged.len();
        if n > 0 && c.0 <= merged[n - 1].1 {
            let last = merged[n - 1];
            let end = if c.1 > last.1 {
                c.1
            } else {
                last.1
            };
            merged.set(n - 1, (last.0, end));
        } else {
            merged.push(c);
        }
        i = i + 1;
    }
    proof {
        assert(sorted@.take(sorted.len() as int) =~= sorted@);
    }
    merged
}

/// Coalescing a sorted list of non-empty pairs yields non-empty, strictly
/// separated pairs that cover exactly the offsets the input covers, and
/// whose starts never exceed the last input start.
pub proof fn lemma_merge_sorted_normalizes(s: Seq<(u64, u64)>)
    requires
        sorted_by(s, pair_order()),
        all_nonempty(s),
    ensures
        all_nonempty(merge_sorted(s)),
        separated(merge_sorted(s)),
        forall|p: int| covers(merge_sorted(s), p) <==> covers(s, p),
        s.len() > 0 ==> merge_sorted(s).len() > 0,
        forall|i: int|
            0 <= i < merge_sorted(s).len() ==> (#[trigger] merge_sorted(s)[i]).0 <= s.last().0,
        merge_sorted(s).len() <= s.len(),
    decreases s.len(),
{
    if s.len() > 0 {
        let prefix = s.drop_last();
        assert(sorted_by(prefix, pair_order())) by {
            assert forall|i: int, j: int| 0 <= i < j < prefix.len() implies #[trigger] pair_order()(
                prefix[i],
                prefix[j],
            ) by {
                assert(pair_order()(s[i], s[j]));
            }
        }
        assert(all_nonempty(prefix)) by {
            assert forall|i: int| 0 <= i < prefix.len() implies (#[trigger] prefix[i]).0 < prefix[i].1 by {
                assert(s[i].0 < s[i].1);
            }
        }
        lemma_merge_sorted_normalizes(prefix);
        let acc = merge_sorted(prefix);
        let c = s.last();
        let out = merge_sorted(s);
        assert(c.0 < c.1) by {
            assert(s[s.len() - 1].0 < s[s.len() - 1].1);
        }
        if prefix.len() > 0 {
            assert(pair_order()(s[prefix.len() - 1], s[s.len() - 1]));
            assert(prefix.last().0 <= c.0);
        }
        if acc.len() > 0 && c.0 <= acc.last().1 {
            let last = acc.last();
            let new_last = (last.0, if c.1 > last.1 { c.1 } else { last.1 });
            assert(out == acc.update(acc.len() - 1, new_last));
            assert(last.0 <= c.0) by {
                assert(acc[acc.len() - 1].0 <= prefix.last().0);
            }
            assert(separated(out)) by {
                assert forall|i: int, j: int| 0 <= i < j < out.len() implies (#[trigger] out[i]).1 < (
                #[trigger] out[j]).0 by {
                    assert(acc[i].1 < acc[j].0);
                }
            }
            assert(all_nonempty(out)) by {
                assert forall|i: int| 0 <= i < out.len() implies (#[trigger] out[i]).0 < out[i].1 by {
                    assert(acc[i].0 < acc[i].1);
                }
            }
            assert forall|p: int| covers(out, p) <==> covers(s, p) by {
                if covers(out, p) {
                    let i = choose|i: int| 0 <= i < out.len() && (#[trigger] out[i]).0 <= p < out[i].1;
                    if i < acc.len() - 1 {
                        assert(acc[i].0 <= p < acc[i].1);
                        assert(covers(acc, p));
                        assert(covers(prefix, p));
                        let k = choose|k: int| 0 <= k < prefix.len() && (#[trigger] prefix[k]).0 <= p
                            < prefix[k].1;
                        assert(s[k] == prefix[k]);
                    } else if p < last.1 {
                        assert(out[i] == new_last);
                        assert(acc[acc.len() - 1].0 <= p < acc[acc.len() - 1].1);
                        assert(covers(acc, p));
                        assert(covers(prefix, p));
                        let k = choose|k: int| 0 <= k < prefix.len() && (#[trigger] prefix[k]).0 <= p
                            < prefix[k].1;
                        assert(s[k] == prefix[k]);
                    } else {
                        assert(out[i] == new_last);
                        assert(s[s.len() - 1].0 <= p < s[s.len() - 1].1);
                    }
                }
                if covers(s, p) {
                    let k = choose|k: int| 0 <= k < s.len() && (#[trigger] s[k]).0 <= p < s[k].1;
                    if k < s.len() - 1 {
                        assert(prefix[k] == s[k]);
                        assert(covers(prefix, p));
                        assert(covers(acc, p));
                        let i = choose|i: int| 0 <= i < acc.len() && (#[trigger] acc[i]).0 <= p < acc[i].1;
                        if i < acc.len() - 1 {
                            assert(out[i] == acc[i]);
                        } else {
                            assert(out[acc.len() - 1].0 <= p < out[acc.len() - 1].1);
                        }
                    } else {
                        assert(out[acc.len() - 1].0 <= p < out[acc.len() - 1].1);
                    }
                }
            }
            assert forall|i: int| 0 <= i < out.len() implies (#[trigger] out[i]).0 <= s.last().0 by {
                assert(acc[i].0 <= prefix.last().0);
            }
        } else {
            assert(out == acc.push(c));
            assert(separated(out)) by {
                assert forall|i: int, j: int| 0 <= i < j < out.len() implies (#[trigger] out[i]).1 < (
                #[trigger] out[j]).0 by {
                    if j < acc.len() {
                        assert(acc[i].1 < acc[j].0);
                    } else {
                        if i < acc.len() - 1 {
                            assert(acc[i].1 < acc[acc.len() - 1].0);
                            assert(acc[acc.len() - 1].0 < acc[acc.len() - 1].1);
                        }
                    }
                }
            }
            assert(all_nonempty(out)) by {
                assert forall|i: int| 0 <= i < out.len() implies (#[trigger] out[i]).0 < out[i].1 by {
                    if i < acc.len() {
                        assert(acc[i].0 < acc[i].1);
                    }
                }
            }
            assert forall|p: int| covers(out, p) <==> covers(s, p) by {
                if covers(out, p) {
                    let i = choose|i: int| 0 <= i < out.len() && (#[trigger] out[i]).0 <= p < out[i].1;
                    if i < acc.len() {
                        assert(acc[i].0 <= p < acc[i].1);
                        assert(covers(acc, p));
                        assert(covers(prefix, p));
                        let k = choose|k: int| 0 <= k < prefix.len() && (#[trigger] prefix[k]).0 <= p
                            < prefix[k].1;
                        assert(s[k] == prefix[k]);
                    } else {
                        assert(s[s.len() - 1].0 <= p < s[s.len() - 1].1);
                    }
                }
                if covers(s, p) {
                    let k = choose|k: int| 0 <= k < s.len() && (#[trigger] s[k]).0 <= p < s[k].1;
                    if k < s.len() - 1 {
                        assert(prefix[k] == s[k]);
                        assert(covers(prefix, p));
                        let i = choose|i: int| 0 <= i < acc.len() && (#[trigger] acc[i]).0 <= p < acc[i].1;
                        assert(out[i] == acc[i]);
                    } else {
                        assert(out[acc.len() as int] == c);
                    }
                }
            }
            assert forall|i: int| 0 <= i < out.len() implies (#[trigger] out[i]).0 <= s.last().0 by {
                if i < acc.len() {
                    assert(acc[i].0 <= prefix.last().0);
                }
            }
        }
    }
}

/// Coalescing a list that is already separated and non-empty changes nothing.
pub proof fn lemma_merge_sorted_identity(s: Seq<(u64, u64)>)
    requires
        separated(s),
        all_nonempty(s),
    ensures
        merge_sorted(s) == s,
    decreases s.len(),
{
    if s.len() > 0 {
        let prefix = s.drop_last();
        assert(separated(prefix)) by {
            assert forall|i: int, j: int| 0 <= i < j < prefix.len() implies (#[trigger] prefix[i]).1 < (
            #[trigger] prefix[j]).0 by {
                assert(s[i].1 < s[j].0);
            }
        }
        assert(all_nonempty(prefix)) by {
            assert forall|i: int| 0 <= i < prefix.len() implies (#[trigger] prefix[i]).0 < prefix[i].1 by {
                assert(s[i].0 < s[i].1);
            }
        }
        lemma_merge_sorted_identity(prefix);
        if prefix.len() > 0 {
            assert(s[prefix.len() - 1].1 < s[s.len() - 1].0);
        }
        assert(merge_sorted(s) =~= prefix.push(s.last()));
        assert(prefix.push(s.last()) =~= s);
    }
}

/// Sorting keeps exactly the same elements.
pub(crate) proof fn lemma_sorted_pairs_same_elements(pairs: Seq<(u64, u64)>)
    ensures
        sorted_by(sorted_pairs(pairs), pair_order()),
        forall|x: (u64, u64)| #[trigger] sorted_pairs(pairs).contains(x) <==> pairs.contains(x),
        sorted_pairs(pairs).len() == pairs.len(),
{
    broadcast use vstd::seq_lib::group_to_multiset_ensures;

    lemma_pair_order_total();
    pairs.lemma_sort_by_ensures(pair_order());
    let sorted = sorted_pairs(pairs);
    assert forall|x: (u64, u64)| #[trigger] sorted.contains(x) <==> pairs.contains(x) by {
        assert(sorted.to_multiset().count(x) == pairs.to_multiset().count(x));
    }
    assert(sorted.to_multiset().len() == pairs.to_multiset().len());
}

/// Two pair lists with the same elements cover the same offsets.
pub(crate) proof fn lemma_covers_same_elements(a: Seq<(u64, u64)>, b: Seq<(u64, u64)>)
    requires
        forall|x: (u64, u64)| a.contains(x) <==> b.contains(x),
    ensures
        forall|p: int| covers(a, p) <==> covers(b, p),
{
    assert forall|p: int| covers(a, p) implies covers(b, p) by {
        let k = choose|k: int| 0 <= k < a.len() && (#[trigger] a[k]).0 <= p < a[k].1;
        assert(a.contains(a[k]));
        assert(b.contains(a[k]));
        let j = choose|j: int| 0 <= j < b.len() && b[j] == a[k];
    }
    assert forall|p: int| covers(b, p) implies covers(a, p) by {
        let k = choose|k: int| 0 <= k < b.len() && (#[trigger] b[k]).0 <= p < b[k].1;
        assert(b.contains(b[k]));
        assert(a.contains(b[k]));
        let j = choose|j: int| 0 <= j < a.len() && a[j] == b[k];
    }
}

/// Coalescing a sorted list keeps every end within a bound that all input
/// ends respect.
pub(crate) proof fn lemma_merged_within(sorted: Seq<(u64, u64)>, source_length: u64)
    requires
        sorted_by(sorted, pair_order()),
        all_nonempty(sorted),
        forall|i: int| 0 <= i < sorted.len() ==> (#[trigger] sorted[i]).1 <= source_length,
    ensures
        all_nonempty(merge_sorted(sorted)),
        separated(merge_sorted(sorted)),
        forall|p: int| covers(merge_sorted(sorted), p) <==> covers(sorted, p),
        forall|i: int|
            0 <= i < merge_sorted(sorted).len() ==> (#[trigger] merge_sorted(sorted)[i]).1
                <= source_length,
{
    lemma_merge_sorted_normalizes(sorted);
    let merged = merge_sorted(sorted);
    assert forall|i: int| 0 <= i < merged.len() implies (#[trigger] merged[i]).1 <= source_length by {
        let p = merged[i].1 - 1;
        assert(covers(merged, p)) by {
            assert(merged[i].0 <= p < merged[i].1);
        }
        assert(covers(sorted, p));
        let k = choose|k: int| 0 <= k < sorted.len() && (#[trigger] sorted[k]).0 <= p < sorted[k].1;
        assert(sorted[k].1 <= source_length);
    }
}

/// An exact half-open source range `start..end` with `start <= end`.
#[derive(Clone, Copy, Debug, PartialEq, Eq, Structural)]
pub struct ByteRange {
    pub start: u64,
    pub end: u64,
}

/// Why a byte range cannot be formed.
#[derive(Clone, Copy, Debug, PartialEq, Eq, Structural)]
pub enum RangeError {
    /// The start lies after the end.
    Reversed,
}

impl RangeError {
    /// A readable description of the error.
    pub fn message(self) -> (message: String)
        ensures
            message@ == "byte range start exceeds its end"@,
    {
        "byte range start exceeds its end".to_owned()
    }
}

impl ByteRange {
    /// Forms `start..end`, rejecting a start after the end.
    pub fn new(start: u64, end: u64) -> (result: Result<ByteRange, RangeError>)
        ensures
            result is Ok <==> start <= end,
            result matches Ok(range) ==> range == (ByteRange { start, end }),
    {
        if start > end {
            Err(RangeError::Reversed)
        } else {
            Ok(ByteRange { start, end })
        }
    }

    /// Number of bytes in the range.
    pub fn len(self) -> (len: u64)
        requires
            self.start <= self.end,
        ensures
            len == self.end - self.start,
    {
        self.end - self.start
    }

    /// Whether `offset` lies in the range.
    pub fn contains(self, offset: u64) -> (inside: bool)
        ensures
            inside == (self.start <= offset && offset < self.end),
    {
        self.start <= offset && offset < self.end
    }
}

} // verus!
