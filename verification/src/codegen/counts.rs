//! How many objects carry which label.

use crate::text::same;
use vstd::prelude::*;
use vstd::string::StrSliceExecFns;

verus! {

/// Whether `a` comes before `b` in the order of texts: the first character
/// that differs decides, and a text comes after its prefixes.
pub open spec fn before(a: Seq<char>, b: Seq<char>) -> bool
    decreases a.len(),
{
    if b.len() == 0 {
        false
    } else if a.len() == 0 {
        true
    } else if a[0] != b[0] {
        (a[0] as int) < (b[0] as int)
    } else {
        before(a.skip(1), b.skip(1))
    }
}

/// Whether a list of counts is in ascending order of its labels, each label
/// occurring once.
pub open spec fn ascending(counts: Seq<(Seq<char>, nat)>) -> bool {
    forall|i: int, j: int|
        0 <= i < j < counts.len() ==> before(#[trigger] counts[i].0, #[trigger] counts[j].0)
}

/// The counts after one more object with the label `label`.
pub open spec fn counted(counts: Seq<(Seq<char>, nat)>, label: Seq<char>) -> Seq<(Seq<char>, nat)>
    decreases counts.len(),
{
    if counts.len() == 0 {
        seq![(label, 1nat)]
    } else if counts[0].0 == label {
        counts.update(0, (label, counts[0].1 + 1))
    } else if before(label, counts[0].0) {
        seq![(label, 1nat)] + counts
    } else {
        seq![counts[0]] + counted(counts.skip(1), label)
    }
}

/// The count for `label`.
pub open spec fn count_of(counts: Seq<(Seq<char>, nat)>, label: Seq<char>) -> nat
    decreases counts.len(),
{
    if counts.len() == 0 {
        0
    } else {
        (if counts[0].0 == label {
            counts[0].1
        } else {
            0
        }) + count_of(counts.skip(1), label)
    }
}

/// Of two different texts one comes before the other, and none before
/// itself.
pub proof fn lemma_before_total(a: Seq<char>, b: Seq<char>)
    ensures
        a != b && !before(a, b) ==> before(b, a),
        !before(a, a),
    decreases a.len(),
{
    if a.len() > 0 && b.len() > 0 && a[0] == b[0] {
        lemma_before_total(a.skip(1), b.skip(1));
        assert(a =~= seq![a[0]] + a.skip(1));
        assert(b =~= seq![b[0]] + b.skip(1));
        assert(before(a, b) == before(a.skip(1), b.skip(1)));
        assert(before(b, a) == before(b.skip(1), a.skip(1)));
    }
    if a.len() > 0 {
        lemma_before_total(a.skip(1), a.skip(1));
    }
    if a.len() == 0 && b.len() == 0 {
        assert(a =~= b);
    }
}

proof fn lemma_before_transitive(a: Seq<char>, b: Seq<char>, c: Seq<char>)
    requires
        before(a, b),
        before(b, c),
    ensures
        before(a, c),
    decreases a.len(),
{
    if a.len() > 0 && a[0] == b[0] && b[0] == c[0] {
        lemma_before_transitive(a.skip(1), b.skip(1), c.skip(1));
    }
}

/// Counting an object adds one to the count of its label and changes no
/// other count.
pub proof fn law_counting_adds_one(
    counts: Seq<(Seq<char>, nat)>,
    label: Seq<char>,
    other: Seq<char>,
)
    ensures
        count_of(counted(counts, label), other) == count_of(counts, other) + if other == label {
            1nat
        } else {
            0nat
        },
    decreases counts.len(),
{
    let after = counted(counts, label);
    reveal_with_fuel(count_of, 2);
    if counts.len() == 0 {
        assert(after.skip(1) =~= Seq::empty());
    } else if counts[0].0 == label {
        assert(after.skip(1) =~= counts.skip(1));
    } else if before(label, counts[0].0) {
        assert(after.skip(1) =~= counts);
    } else {
        assert(after.skip(1) =~= counted(counts.skip(1), label));
        law_counting_adds_one(counts.skip(1), label, other);
    }
}

/// A label that comes after `low`, and labels that do, stay after it.
proof fn lemma_counted_after(counts: Seq<(Seq<char>, nat)>, label: Seq<char>, low: Seq<char>)
    requires
        before(low, label),
        forall|i: int| 0 <= i < counts.len() ==> before(low, #[trigger] counts[i].0),
    ensures
        forall|i: int|
            0 <= i < counted(counts, label).len() ==> before(
                low,
                #[trigger] counted(counts, label)[i].0,
            ),
    decreases counts.len(),
{
    let after = counted(counts, label);
    if counts.len() > 0 && counts[0].0 != label && !before(label, counts[0].0) {
        let rest = counts.skip(1);
        assert forall|i: int| 0 <= i < rest.len() implies before(low, #[trigger] rest[i].0) by {
            assert(rest[i] == counts[i + 1]);
        }
        lemma_counted_after(rest, label, low);
        assert forall|i: int| 0 <= i < after.len() implies before(low, #[trigger] after[i].0) by {
            if i > 0 {
                assert(after[i] == counted(rest, label)[i - 1]);
            }
        }
    } else if counts.len() > 0 && counts[0].0 != label {
        assert forall|i: int| 0 <= i < after.len() implies before(low, #[trigger] after[i].0) by {
            if i > 0 {
                assert(after[i] == counts[i - 1]);
            }
        }
    }
}

/// Counting keeps the counts in ascending order.
pub proof fn law_counting_keeps_order(counts: Seq<(Seq<char>, nat)>, label: Seq<char>)
    requires
        ascending(counts),
    ensures
        ascending(counted(counts, label)),
    decreases counts.len(),
{
    let after = counted(counts, label);
    if counts.len() > 0 && counts[0].0 != label {
        let head = counts[0].0;
        lemma_before_total(label, head);
        let rest = counts.skip(1);
        if before(label, head) {
            assert forall|i: int, j: int| 0 <= i < j < after.len() implies before(
                #[trigger] after[i].0,
                #[trigger] after[j].0,
            ) by {
                assert(after[j] == counts[j - 1]);
                if i > 0 {
                    assert(after[i] == counts[i - 1]);
                } else if j > 1 {
                    assert(before(counts[0].0, counts[j - 1].0));
                    lemma_before_transitive(label, head, counts[j - 1].0);
                }
            }
        } else {
            assert forall|i: int, j: int| 0 <= i < j < rest.len() implies before(
                #[trigger] rest[i].0,
                #[trigger] rest[j].0,
            ) by {
                assert(rest[i] == counts[i + 1] && rest[j] == counts[j + 1]);
            }
            law_counting_keeps_order(rest, label);
            assert forall|i: int| 0 <= i < rest.len() implies before(head, #[trigger] rest[i].0) by {
                assert(rest[i] == counts[i + 1]);
                assert(before(counts[0].0, counts[i + 1].0));
            }
            lemma_counted_after(rest, label, head);
            assert forall|i: int, j: int| 0 <= i < j < after.len() implies before(
                #[trigger] after[i].0,
                #[trigger] after[j].0,
            ) by {
                assert(after[j] == counted(rest, label)[j - 1]);
                if i > 0 {
                    assert(after[i] == counted(rest, label)[i - 1]);
                }
            }
        }
    } else if counts.len() > 0 {
        assert forall|i: int, j: int| 0 <= i < j < after.len() implies before(
            #[trigger] after[i].0,
            #[trigger] after[j].0,
        ) by {
            assert(before(counts[i].0, counts[j].0));
        }
    }
}

/// The texts and numbers of a list of counts.
pub open spec fn counts_view(counts: Seq<(String, usize)>) -> Seq<(Seq<char>, nat)> {
    counts.map_values(|c: (String, usize)| (c.0@, c.1 as nat))
}

/// Counting passes over labels that come before.
proof fn lemma_counted_skips(counts: Seq<(Seq<char>, nat)>, label: Seq<char>, n: int)
    requires
        0 <= n <= counts.len(),
        forall|k: int|
            0 <= k < n ==> (#[trigger] counts[k]).0 != label && !before(label, counts[k].0),
    ensures
        counted(counts, label) == counts.take(n) + counted(counts.skip(n), label),
    decreases n,
{
    if n > 0 {
        let rest = counts.skip(1);
        assert forall|k: int| 0 <= k < n - 1 implies (#[trigger] rest[k]).0 != label && !before(
            label,
            rest[k].0,
        ) by {
            assert(rest[k] == counts[k + 1]);
        }
        lemma_counted_skips(rest, label, n - 1);
        assert(rest.skip(n - 1) =~= counts.skip(n));
        assert(counts[0].0 != label);
        assert(seq![counts[0]] + rest.take(n - 1) =~= counts.take(n));
        assert(counted(counts, label) =~= counts.take(n) + counted(counts.skip(n), label));
    } else {
        assert(counts.skip(0) =~= counts);
        assert(counted(counts, label) =~= counts.take(0) + counted(counts.skip(0), label));
    }
}

/// No count grows by more than one.
proof fn lemma_counted_bound(counts: Seq<(Seq<char>, nat)>, label: Seq<char>, bound: nat)
    requires
        forall|k: int| 0 <= k < counts.len() ==> (#[trigger] counts[k]).1 <= bound,
    ensures
        forall|k: int|
            0 <= k < counted(counts, label).len() ==> (#[trigger] counted(counts, label)[k]).1
                <= bound + 1,
    decreases counts.len(),
{
    let after = counted(counts, label);
    if counts.len() > 0 && counts[0].0 != label && !before(label, counts[0].0) {
        let rest = counts.skip(1);
        assert forall|k: int| 0 <= k < rest.len() implies (#[trigger] rest[k]).1 <= bound by {
            assert(rest[k] == counts[k + 1]);
        }
        lemma_counted_bound(rest, label, bound);
        assert forall|k: int| 0 <= k < after.len() implies (#[trigger] after[k]).1 <= bound + 1 by {
            if k > 0 {
                assert(after[k] == counted(rest, label)[k - 1]);
            }
        }
    } else if counts.len() > 0 && counts[0].0 != label {
        assert forall|k: int| 0 <= k < after.len() implies (#[trigger] after[k]).1 <= bound + 1 by {
            if k > 0 {
                assert(after[k] == counts[k - 1]);
            }
        }
    }
}

/// Whether `a` comes before `b` in the order of texts.
fn precedes(a: &str, b: &str) -> (first: bool)
    ensures
        first == before(a@, b@),
{
    let a_len: usize = a.unicode_len();
    let b_len: usize = b.unicode_len();
    let mut i: usize = 0;
    assert(a@.skip(0) =~= a@);
    assert(b@.skip(0) =~= b@);
    while i < a_len && i < b_len
        invariant
            i <= a_len == a@.len(),
            i <= b_len == b@.len(),
            before(a@, b@) == before(a@.skip(i as int), b@.skip(i as int)),
        decreases a_len - i,
    {
        let x: char = a.get_char(i);
        let y: char = b.get_char(i);
        proof {
            assert(a@.skip(i as int)[0] == x);
            assert(b@.skip(i as int)[0] == y);
            assert(a@.skip(i as int).skip(1) =~= a@.skip(i + 1));
            assert(b@.skip(i as int).skip(1) =~= b@.skip(i + 1));
        }
        if x != y {
            return (x as u32) < (y as u32);
        }
        i += 1;
    }
    i < b_len
}

/// Count one more object with the label `label`.
pub fn count_label(counts: &mut Vec<(String, usize)>, label: &str, bound: usize)
    requires
        bound < usize::MAX,
        forall|k: int| 0 <= k < old(counts)@.len() ==> (#[trigger] old(counts)@[k]).1 <= bound,
    ensures
        counts_view(final(counts)@) == counted(counts_view(old(counts)@), label@),
        forall|k: int|
            0 <= k < final(counts)@.len() ==> (#[trigger] final(counts)@[k]).1 <= bound + 1,
{
    let ghost pre = counts_view(counts@);
    let mut i: usize = 0;
    while i < counts.len() && !same(counts[i].0.as_str(), label) && !precedes(
        label,
        counts[i].0.as_str(),
    )
        invariant
            i <= counts@.len(),
            pre == counts_view(counts@),
            forall|k: int|
                0 <= k < i ==> (#[trigger] pre[k]).0 != label@ && !before(label@, pre[k].0),
            forall|k: int| 0 <= k < counts@.len() ==> (#[trigger] counts@[k]).1 <= bound,
        ensures
            i < counts@.len() ==> pre[i as int].0 == label@ || before(label@, pre[i as int].0),
        decreases counts@.len() - i,
    {
        i += 1;
    }
    let ghost rest = pre.skip(i as int);
    proof {
        lemma_counted_skips(pre, label@, i as int);
        assert forall|k: int| 0 <= k < pre.len() implies (#[trigger] pre[k]).1 <= bound by {
            assert(pre[k].1 == counts@[k].1);
        }
        lemma_counted_bound(pre, label@, bound as nat);
    }
    if i < counts.len() && same(counts[i].0.as_str(), label) {
        let n: usize = counts[i].1;
        counts.set(i, (label.to_owned(), n + 1));
        proof {
            assert(counted(rest, label@) == rest.update(0, (label@, rest[0].1 + 1)));
            assert(counts_view(counts@) =~= pre.take(i as int) + counted(rest, label@));
        }
    } else {
        counts.insert(i, (label.to_owned(), 1));
        proof {
            assert(rest.len() > 0 ==> rest[0] == pre[i as int]);
            assert(counted(rest, label@) =~= seq![(label@, 1nat)] + rest);
            assert(counts_view(counts@) =~= pre.take(i as int) + counted(rest, label@));
        }
    }
    assert forall|k: int| 0 <= k < counts@.len() implies (#[trigger] counts@[k]).1 <= bound + 1 by {
        assert(counts_view(counts@)[k].1 == counts@[k].1);
    }
}

} // verus!
