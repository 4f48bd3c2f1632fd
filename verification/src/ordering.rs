//! Stable sorting of items by a rank and a name.
//!
//! Listings order their entries by a small rank (directories before files,
//! say) and then by name; search results and archive members by name alone.
//! The sort keeps the input order of items whose keys are equal, so its
//! result is determined by its input.

use vstd::prelude::*;
use crate::text::{chars_le, lex_le, lemma_lex_le_antisym, lemma_lex_le_total, lemma_lex_le_trans};

verus! {

/// A sort key: items are ordered by `rank`, then by `name`.
pub struct SortKey {
    pub rank: u8,
    pub name: Vec<char>,
}

/// What a sort key stands for.
pub struct KeyModel {
    pub rank: int,
    pub name: Seq<char>,
}

impl View for SortKey {
    type V = KeyModel;

    open spec fn view(&self) -> KeyModel {
        KeyModel { rank: self.rank as int, name: self.name@ }
    }
}

/// The keys that a vector of sort keys stands for.
pub open spec fn keys_view(keys: Seq<SortKey>) -> Seq<KeyModel> {
    keys.map_values(|k: SortKey| k@)
}

/// `a` sorts strictly before `b`.
pub open spec fn key_lt(a: KeyModel, b: KeyModel) -> bool {
    a.rank < b.rank || (a.rank == b.rank && lex_le(a.name, b.name) && a.name != b.name)
}

/// `a` sorts before `b`, or the two keys are equal.
pub open spec fn key_le(a: KeyModel, b: KeyModel) -> bool {
    key_lt(a, b) || a == b
}

/// Among the items keyed by `keys`, the one at index `i` comes before the
/// one at index `j` in the stable order: by key, and by index on equal keys.
pub open spec fn precedes(keys: Seq<KeyModel>, i: int, j: int) -> bool {
    key_lt(keys[i], keys[j]) || (keys[i] == keys[j] && i < j)
}

/// `after` is `before` rearranged by `perm` into the stable order of `keys`.
pub open spec fn is_stable_sort_by<T>(
    before: Seq<T>,
    keys: Seq<KeyModel>,
    after: Seq<T>,
    perm: Seq<int>,
) -> bool {
    &&& keys.len() == before.len()
    &&& after.len() == before.len()
    &&& perm.len() == before.len()
    &&& forall|i: int| 0 <= i < perm.len() ==> 0 <= #[trigger] perm[i] < before.len()
    &&& forall|i: int, j: int|
        0 <= i < j < perm.len() ==> precedes(keys, #[trigger] perm[i], #[trigger] perm[j])
    &&& forall|i: int| 0 <= i < after.len() ==> #[trigger] after[i] == before[perm[i]]
}

/// `after` is the stable sort of `before` by `keys`.
pub open spec fn is_stable_sort<T>(before: Seq<T>, keys: Seq<KeyModel>, after: Seq<T>) -> bool {
    exists|perm: Seq<int>| is_stable_sort_by(before, keys, after, perm)
}

/// Any two keys are comparable: one sorts before the other or they are equal.
pub proof fn lemma_key_trichotomy(a: KeyModel, b: KeyModel)
    ensures
        key_lt(a, b) || a == b || key_lt(b, a),
{
    lemma_lex_le_total(a.name, b.name);
}

/// A key never sorts strictly before one that sorts before it.
pub proof fn lemma_key_lt_asym(a: KeyModel, b: KeyModel)
    requires
        key_lt(a, b),
    ensures
        !key_lt(b, a),
        a != b,
{
    if a.rank == b.rank && lex_le(b.name, a.name) {
        lemma_lex_le_antisym(a.name, b.name);
    }
}

/// The strict key order is transitive.
pub proof fn lemma_key_lt_trans(a: KeyModel, b: KeyModel, c: KeyModel)
    requires
        key_lt(a, b),
        key_lt(b, c),
    ensures
        key_lt(a, c),
{
    if a.rank == b.rank && b.rank == c.rank {
        lemma_lex_le_trans(a.name, b.name, c.name);
        if a.name == c.name {
            lemma_lex_le_antisym(a.name, b.name);
        }
    }
}

/// The stable order on indices is transitive.
pub proof fn lemma_precedes_trans(keys: Seq<KeyModel>, i: int, j: int, k: int)
    requires
        precedes(keys, i, j),
        precedes(keys, j, k),
    ensures
        precedes(keys, i, k),
{
    if key_lt(keys[i], keys[j]) && key_lt(keys[j], keys[k]) {
        lemma_key_lt_trans(keys[i], keys[j], keys[k]);
    }
}

/// In a stable sort the keys ascend.
pub proof fn lemma_stable_sort_ascends<T>(
    before: Seq<T>,
    keys: Seq<KeyModel>,
    after: Seq<T>,
    perm: Seq<int>,
    i: int,
    j: int,
)
    requires
        is_stable_sort_by(before, keys, after, perm),
        0 <= i <= j < after.len(),
    ensures
        key_le(keys[perm[i]], keys[perm[j]]),
{
    if i < j {
        assert(precedes(keys, perm[i], perm[j]));
    }
}

/// In a stable sort no index is used twice, so every item of the input
/// appears in the output exactly as often as it did.
pub proof fn lemma_stable_sort_injective<T>(
    before: Seq<T>,
    keys: Seq<KeyModel>,
    after: Seq<T>,
    perm: Seq<int>,
    i: int,
    j: int,
)
    requires
        is_stable_sort_by(before, keys, after, perm),
        0 <= i < j < after.len(),
    ensures
        perm[i] != perm[j],
{
    assert(precedes(keys, perm[i], perm[j]));
    if key_lt(keys[perm[i]], keys[perm[j]]) {
        lemma_key_lt_asym(keys[perm[i]], keys[perm[j]]);
    }
}

/// The indices of a stable sort cover every index of the input: every
/// item of the input appears in the output.
pub proof fn lemma_stable_sort_covers<T>(
    before: Seq<T>,
    keys: Seq<KeyModel>,
    after: Seq<T>,
    perm: Seq<int>,
    v: int,
)
    requires
        is_stable_sort_by(before, keys, after, perm),
        0 <= v < before.len(),
    ensures
        exists|j: int| 0 <= j < perm.len() && perm[j] == v,
{
    let n = before.len() as int;
    assert(perm.no_duplicates()) by {
        assert forall|i: int, j: int|
            0 <= i < perm.len() && 0 <= j < perm.len() && i != j implies perm[i] != perm[j] by {
            if i < j {
                lemma_stable_sort_injective(before, keys, after, perm, i, j);
            } else {
                lemma_stable_sort_injective(before, keys, after, perm, j, i);
            }
        }
    }
    perm.unique_seq_to_set();
    vstd::set_lib::lemma_int_range(0, n);
    let all = vstd::set_lib::set_int_range(0, n);
    assert(perm.to_set().subset_of(all)) by {
        assert forall|x: int| perm.to_set().contains(x) implies all.contains(x) by {
            let j = choose|j: int| 0 <= j < perm.len() && perm[j] == x;
        }
    }
    vstd::set_lib::lemma_len_subset(perm.to_set(), all);
    vstd::set_lib::lemma_subset_equality(perm.to_set(), all);
    assert(all.contains(v));
    assert(perm.to_set().contains(v));
    assert(perm.contains(v));
}

/// Two stable sorts of one input by the same keys take their items from
/// the same places.
proof fn lemma_stable_sorts_agree<T>(
    before: Seq<T>,
    keys: Seq<KeyModel>,
    first: Seq<T>,
    p: Seq<int>,
    second: Seq<T>,
    q: Seq<int>,
    i: int,
)
    requires
        is_stable_sort_by(before, keys, first, p),
        is_stable_sort_by(before, keys, second, q),
        0 <= i < before.len(),
    ensures
        p[i] == q[i],
    decreases i,
{
    assert forall|k: int| 0 <= k < i implies p[k] == q[k] by {
        lemma_stable_sorts_agree(before, keys, first, p, second, q, k);
    }
    if p[i] != q[i] {
        lemma_key_trichotomy(keys[p[i]], keys[q[i]]);
        if precedes(keys, p[i], q[i]) {
            // the item at `p[i]` has to come somewhere in the second sort
            lemma_stable_sort_covers(before, keys, second, q, p[i]);
            let j = choose|j: int| 0 <= j < q.len() && q[j] == p[i];
            if j < i {
                lemma_stable_sort_injective(before, keys, first, p, j, i);
            } else {
                assert(precedes(keys, q[i], q[j]));
                if key_lt(keys[p[i]], keys[q[i]]) {
                    lemma_key_lt_asym(keys[p[i]], keys[q[i]]);
                }
            }
        } else {
            assert(precedes(keys, q[i], p[i]));
            lemma_stable_sort_covers(before, keys, first, p, q[i]);
            let j = choose|j: int| 0 <= j < p.len() && p[j] == q[i];
            if j < i {
                lemma_stable_sort_injective(before, keys, second, q, j, i);
            } else {
                assert(precedes(keys, p[i], p[j]));
                if key_lt(keys[q[i]], keys[p[i]]) {
                    lemma_key_lt_asym(keys[q[i]], keys[p[i]]);
                }
            }
        }
    }
}

/// The stable sort of an input by given keys is unique: sorting the same
/// items twice gives the same sequence.
pub proof fn lemma_stable_sort_unique<T>(
    before: Seq<T>,
    keys: Seq<KeyModel>,
    first: Seq<T>,
    second: Seq<T>,
)
    requires
        is_stable_sort(before, keys, first),
        is_stable_sort(before, keys, second),
    ensures
        first == second,
{
    let p = choose|p: Seq<int>| is_stable_sort_by(before, keys, first, p);
    let q = choose|q: Seq<int>| is_stable_sort_by(before, keys, second, q);
    assert forall|i: int| 0 <= i < first.len() implies first[i] == second[i] by {
        lemma_stable_sorts_agree(before, keys, first, p, second, q, i);
    }
    assert(first =~= second);
}

/// A stable sort of values is a stable sort of what they stand for:
/// where `before_view` and `after_view` hold, place by place, what the
/// values of `before` and `after` stand for, and equal values stand for
/// the same, `after_view` is the stable sort of `before_view`.
pub proof fn lemma_stable_sort_of_views<T, V>(
    before: Seq<T>,
    keys: Seq<KeyModel>,
    after: Seq<T>,
    before_view: Seq<V>,
    after_view: Seq<V>,
)
    requires
        is_stable_sort(before, keys, after),
        before_view.len() == before.len(),
        after_view.len() == after.len(),
        forall|i: int, j: int|
            0 <= i < after.len() && 0 <= j < before.len() && after[i] == before[j]
                ==> #[trigger] after_view[i] == #[trigger] before_view[j],
    ensures
        is_stable_sort(before_view, keys, after_view),
{
    let perm = choose|perm: Seq<int>| is_stable_sort_by(before, keys, after, perm);
    assert forall|i: int| 0 <= i < after_view.len() implies #[trigger] after_view[i]
        == before_view[perm[i]] by {
        assert(after[i] == before[perm[i]]);
    }
    assert(is_stable_sort_by(before_view, keys, after_view, perm));
}

/// Whether `a` sorts strictly before `b`.
pub fn key_before(a: &SortKey, b: &SortKey) -> (r: bool)
    ensures
        r == key_lt(a@, b@),
{
    if a.rank != b.rank {
        return a.rank < b.rank;
    }
    let b_le_a = chars_le(&b.name, &a.name);
    proof {
        lemma_lex_le_total(a.name@, b.name@);
        if b_le_a && lex_le(a.name@, b.name@) {
            lemma_lex_le_antisym(a.name@, b.name@);
        }
        if a.name@ == b.name@ {
            crate::text::lemma_lex_le_refl(a.name@);
        }
    }
    !b_le_a
}

/// Sorts `items` by `keys`, where `keys[i]` is the key of `items[i]`,
/// keeping the order of items with equal keys.
pub fn stable_sort_by_key<T>(items: Vec<T>, keys: Vec<SortKey>) -> (sorted: Vec<T>)
    requires
        items.len() == keys.len(),
    ensures
        is_stable_sort(items@, keys_view(keys@), sorted@),
{
    let ghost items0 = items@;
    let ghost keys0 = keys_view(keys@);
    let mut items = items;
    let mut keys = keys;
    let mut sorted: Vec<T> = Vec::new();
    let mut sorted_keys: Vec<SortKey> = Vec::new();
    let ghost mut perm: Seq<int> = Seq::empty();
    while items.len() > 0
        invariant
            keys0.len() == items0.len(),
            items.len() == keys.len(),
            items.len() <= items0.len(),
            items@ == items0.take(items.len() as int),
            keys_view(keys@) == keys0.take(keys.len() as int),
            sorted.len() == items0.len() - items.len(),
            sorted_keys.len() == sorted.len(),
            perm.len() == sorted.len(),
            forall|i: int| 0 <= i < perm.len() ==> items.len() <= #[trigger] perm[i] < items0.len(),
            forall|i: int, j: int|
                0 <= i < j < perm.len() ==> precedes(keys0, #[trigger] perm[i], #[trigger] perm[j]),
            forall|i: int| 0 <= i < sorted.len() ==> #[trigger] sorted@[i] == items0[perm[i]],
            forall|i: int| 0 <= i < sorted_keys.len() ==> (#[trigger] sorted_keys@[i])@ == keys0[perm[i]],
        decreases items.len(),
    {
        let ghost k: int = items.len() - 1;
        let ghost old_perm = perm;
        let ghost old_sorted = sorted@;
        let ghost old_sorted_keys = sorted_keys@;
        let ghost old_keys = keys@;
        let item = items.pop().unwrap();
        let key = keys.pop().unwrap();
        proof {
            assert(item == items0[k]);
            assert(keys_view(old_keys)[k] == keys0.take(k + 1)[k]);
            assert(key@ == keys0[k]);
            assert(items@ =~= items0.take(k));
            assert(keys_view(keys@) =~= keys0.take(k));
        }
        let mut pos: usize = 0;
        while pos < sorted_keys.len() && key_before(&sorted_keys[pos], &key)
            invariant
                pos <= sorted_keys.len(),
                sorted_keys.len() == perm.len(),
                key@ == keys0[k],
                forall|i: int| 0 <= i < sorted_keys.len() ==> (#[trigger] sorted_keys@[i])@ == keys0[perm[i]],
                forall|i: int| 0 <= i < pos ==> key_lt(keys0[#[trigger] perm[i]], keys0[k]),
            decreases sorted_keys.len() - pos,
        {
            pos += 1;
        }
        proof {
            assert forall|j: int| pos <= j < perm.len() implies precedes(keys0, k, #[trigger] perm[j]) by {
                let p = pos as int;
                assert(!key_lt(keys0[perm[p]], keys0[k]));
                lemma_key_trichotomy(keys0[perm[p]], keys0[k]);
                assert(precedes(keys0, k, perm[p]));
                if p < j {
                    assert(precedes(keys0, perm[p], perm[j]));
                    lemma_precedes_trans(keys0, k, perm[p], perm[j]);
                }
            }
        }
        sorted.insert(pos, item);
        sorted_keys.insert(pos, key);
        proof {
            perm = perm.insert(pos as int, k);
            assert forall|i: int, j: int| 0 <= i < j < perm.len() implies precedes(
                keys0,
                #[trigger] perm[i],
                #[trigger] perm[j],
            ) by {
                let p = pos as int;
                if i < p && j < p {
                    assert(perm[i] == old_perm[i] && perm[j] == old_perm[j]);
                } else if i < p && j == p {
                    assert(perm[i] == old_perm[i]);
                } else if i < p && j > p {
                    assert(perm[i] == old_perm[i] && perm[j] == old_perm[j - 1]);
                } else if i == p {
                    assert(perm[j] == old_perm[j - 1]);
                } else {
                    assert(perm[i] == old_perm[i - 1] && perm[j] == old_perm[j - 1]);
                }
            }
            assert forall|i: int| 0 <= i < sorted.len() implies #[trigger] sorted@[i] == items0[perm[i]] by {
                let p = pos as int;
                if i < p {
                    assert(sorted@[i] == old_sorted[i] && perm[i] == old_perm[i]);
                } else if i > p {
                    assert(sorted@[i] == old_sorted[i - 1] && perm[i] == old_perm[i - 1]);
                }
            }
            assert forall|i: int| 0 <= i < sorted_keys.len() implies (#[trigger] sorted_keys@[i])@
                == keys0[perm[i]] by {
                let p = pos as int;
                if i < p {
                    assert(sorted_keys@[i] == old_sorted_keys[i] && perm[i] == old_perm[i]);
                } else if i > p {
                    assert(sorted_keys@[i] == old_sorted_keys[i - 1] && perm[i] == old_perm[i - 1]);
                }
            }
            assert forall|i: int| 0 <= i < perm.len() implies items.len() <= #[trigger] perm[i]
                < items0.len() by {
                let p = pos as int;
                if i < p {
                    assert(perm[i] == old_perm[i]);
                } else if i > p {
                    assert(perm[i] == old_perm[i - 1]);
                }
            }
        }
    }
    proof {
        assert(is_stable_sort_by(items0, keys0, sorted@, perm));
    }
    sorted
}

} // verus!
