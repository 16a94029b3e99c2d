//! Sorting lists by keys made of a number and strings.

use vstd::prelude::*;

use crate::text;
use crate::text::{text_eq, text_lt};

verus! {

/// A sort key: first the group, then the name (no name comes first), then the id.
pub struct SortKey {
    pub group: usize,
    pub name: Option<String>,
    pub id: String,
}

#[verifier::ext_equal]
pub ghost struct KeyView {
    pub group: int,
    pub name: Option<Seq<char>>,
    pub id: Seq<char>,
}

impl View for SortKey {
    type V = KeyView;

    open spec fn view(&self) -> KeyView {
        KeyView {
            group: self.group as int,
            name: match self.name {
                Some(n) => Some(n@),
                None => None,
            },
            id: self.id@,
        }
    }
}

pub open spec fn keys_view(keys: Seq<SortKey>) -> Seq<KeyView> {
    keys.map_values(|k: SortKey| k@)
}

/// The order of optional names: none comes before any.
pub open spec fn name_lt(a: Option<Seq<char>>, b: Option<Seq<char>>) -> bool {
    match (a, b) {
        (None, Some(_)) => true,
        (Some(x), Some(y)) => text::lex_lt(x, y),
        _ => false,
    }
}

impl KeyView {
    /// Whether this key comes strictly before `other`.
    pub open spec fn lt(self, other: KeyView) -> bool {
        if self.group != other.group {
            self.group < other.group
        } else if self.name != other.name {
            name_lt(self.name, other.name)
        } else {
            text::lex_lt(self.id, other.id)
        }
    }
}

/// Puts index `i` into an order, behind everything whose key is not greater.
pub open spec fn placed(order: Seq<usize>, keys: Seq<KeyView>, i: usize) -> Seq<usize>
    decreases order.len(),
{
    if order.len() == 0 || !keys[i as int].lt(keys[order.last() as int]) {
        order.push(i)
    } else {
        placed(order.drop_last(), keys, i).push(order.last())
    }
}

/// The first `n` indices of those in `chosen`, sorted by their keys; equal keys keep their
/// order.
pub open spec fn sorted_prefix(chosen: Seq<usize>, keys: Seq<KeyView>, n: nat) -> Seq<usize>
    decreases n,
{
    if n == 0 {
        Seq::empty()
    } else {
        placed(sorted_prefix(chosen, keys, (n - 1) as nat), keys, chosen[n - 1])
    }
}

/// The indices in `chosen`, sorted by their keys; equal keys keep their order.
pub open spec fn sorted(chosen: Seq<usize>, keys: Seq<KeyView>) -> Seq<usize> {
    sorted_prefix(chosen, keys, chosen.len())
}

fn option_text_eq(a: &Option<String>, b: &Option<String>) -> (same: bool)
    ensures
        same == ((match *a {
            Some(x) => Some(x@),
            None => None,
        }) == (match *b {
            Some(x) => Some(x@),
            None => None,
        })),
{
    match (a, b) {
        (Some(x), Some(y)) => text_eq(x.as_str(), y.as_str()),
        (None, None) => true,
        _ => false,
    }
}

fn key_lt(a: &SortKey, b: &SortKey) -> (less: bool)
    ensures
        less == a@.lt(b@),
{
    if a.group != b.group {
        return a.group < b.group;
    }
    if !option_text_eq(&a.name, &b.name) {
        return match (&a.name, &b.name) {
            (None, Some(_)) => true,
            (Some(x), Some(y)) => text_lt(x.as_str(), y.as_str()),
            _ => false,
        };
    }
    text_lt(a.id.as_str(), b.id.as_str())
}

fn place(order: &mut Vec<usize>, keys: &Vec<SortKey>, i: usize)
    requires
        i < keys@.len(),
        forall|k: int| 0 <= k < old(order)@.len() ==> (#[trigger] old(order)@[k]) < keys@.len(),
    ensures
        final(order)@ == placed(old(order)@, keys_view(keys@), i),
        forall|k: int| 0 <= k < final(order)@.len() ==> (#[trigger] final(order)@[k])
            < keys@.len(),
{
    let ghost before = order@;
    let ghost views = keys_view(keys@);
    let mut at: usize = order.len();
    assert(before.take(at as int) =~= before);
    assert(before.skip(at as int) =~= Seq::<usize>::empty());
    while at > 0 && key_lt(&keys[i], &keys[order[at - 1]])
        invariant
            at <= before.len(),
            order@ == before,
            i < keys@.len(),
            views == keys_view(keys@),
            forall|k: int| 0 <= k < before.len() ==> (#[trigger] before[k]) < keys@.len(),
            placed(before, views, i) =~= placed(before.take(at as int), views, i) + before.skip(
                at as int,
            ),
        decreases at,
    {
        assert(before.take(at as int).drop_last() =~= before.take(at - 1));
        assert(before.skip(at - 1) =~= seq![before[at - 1]] + before.skip(at as int));
        at -= 1;
    }
    proof {
        if at > 0 {
            assert(before.take(at as int).last() == before[at - 1]);
        }
        assert(placed(before.take(at as int), views, i) =~= before.take(at as int).push(i));
    }
    order.insert(at, i);
    assert(order@ =~= placed(before, views, i));
}

/// Sorts the indices in `chosen` by their keys; equal keys keep their order.
pub fn sort_by_keys(chosen: &Vec<usize>, keys: &Vec<SortKey>) -> (order: Vec<usize>)
    requires
        forall|k: int| 0 <= k < chosen@.len() ==> (#[trigger] chosen@[k]) < keys@.len(),
    ensures
        order@ == sorted(chosen@, keys_view(keys@)),
        forall|k: int| 0 <= k < order@.len() ==> (#[trigger] order@[k]) < keys@.len(),
{
    let mut order: Vec<usize> = Vec::new();
    let mut i: usize = 0;
    while i < chosen.len()
        invariant
            i <= chosen@.len(),
            forall|k: int| 0 <= k < chosen@.len() ==> (#[trigger] chosen@[k]) < keys@.len(),
            forall|k: int| 0 <= k < order@.len() ==> (#[trigger] order@[k]) < keys@.len(),
            order@ == sorted_prefix(chosen@, keys_view(keys@), i as nat),
        decreases chosen@.len() - i,
    {
        place(&mut order, keys, chosen[i]);
        i += 1;
    }
    order
}

// ── Laws ───────────────────────────────────────────────────────────

/// The order of keys is transitive and total.
pub proof fn key_order_is_total(a: KeyView, b: KeyView, c: KeyView)
    ensures
        !(a.lt(b) && b.lt(a)),
        a.lt(b) || b.lt(a) || a == b,
        a.lt(b) && b.lt(c) ==> a.lt(c),
        !b.lt(a) && !c.lt(b) ==> !c.lt(a),
{
    text::lex_order_is_total(a.id, b.id, c.id);
    text::lex_order_is_total(c.id, b.id, a.id);
    text::lex_order_is_total(b.id, a.id, c.id);
    if a.name is Some && b.name is Some {
        text::lex_order_is_total(a.name->0, b.name->0, a.name->0);
        text::lex_order_is_total(b.name->0, a.name->0, b.name->0);
        if c.name is Some {
            text::lex_order_is_total(a.name->0, b.name->0, c.name->0);
            text::lex_order_is_total(c.name->0, b.name->0, a.name->0);
            text::lex_order_is_total(b.name->0, a.name->0, c.name->0);
            text::lex_order_is_total(b.name->0, c.name->0, a.name->0);
            text::lex_order_is_total(c.name->0, a.name->0, b.name->0);
            text::lex_order_is_total(a.name->0, c.name->0, b.name->0);
        }
    }
}

/// Whether no entry of an order has a smaller key than one before it.
pub open spec fn in_key_order(order: Seq<usize>, keys: Seq<KeyView>) -> bool {
    forall|i: int, j: int|
        0 <= i < j < order.len() ==> !keys[#[trigger] order[j] as int].lt(
            keys[#[trigger] order[i] as int],
        )
}

proof fn lemma_placed(order: Seq<usize>, keys: Seq<KeyView>, i: usize)
    requires
        in_key_order(order, keys),
    ensures
        in_key_order(placed(order, keys, i), keys),
        placed(order, keys, i).to_multiset() == order.to_multiset().insert(i),
        placed(order, keys, i).len() == order.len() + 1,
        forall|k: int| 0 <= k < placed(order, keys, i).len() ==> #[trigger] placed(order, keys, i)[k] == i || order.contains(placed(order, keys, i)[k]),
    decreases order.len(),
{
    broadcast use vstd::seq_lib::group_to_multiset_ensures;

    let after = placed(order, keys, i);
    if order.len() == 0 || !keys[i as int].lt(keys[order.last() as int]) {
        assert forall|a: int, b: int| 0 <= a < b < after.len() implies !keys[#[trigger] after[b] as int].lt(
            keys[#[trigger] after[a] as int],
        ) by {
            if b == order.len() {
                let last = order.len() - 1;
                if a < last {
                    assert(!keys[order[last] as int].lt(keys[order[a] as int]));
                }
                key_order_is_total(keys[order[a] as int], keys[order[last] as int], keys[i as int]);
            } else {
                assert(!keys[order[b] as int].lt(keys[order[a] as int]));
            }
        }
    } else {
        let front = order.drop_last();
        let rest = placed(front, keys, i);
        assert forall|a: int, b: int| 0 <= a < b < front.len() implies !keys[#[trigger] front[b] as int].lt(
            keys[#[trigger] front[a] as int],
        ) by {
            assert(!keys[order[b] as int].lt(keys[order[a] as int]));
        }
        lemma_placed(front, keys, i);
        assert(after == rest.push(order.last()));
        assert(order =~= front.push(order.last()));
        assert(after.to_multiset() =~= order.to_multiset().insert(i));
        assert forall|a: int, b: int| 0 <= a < b < after.len() implies !keys[#[trigger] after[b] as int].lt(
            keys[#[trigger] after[a] as int],
        ) by {
            if b == rest.len() {
                assert(after[a] == rest[a]);
                if rest[a] == i {
                    key_order_is_total(keys[i as int], keys[order.last() as int], keys[i as int]);
                } else {
                    let k = front.index_of(rest[a]);
                    assert(order[k] == rest[a]);
                    assert(!keys[order[order.len() - 1] as int].lt(keys[order[k] as int]));
                }
            } else {
                assert(!keys[rest[b] as int].lt(keys[rest[a] as int]));
            }
        }
        assert forall|k: int| 0 <= k < after.len() implies #[trigger] after[k] == i
            || order.contains(after[k]) by {
            if k < rest.len() {
                if rest[k] != i {
                    let m = front.index_of(rest[k]);
                    assert(order[m] == rest[k]);
                }
            } else {
                assert(order[order.len() - 1] == after[k]);
            }
        }
    }
}

proof fn lemma_sorted_prefix(chosen: Seq<usize>, keys: Seq<KeyView>, n: nat)
    requires
        n <= chosen.len(),
    ensures
        in_key_order(sorted_prefix(chosen, keys, n), keys),
        sorted_prefix(chosen, keys, n).to_multiset() == chosen.take(n as int).to_multiset(),
    decreases n,
{
    broadcast use vstd::seq_lib::group_to_multiset_ensures;

    if n == 0 {
        assert(chosen.take(0) =~= Seq::<usize>::empty());
    } else {
        lemma_sorted_prefix(chosen, keys, (n - 1) as nat);
        lemma_placed(sorted_prefix(chosen, keys, (n - 1) as nat), keys, chosen[n - 1]);
        assert(chosen.take(n as int) =~= chosen.take(n - 1).push(chosen[n - 1]));
    }
}

/// Sorting neither loses nor adds an entry, and leaves none before one with a smaller key.
pub proof fn sorting_permutes_into_order(chosen: Seq<usize>, keys: Seq<KeyView>)
    ensures
        in_key_order(sorted(chosen, keys), keys),
        sorted(chosen, keys).to_multiset() == chosen.to_multiset(),
{
    lemma_sorted_prefix(chosen, keys, chosen.len());
    assert(chosen.take(chosen.len() as int) =~= chosen);
}

/// Keys are compared by their groups first, then by their names, where having none goes first, and
/// then by their ids, in dictionary order.
pub proof fn groups_names_and_ids_decide(a: KeyView, b: KeyView)
    ensures
        a.group < b.group ==> a.lt(b) && !b.lt(a),
        a.group == b.group && a.name is None && b.name is Some ==> a.lt(b) && !b.lt(a),
        a.group == b.group && a.name is Some && b.name is Some && a.name != b.name ==> a.lt(b)
            == text::lex_lt(a.name->0, b.name->0),
        a.group == b.group && a.name == b.name ==> a.lt(b) == text::lex_lt(a.id, b.id),
{
}

} // verus!
