//! The deterministic order of siblings: by leaf name, then by full path.
//!
//! The order of a list of keys is given as a sequence of positions into the
//! list, so that the same order can be laid over scopes and over signals.

use vstd::prelude::*;
use crate::text::{lex_less, lemma_lex_total, lemma_lex_transitive, order_of, Precedence};

verus! {

/// The two texts by which an item of the hierarchy is ordered.
pub struct SortKey {
    pub name: String,
    pub path: String,
}

/// The mathematical value of a `SortKey`.
pub struct SortKeyView {
    pub name: Seq<char>,
    pub path: Seq<char>,
}

impl View for SortKey {
    type V = SortKeyView;

    open spec fn view(&self) -> SortKeyView {
        SortKeyView { name: self.name@, path: self.path@ }
    }
}

/// The views of a list of keys.
pub open spec fn key_views(keys: Seq<SortKey>) -> Seq<SortKeyView> {
    keys.map_values(|k: SortKey| k@)
}

/// `a` stands strictly before `b`: its name is smaller, or the names are
/// equal and its path is smaller.
pub open spec fn key_before(a: SortKeyView, b: SortKeyView) -> bool {
    lex_less(a.name, b.name) || (a.name == b.name && lex_less(a.path, b.path))
}

/// Places position `p` into `sorted`, behind every position whose key does
/// not stand after the key at `p`.
pub open spec fn insert_position(keys: Seq<SortKeyView>, sorted: Seq<int>, p: int) -> Seq<int>
    decreases sorted.len(),
{
    if sorted.len() == 0 {
        seq![p]
    } else if !key_before(keys[p], keys[sorted.last()]) {
        sorted.push(p)
    } else {
        insert_position(keys, sorted.drop_last(), p).push(sorted.last())
    }
}

/// The positions `0..n` of `keys`, ordered by their keys; positions with
/// equal keys keep their order.
pub open spec fn ordered_prefix(keys: Seq<SortKeyView>, n: nat) -> Seq<int>
    decreases n,
{
    if n == 0 {
        Seq::empty()
    } else {
        insert_position(keys, ordered_prefix(keys, (n - 1) as nat), n - 1)
    }
}

/// The order of siblings: all positions of `keys`, ascending by
/// (name, path), ties in their given order.
pub open spec fn sibling_order(keys: Seq<SortKeyView>) -> Seq<int> {
    ordered_prefix(keys, keys.len())
}

/// `order` lists positions of `keys` in ascending key order, and positions
/// with equal keys in ascending position order.
pub open spec fn ascending(keys: Seq<SortKeyView>, order: Seq<int>) -> bool {
    forall|i: int, j: int|
        0 <= i < j < order.len() ==> {
            &&& !key_before(keys[#[trigger] order[j]], keys[#[trigger] order[i]])
            &&& (!key_before(keys[order[i]], keys[order[j]]) ==> order[i] < order[j])
        }
}

/// `order` holds each of the positions `0..n` exactly once.
pub open spec fn lists_each_once(order: Seq<int>, n: nat) -> bool {
    &&& order.len() == n
    &&& forall|i: int| 0 <= i < order.len() ==> 0 <= #[trigger] order[i] < n
    &&& forall|i: int, j: int|
        0 <= i < j < order.len() ==> #[trigger] order[i] != #[trigger] order[j]
    &&& forall|p: int| 0 <= p < n ==> #[trigger] order.contains(p)
}

/// Of two keys, one stands before the other unless they are equal, and
/// never both.
pub proof fn lemma_key_total(a: SortKeyView, b: SortKeyView)
    ensures
        a == b ==> !key_before(a, b) && !key_before(b, a),
        a != b ==> (key_before(a, b) <==> !key_before(b, a)),
{
    lemma_lex_total(a.name, b.name);
    lemma_lex_total(a.path, b.path);
}

/// The order of keys is transitive.
pub proof fn lemma_key_transitive(a: SortKeyView, b: SortKeyView, c: SortKeyView)
    requires
        key_before(a, b),
        key_before(b, c),
    ensures
        key_before(a, c),
{
    lemma_lex_total(a.name, b.name);
    lemma_lex_total(b.name, c.name);
    if lex_less(a.name, b.name) && lex_less(b.name, c.name) {
        lemma_lex_transitive(a.name, b.name, c.name);
    } else if a.name == b.name && b.name == c.name {
        lemma_lex_transitive(a.path, b.path, c.path);
    }
}

/// "Does not stand after" is transitive as well.
pub proof fn lemma_key_not_after_transitive(a: SortKeyView, b: SortKeyView, c: SortKeyView)
    requires
        !key_before(b, a),
        !key_before(c, b),
    ensures
        !key_before(c, a),
{
    lemma_key_total(a, b);
    lemma_key_total(b, c);
    lemma_key_total(a, c);
    if key_before(c, a) {
        if a == b {
        } else if b == c {
        } else {
            lemma_key_transitive(a, b, c);
        }
    }
}

/// The index in `sorted` at which `insert_position` places `p`.
pub open spec fn insertion_index(keys: Seq<SortKeyView>, sorted: Seq<int>, p: int) -> int
    decreases sorted.len(),
{
    if sorted.len() == 0 {
        0
    } else if !key_before(keys[p], keys[sorted.last()]) {
        sorted.len() as int
    } else {
        insertion_index(keys, sorted.drop_last(), p)
    }
}

/// `insert_position` is one insertion, at `insertion_index`: behind it stand
/// only positions whose keys stand after the key at `p`, and directly in
/// front of it one whose key does not.
pub proof fn lemma_insert_position(keys: Seq<SortKeyView>, sorted: Seq<int>, p: int)
    ensures
        ({
            let j = insertion_index(keys, sorted, p);
            &&& 0 <= j <= sorted.len()
            &&& insert_position(keys, sorted, p) == sorted.insert(j, p)
            &&& forall|i: int|
                j <= i < sorted.len() ==> key_before(keys[p], keys[#[trigger] sorted[i]])
            &&& j > 0 ==> !key_before(keys[p], keys[sorted[j - 1]])
        }),
    decreases sorted.len(),
{
    let j = insertion_index(keys, sorted, p);
    if sorted.len() == 0 {
        assert(seq![p] =~= sorted.insert(0, p));
    } else if !key_before(keys[p], keys[sorted.last()]) {
        assert(sorted.push(p) =~= sorted.insert(sorted.len() as int, p));
    } else {
        let front = sorted.drop_last();
        lemma_insert_position(keys, front, p);
        assert(front.insert(j, p).push(sorted.last()) =~= sorted.insert(j, p));
        assert forall|i: int| j <= i < sorted.len() implies key_before(
            keys[p],
            keys[#[trigger] sorted[i]],
        ) by {
            if i < front.len() {
                assert(sorted[i] == front[i]);
            }
        }
        if j > 0 {
            assert(sorted[j - 1] == front[j - 1]);
        }
    }
}

/// Placing the next position into an ascending list of all earlier
/// positions gives an ascending list of all positions up to it.
proof fn lemma_insert_keeps_ascending(keys: Seq<SortKeyView>, sorted: Seq<int>, p: int)
    requires
        p >= 0,
        ascending(keys, sorted),
        lists_each_once(sorted, p as nat),
    ensures
        ascending(keys, insert_position(keys, sorted, p)),
        lists_each_once(insert_position(keys, sorted, p), (p + 1) as nat),
{
    lemma_insert_position(keys, sorted, p);
    let j = insertion_index(keys, sorted, p);
    let out = sorted.insert(j, p);
    assert forall|a: int, b: int| 0 <= a < b < out.len() implies {
        &&& !key_before(keys[#[trigger] out[b]], keys[#[trigger] out[a]])
        &&& (!key_before(keys[out[a]], keys[out[b]]) ==> out[a] < out[b])
    } by {
        if b < j {
            assert(out[a] == sorted[a] && out[b] == sorted[b]);
        } else if b == j {
            assert(out[a] == sorted[a]);
            assert(sorted[a] < p);
            if a < j - 1 {
                lemma_key_not_after_transitive(
                    keys[sorted[a]],
                    keys[sorted[j - 1]],
                    keys[p],
                );
            }
        } else if a < j {
            assert(out[a] == sorted[a] && out[b] == sorted[b - 1]);
        } else if a == j {
            assert(out[b] == sorted[b - 1]);
            lemma_key_total(keys[p], keys[sorted[b - 1]]);
        } else {
            assert(out[a] == sorted[a - 1] && out[b] == sorted[b - 1]);
        }
    }
    assert forall|i: int| 0 <= i < out.len() implies 0 <= #[trigger] out[i] < (p + 1) as nat by {
        if i < j {
            assert(out[i] == sorted[i]);
        } else if i > j {
            assert(out[i] == sorted[i - 1]);
        }
    }
    assert forall|a: int, b: int| 0 <= a < b < out.len() implies #[trigger] out[a]
        != #[trigger] out[b] by {
        if a != j && b != j {
            let a0 = if a < j { a } else { a - 1 };
            let b0 = if b < j { b } else { b - 1 };
            assert(out[a] == sorted[a0] && out[b] == sorted[b0]);
        } else if a == j {
            assert(out[b] == sorted[b - 1]);
            assert(sorted[b - 1] < p);
        } else {
            assert(out[a] == sorted[a]);
            assert(sorted[a] < p);
        }
    }
    assert forall|q: int| 0 <= q < p + 1 implies #[trigger] out.contains(q) by {
        if q == p {
            assert(out[j] == p);
        } else {
            assert(sorted.contains(q));
            let at = choose|at: int| 0 <= at < sorted.len() && sorted[at] == q;
            if at < j {
                assert(out[at] == q);
            } else {
                assert(out[at + 1] == q);
            }
        }
    }
}

/// The order of the first `n` keys is ascending and lists each of the
/// positions `0..n` exactly once.
pub proof fn lemma_ordered_prefix(keys: Seq<SortKeyView>, n: nat)
    requires
        n <= keys.len(),
    ensures
        ascending(keys, ordered_prefix(keys, n)),
        lists_each_once(ordered_prefix(keys, n), n),
    decreases n,
{
    if n > 0 {
        lemma_ordered_prefix(keys, (n - 1) as nat);
        lemma_insert_keeps_ascending(keys, ordered_prefix(keys, (n - 1) as nat), n - 1);
    }
}

/// The order of siblings is a sorted rearrangement: it lists every position
/// exactly once, ascending by (name, path), and items with equal keys stay
/// in the order in which they were given. The result therefore does not
/// depend on anything but the keys and their given order.
pub proof fn law_sibling_order_sorted(keys: Seq<SortKeyView>)
    ensures
        ascending(keys, sibling_order(keys)),
        lists_each_once(sibling_order(keys), keys.len()),
{
    lemma_ordered_prefix(keys, keys.len());
}

/// The items of `items` in sibling order under the key `key`: ascending
/// by key, items with equal keys in their given order.
pub open spec fn arranged<T>(items: Seq<T>, key: spec_fn(T) -> SortKeyView) -> Seq<T> {
    sibling_order(items.map_values(key)).map_values(|p: int| items[p])
}

/// No two items of `items` bear the same key.
pub open spec fn keys_differ<T>(items: Seq<T>, key: spec_fn(T) -> SortKeyView) -> bool {
    forall|i: int, j: int| 0 <= i < j < items.len() ==> key(#[trigger] items[i]) != key(#[trigger] items[j])
}

/// Every item of `a` is an item of `b`.
pub open spec fn all_among<T>(a: Seq<T>, b: Seq<T>) -> bool {
    forall|i: int| 0 <= i < a.len() ==> b.contains(#[trigger] a[i])
}

/// Each item stands strictly before every item behind it.
pub open spec fn strictly_ascending<T>(items: Seq<T>, key: spec_fn(T) -> SortKeyView) -> bool {
    forall|i: int, j: int|
        0 <= i < j < items.len() ==> key_before(key(#[trigger] items[i]), key(#[trigger] items[j]))
}

/// Arranging keeps the items: as many as were given, each of them, and no
/// other; and where no two items bear the same key, the arranged items
/// ascend strictly.
pub proof fn lemma_arranged<T>(items: Seq<T>, key: spec_fn(T) -> SortKeyView)
    ensures
        arranged(items, key).len() == items.len(),
        all_among(arranged(items, key), items),
        all_among(items, arranged(items, key)),
        keys_differ(items, key) ==> strictly_ascending(arranged(items, key), key),
{
    let keys = items.map_values(key);
    let order = sibling_order(keys);
    let out = arranged(items, key);
    law_sibling_order_sorted(keys);
    assert forall|i: int| 0 <= i < out.len() implies items.contains(#[trigger] out[i]) by {
        assert(items[order[i]] == out[i]);
    }
    assert forall|i: int| 0 <= i < items.len() implies out.contains(#[trigger] items[i]) by {
        assert(order.contains(i));
        let at = choose|at: int| 0 <= at < order.len() && order[at] == i;
        assert(out[at] == items[i]);
    }
    if keys_differ(items, key) {
        assert forall|i: int, j: int| 0 <= i < j < out.len() implies key_before(
            key(#[trigger] out[i]),
            key(#[trigger] out[j]),
        ) by {
            assert(out[i] == items[order[i]] && out[j] == items[order[j]]);
            assert(keys[order[i]] == key(items[order[i]]));
            assert(keys[order[j]] == key(items[order[j]]));
            assert(order[i] != order[j]);
            if order[i] < order[j] {
                assert(key(items[order[i]]) != key(items[order[j]]));
            } else {
                assert(key(items[order[j]]) != key(items[order[i]]));
            }
            lemma_key_total(keys[order[i]], keys[order[j]]);
        }
    }
}

/// Two strictly ascending lists of the same length that hold the same
/// items are the same list.
pub proof fn lemma_ascending_is_unique<T>(a: Seq<T>, b: Seq<T>, key: spec_fn(T) -> SortKeyView)
    requires
        a.len() == b.len(),
        strictly_ascending(a, key),
        strictly_ascending(b, key),
        all_among(a, b),
        all_among(b, a),
    ensures
        a == b,
    decreases a.len(),
{
    if a.len() == 0 {
        assert(a =~= b);
    } else {
        let n = a.len() as int;
        assert(b.contains(a[n - 1]));
        let k = choose|k: int| 0 <= k < n && b[k] == a[n - 1];
        assert(a.contains(b[n - 1]));
        let m = choose|m: int| 0 <= m < n && a[m] == b[n - 1];
        if k < n - 1 {
            assert(key_before(key(b[k]), key(b[n - 1])));
            if m < n - 1 {
                assert(key_before(key(a[m]), key(a[n - 1])));
                lemma_key_transitive(key(a[m]), key(a[n - 1]), key(a[m]));
            }
            lemma_key_total(key(a[m]), key(a[m]));
            assert(false);
        }
        assert(a[n - 1] == b[n - 1]);
        let front_a = a.drop_last();
        let front_b = b.drop_last();
        assert forall|i: int| 0 <= i < front_a.len() implies front_b.contains(
            #[trigger] front_a[i],
        ) by {
            assert(front_a[i] == a[i]);
            assert(b.contains(a[i]));
            let q = choose|q: int| 0 <= q < n && b[q] == a[i];
            if q == n - 1 {
                assert(key_before(key(a[i]), key(a[n - 1])));
                lemma_key_total(key(a[i]), key(a[i]));
                assert(false);
            }
            assert(front_b[q] == a[i]);
        }
        assert forall|i: int| 0 <= i < front_b.len() implies front_a.contains(
            #[trigger] front_b[i],
        ) by {
            assert(front_b[i] == b[i]);
            assert(a.contains(b[i]));
            let q = choose|q: int| 0 <= q < n && a[q] == b[i];
            if q == n - 1 {
                assert(key_before(key(b[i]), key(b[n - 1])));
                lemma_key_total(key(b[i]), key(b[i]));
                assert(false);
            }
            assert(front_a[q] == b[i]);
        }
        assert forall|i: int, j: int| 0 <= i < j < front_a.len() implies key_before(
            key(#[trigger] front_a[i]),
            key(#[trigger] front_a[j]),
        ) by {
            assert(front_a[i] == a[i] && front_a[j] == a[j]);
        }
        assert forall|i: int, j: int| 0 <= i < j < front_b.len() implies key_before(
            key(#[trigger] front_b[i]),
            key(#[trigger] front_b[j]),
        ) by {
            assert(front_b[i] == b[i] && front_b[j] == b[j]);
        }
        lemma_ascending_is_unique(front_a, front_b, key);
        assert(a =~= front_a.push(a[n - 1]));
        assert(b =~= front_b.push(b[n - 1]));
    }
}

/// The sibling order forgets the order in which the items were given:
/// two lists of the same length that hold the same items, no two of which
/// bear the same key, are arranged alike.
pub proof fn law_order_forgets_given_order<T>(
    first: Seq<T>,
    second: Seq<T>,
    key: spec_fn(T) -> SortKeyView,
)
    requires
        first.len() == second.len(),
        all_among(first, second),
        all_among(second, first),
        keys_differ(first, key),
        keys_differ(second, key),
    ensures
        arranged(first, key) == arranged(second, key),
{
    lemma_arranged(first, key);
    lemma_arranged(second, key);
    let a = arranged(first, key);
    let b = arranged(second, key);
    assert forall|i: int| 0 <= i < a.len() implies b.contains(#[trigger] a[i]) by {
        assert(first.contains(a[i]));
        let q = choose|q: int| 0 <= q < first.len() && first[q] == a[i];
        assert(second.contains(first[q]));
        let t = choose|t: int| 0 <= t < second.len() && second[t] == a[i];
        assert(b.contains(second[t]));
    }
    assert forall|i: int| 0 <= i < b.len() implies a.contains(#[trigger] b[i]) by {
        assert(second.contains(b[i]));
        let q = choose|q: int| 0 <= q < second.len() && second[q] == b[i];
        assert(first.contains(second[q]));
        let t = choose|t: int| 0 <= t < first.len() && first[t] == b[i];
        assert(a.contains(first[t]));
    }
    lemma_ascending_is_unique(a, b, key);
}

/// Whether `a` stands strictly before `b`.
pub fn stands_before(a: &SortKey, b: &SortKey) -> (r: bool)
    ensures
        r == key_before(a@, b@),
{
    proof {
        lemma_lex_total(a.name@, b.name@);
        lemma_lex_total(a.path@, b.path@);
    }
    match order_of(a.name.as_str(), b.name.as_str()) {
        Precedence::Before => true,
        Precedence::After => false,
        Precedence::Same => match order_of(a.path.as_str(), b.path.as_str()) {
            Precedence::Before => true,
            _ => false,
        },
    }
}

/// The positions that a vector of indices holds.
pub open spec fn positions(order: Seq<usize>) -> Seq<int> {
    order.map_values(|p: usize| p as int)
}

/// Computes the order of siblings for `keys`.
pub fn order_siblings(keys: &Vec<SortKey>) -> (r: Vec<usize>)
    ensures
        positions(r@) == sibling_order(key_views(keys@)),
{
    let ghost views = key_views(keys@);
    let mut order: Vec<usize> = Vec::new();
    let mut p: usize = 0;
    proof {
        assert(positions(order@) =~= ordered_prefix(views, 0));
    }
    while p < keys.len()
        invariant
            0 <= p <= keys.len(),
            views == key_views(keys@),
            positions(order@) == ordered_prefix(views, p as nat),
        decreases keys.len() - p,
    {
        let ghost held = positions(order@);
        proof {
            lemma_ordered_prefix(views, p as nat);
            lemma_insert_position(views, held, p as int);
            assert(held.len() == order@.len());
        }
        let mut j: usize = order.len();
        proof {
            assert(held.take(j as int) =~= held);
        }
        while j > 0 && stands_before(&keys[p], &keys[order[j - 1]])
            invariant
                0 <= j <= order.len(),
                p < keys.len(),
                views == key_views(keys@),
                held == positions(order@),
                held.len() == order@.len(),
                lists_each_once(held, p as nat),
                insertion_index(views, held, p as int) == insertion_index(
                    views,
                    held.take(j as int),
                    p as int,
                ),
            decreases j,
        {
            proof {
                let front = held.take(j as int);
                assert(front.last() == held[j - 1]);
                assert(held[j - 1] == order@[j - 1] as int);
                assert(front.drop_last() =~= held.take(j - 1));
            }
            j -= 1;
        }
        proof {
            let front = held.take(j as int);
            if j > 0 {
                assert(front.last() == held[j - 1]);
                assert(held[j - 1] == order@[j - 1] as int);
                assert(0 <= held[j - 1] < p);
            }
            assert(insertion_index(views, held, p as int) == j);
        }
        order.insert(j, p);
        proof {
            assert(positions(order@) =~= held.insert(j as int, p as int));
        }
        p += 1;
    }
    order
}

} // verus!
