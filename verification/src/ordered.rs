//! Lists kept in the order of their names.
//!
//! Names are ordered as Rust orders strings: byte by byte over their UTF-8
//! encoding. A list whose names strictly ascend holds no name twice and
//! stands for a map from names to items; `upsert_by_name` is the insertion
//! of such a map, `sort_by_name` a stable sort.

use vstd::prelude::*;
use vstd::utf8::{encode_utf8, encode_utf8_decode_utf8};

verus! {

/// Whether `a` comes before `b` in lexicographic order, given that the two
/// agree on their first `from` bytes.
pub open spec fn bytes_lt_from(a: Seq<u8>, b: Seq<u8>, from: int) -> bool
    decreases a.len() - from,
{
    if from < 0 || from >= b.len() {
        false
    } else if from >= a.len() {
        true
    } else if a[from] != b[from] {
        a[from] < b[from]
    } else {
        bytes_lt_from(a, b, from + 1)
    }
}

/// Whether the name `a` comes before the name `b`.
pub open spec fn name_lt(a: Seq<char>, b: Seq<char>) -> bool {
    bytes_lt_from(encode_utf8(a), encode_utf8(b), 0)
}

/// Whether the name `a` is `b` or comes before it.
pub open spec fn name_le(a: Seq<char>, b: Seq<char>) -> bool {
    a == b || name_lt(a, b)
}

/// No byte string comes before itself.
pub proof fn lemma_bytes_lt_irreflexive(a: Seq<u8>, from: int)
    ensures
        !bytes_lt_from(a, a, from),
    decreases a.len() - from,
{
    if 0 <= from < a.len() {
        lemma_bytes_lt_irreflexive(a, from + 1);
    }
}

/// Of two different byte strings that agree on their first `from` bytes,
/// exactly one comes before the other.
pub proof fn lemma_bytes_lt_connected(a: Seq<u8>, b: Seq<u8>, from: int)
    requires
        0 <= from <= a.len(),
        from <= b.len(),
        a.take(from) == b.take(from),
    ensures
        a != b ==> bytes_lt_from(a, b, from) || bytes_lt_from(b, a, from),
        !(bytes_lt_from(a, b, from) && bytes_lt_from(b, a, from)),
    decreases a.len() - from,
{
    if from < a.len() && from < b.len() {
        if a[from] == b[from] {
            assert(a.take(from + 1) =~= a.take(from).push(a[from]));
            assert(b.take(from + 1) =~= b.take(from).push(b[from]));
            lemma_bytes_lt_connected(a, b, from + 1);
        }
    } else if from == a.len() && from == b.len() {
        assert(a.take(from) =~= a);
        assert(b.take(from) =~= b);
    }
}

/// The order of byte strings is transitive.
pub proof fn lemma_bytes_lt_transitive(a: Seq<u8>, b: Seq<u8>, c: Seq<u8>, from: int)
    requires
        0 <= from,
        bytes_lt_from(a, b, from),
        bytes_lt_from(b, c, from),
    ensures
        bytes_lt_from(a, c, from),
    decreases a.len() - from,
{
    if from < a.len() && a[from] == b[from] && b[from] == c[from] {
        lemma_bytes_lt_transitive(a, b, c, from + 1);
    }
}

/// No name comes before itself.
pub proof fn lemma_name_lt_irreflexive(a: Seq<char>)
    ensures
        !name_lt(a, a),
{
    lemma_bytes_lt_irreflexive(encode_utf8(a), 0);
}

/// Of two different names exactly one comes before the other.
pub proof fn lemma_name_lt_connected(a: Seq<char>, b: Seq<char>)
    ensures
        a != b ==> name_lt(a, b) || name_lt(b, a),
        !(name_lt(a, b) && name_lt(b, a)),
{
    encode_utf8_decode_utf8(a);
    encode_utf8_decode_utf8(b);
    assert(encode_utf8(a).take(0) =~= encode_utf8(b).take(0));
    lemma_bytes_lt_connected(encode_utf8(a), encode_utf8(b), 0);
}

/// The order of names is transitive.
pub proof fn lemma_name_lt_transitive(a: Seq<char>, b: Seq<char>, c: Seq<char>)
    requires
        name_lt(a, b),
        name_lt(b, c),
    ensures
        name_lt(a, c),
{
    lemma_bytes_lt_transitive(encode_utf8(a), encode_utf8(b), encode_utf8(c), 0);
}

/// Whether the name `a` comes before the name `b`.
pub fn name_before(a: &str, b: &str) -> (before: bool)
    ensures
        before == name_lt(a@, b@),
{
    let left = a.as_bytes();
    let right = b.as_bytes();
    let mut index: usize = 0;
    loop
        invariant
            left@ == encode_utf8(a@),
            right@ == encode_utf8(b@),
            index <= left@.len(),
            index <= right@.len(),
            name_lt(a@, b@) == bytes_lt_from(left@, right@, index as int),
        decreases left@.len() - index,
    {
        if index >= right.len() {
            return false;
        }
        if index >= left.len() {
            return true;
        }
        if left[index] != right[index] {
            return left[index] < right[index];
        }
        index += 1;
    }
}

/// An item that goes by a name.
pub trait Named: View + Sized {
    /// The name of an item, read from its model.
    spec fn name_of(model: Self::V) -> Seq<char>;

    /// The name of the item.
    fn name(&self) -> (name: &String)
        ensures
            name@ == Self::name_of(self@),
    ;
}

/// The models of a list of items.
pub open spec fn models_of<T: Named>(items: Seq<T>) -> Seq<T::V> {
    items.map_values(|item: T| item@)
}

/// Whether no item of the list comes after a later one.
pub open spec fn ordered<T: Named>(models: Seq<T::V>) -> bool {
    forall|i: int, j: int|
        0 <= i < j < models.len() ==> name_le(
            T::name_of(#[trigger] models[i]),
            T::name_of(#[trigger] models[j]),
        )
}

/// Whether every item of the list comes before all later ones: the names
/// ascend and none occurs twice.
pub open spec fn strictly_ordered<T: Named>(models: Seq<T::V>) -> bool {
    forall|i: int, j: int|
        0 <= i < j < models.len() ==> name_lt(
            T::name_of(#[trigger] models[i]),
            T::name_of(#[trigger] models[j]),
        )
}

/// Whether some item of the list goes by `name`.
pub open spec fn has_name<T: Named>(models: Seq<T::V>, name: Seq<char>) -> bool {
    exists|i: int| 0 <= i < models.len() && T::name_of(#[trigger] models[i]) == name
}

/// Where an item named `name` goes into a list in order: behind every item
/// that does not come after it.
pub open spec fn insertion_point<T: Named>(models: Seq<T::V>, name: Seq<char>) -> int
    decreases models.len(),
{
    if models.len() == 0 {
        0
    } else if name_lt(name, T::name_of(models.last())) {
        insertion_point::<T>(models.drop_last(), name)
    } else {
        models.len() as int
    }
}

/// The list with `item` put in at its insertion point.
pub open spec fn insert_in_order<T: Named>(models: Seq<T::V>, item: T::V) -> Seq<T::V> {
    models.insert(insertion_point::<T>(models, T::name_of(item)), item)
}

/// The list sorted by name, items of one name in the order they had.
pub open spec fn sorted_by_name<T: Named>(models: Seq<T::V>) -> Seq<T::V>
    decreases models.len(),
{
    if models.len() == 0 {
        models
    } else {
        insert_in_order::<T>(sorted_by_name::<T>(models.drop_last()), models.last())
    }
}

/// The list with `item` in the place of the item of its name, or put in at
/// its insertion point where the list has no item of that name.
pub open spec fn upserted<T: Named>(models: Seq<T::V>, item: T::V) -> Seq<T::V> {
    let at = insertion_point::<T>(models, T::name_of(item));
    if at > 0 && T::name_of(models[at - 1]) == T::name_of(item) {
        models.update(at - 1, item)
    } else {
        models.insert(at, item)
    }
}

/// The insertion point lies within the list; in an ordered list no item
/// before it comes after the name, and every item from it on does.
pub proof fn lemma_insertion_point<T: Named>(models: Seq<T::V>, name: Seq<char>)
    ensures
        0 <= insertion_point::<T>(models, name) <= models.len(),
        forall|i: int|
            insertion_point::<T>(models, name) <= i < models.len() ==> name_lt(
                name,
                T::name_of(#[trigger] models[i]),
            ),
        ordered::<T>(models) ==> forall|i: int|
            0 <= i < insertion_point::<T>(models, name) ==> name_le(
                T::name_of(#[trigger] models[i]),
                name,
            ),
    decreases models.len(),
{
    if models.len() > 0 {
        if name_lt(name, T::name_of(models.last())) {
            let front = models.drop_last();
            let at = insertion_point::<T>(front, name);
            lemma_insertion_point::<T>(front, name);
            assert forall|i: int| at <= i < models.len() implies name_lt(
                name,
                T::name_of(#[trigger] models[i]),
            ) by {
                if i < front.len() {
                    assert(models[i] == front[i]);
                }
            }
            if ordered::<T>(models) {
                assert forall|i: int, j: int| 0 <= i < j < front.len() implies name_le(
                    T::name_of(#[trigger] front[i]),
                    T::name_of(#[trigger] front[j]),
                ) by {
                    assert(front[i] == models[i] && front[j] == models[j]);
                }
                assert forall|i: int| 0 <= i < at implies name_le(
                    T::name_of(#[trigger] models[i]),
                    name,
                ) by {
                    assert(models[i] == front[i]);
                }
            }
        } else if ordered::<T>(models) {
            let top = T::name_of(models.last());
            lemma_name_lt_connected(name, top);
            assert forall|i: int| 0 <= i < models.len() implies name_le(
                T::name_of(#[trigger] models[i]),
                name,
            ) by {
                if i < models.len() - 1 {
                    assert(name_le(T::name_of(models[i]), T::name_of(models[models.len() - 1])));
                    if T::name_of(models[i]) != top && top != name {
                        lemma_name_lt_transitive(T::name_of(models[i]), top, name);
                    }
                }
            }
        }
    }
}

/// Putting an item into an ordered list at its insertion point keeps the
/// list ordered.
pub proof fn lemma_insert_in_order<T: Named>(models: Seq<T::V>, item: T::V)
    requires
        ordered::<T>(models),
    ensures
        ordered::<T>(insert_in_order::<T>(models, item)),
        insert_in_order::<T>(models, item).to_multiset() == models.to_multiset().insert(item),
{
    let name = T::name_of(item);
    let at = insertion_point::<T>(models, name);
    lemma_insertion_point::<T>(models, name);
    let after = models.insert(at, item);
    assert forall|i: int, j: int| 0 <= i < j < after.len() implies name_le(
        T::name_of(#[trigger] after[i]),
        T::name_of(#[trigger] after[j]),
    ) by {
        if j < at {
            assert(after[i] == models[i] && after[j] == models[j]);
        } else if j == at {
            assert(after[i] == models[i]);
        } else if i == at {
            assert(after[j] == models[j - 1]);
        } else if i < at {
            assert(after[i] == models[i] && after[j] == models[j - 1]);
        } else {
            assert(after[i] == models[i - 1] && after[j] == models[j - 1]);
        }
    }
    vstd::seq_lib::to_multiset_insert(models, at, item);
}

/// A list sorted by name is ordered and holds the items it held before,
/// each as often as before.
pub proof fn lemma_sorted_by_name<T: Named>(models: Seq<T::V>)
    ensures
        ordered::<T>(sorted_by_name::<T>(models)),
        sorted_by_name::<T>(models).to_multiset() == models.to_multiset(),
        sorted_by_name::<T>(models).len() == models.len(),
    decreases models.len(),
{
    if models.len() > 0 {
        let rest = sorted_by_name::<T>(models.drop_last());
        lemma_sorted_by_name::<T>(models.drop_last());
        lemma_insert_in_order::<T>(rest, models.last());
        lemma_insertion_point::<T>(rest, T::name_of(models.last()));
        assert(models.drop_last().push(models.last()) =~= models);
        vstd::seq_lib::to_multiset_build(models.drop_last(), models.last());
    }
}

/// In a list of ascending names, putting an item in the place of its name
/// keeps the names ascending; afterwards the list has the names it had and
/// the name of the item, holds the item under its name, and every other
/// item as before.
pub proof fn lemma_upserted<T: Named>(models: Seq<T::V>, item: T::V)
    requires
        strictly_ordered::<T>(models),
    ensures
        strictly_ordered::<T>(upserted::<T>(models, item)),
        forall|name: Seq<char>|
            has_name::<T>(upserted::<T>(models, item), name) <==> name == T::name_of(item)
                || has_name::<T>(models, name),
        forall|i: int|
            0 <= i < upserted::<T>(models, item).len() ==> #[trigger] upserted::<T>(
                models,
                item,
            )[i] == item || (T::name_of(upserted::<T>(models, item)[i]) != T::name_of(item)
                && models.contains(upserted::<T>(models, item)[i])),
        upserted::<T>(models, item).contains(item),
        forall|i: int|
            0 <= i < models.len() && T::name_of(#[trigger] models[i]) != T::name_of(item)
                ==> upserted::<T>(models, item).contains(models[i]),
{
    let name = T::name_of(item);
    let at = insertion_point::<T>(models, name);
    assert(ordered::<T>(models));
    lemma_insertion_point::<T>(models, name);
    let after = upserted::<T>(models, item);
    lemma_name_lt_irreflexive(name);
    if at > 0 && T::name_of(models[at - 1]) == name {
        assert(after == models.update(at - 1, item));
        assert forall|i: int, j: int| 0 <= i < j < after.len() implies name_lt(
            T::name_of(#[trigger] after[i]),
            T::name_of(#[trigger] after[j]),
        ) by {
            assert(name_lt(T::name_of(models[i]), T::name_of(models[j])));
        }
        assert forall|n: Seq<char>| has_name::<T>(after, n) <==> n == name || has_name::<T>(
            models,
            n,
        ) by {
            if has_name::<T>(after, n) {
                let i = choose|i: int| 0 <= i < after.len() && T::name_of(#[trigger] after[i]) == n;
                assert(T::name_of(models[i]) == n);
            }
            if n == name {
                assert(T::name_of(after[at - 1]) == n);
            }
            if has_name::<T>(models, n) {
                let i = choose|i: int|
                    0 <= i < models.len() && T::name_of(#[trigger] models[i]) == n;
                assert(T::name_of(after[i]) == n);
            }
        }
        assert forall|i: int| 0 <= i < after.len() implies #[trigger] after[i] == item || (
        T::name_of(after[i]) != name && models.contains(after[i])) by {
            if i != at - 1 {
                assert(after[i] == models[i]);
                if i < at - 1 {
                    assert(name_lt(T::name_of(models[i]), T::name_of(models[at - 1])));
                } else {
                    assert(name_lt(T::name_of(models[at - 1]), T::name_of(models[i])));
                }
            }
        }
        assert(after[at - 1] == item);
        assert forall|i: int|
            0 <= i < models.len() && T::name_of(#[trigger] models[i])
                != name implies after.contains(models[i]) by {
            assert(after[i] == models[i]);
        }
    } else {
        assert(after == models.insert(at, item));
        assert forall|i: int| 0 <= i < at implies name_lt(
            T::name_of(#[trigger] models[i]),
            name,
        ) by {
            if T::name_of(models[i]) == name {
                if i < at - 1 {
                    assert(name_lt(T::name_of(models[i]), T::name_of(models[at - 1])));
                    assert(name_le(T::name_of(models[at - 1]), name));
                    lemma_name_lt_connected(name, T::name_of(models[at - 1]));
                }
            }
        }
        assert forall|i: int, j: int| 0 <= i < j < after.len() implies name_lt(
            T::name_of(#[trigger] after[i]),
            T::name_of(#[trigger] after[j]),
        ) by {
            if j < at {
                assert(after[i] == models[i] && after[j] == models[j]);
            } else if j == at {
                assert(after[i] == models[i]);
            } else if i == at {
                assert(after[j] == models[j - 1]);
            } else if i < at {
                assert(after[i] == models[i] && after[j] == models[j - 1]);
            } else {
                assert(after[i] == models[i - 1] && after[j] == models[j - 1]);
            }
        }
        assert forall|n: Seq<char>| has_name::<T>(after, n) <==> n == name || has_name::<T>(
            models,
            n,
        ) by {
            if has_name::<T>(after, n) {
                let i = choose|i: int| 0 <= i < after.len() && T::name_of(#[trigger] after[i]) == n;
                if i < at {
                    assert(T::name_of(models[i]) == n);
                } else if i > at {
                    assert(T::name_of(models[i - 1]) == n);
                }
            }
            if n == name {
                assert(T::name_of(after[at]) == n);
            }
            if has_name::<T>(models, n) {
                let i = choose|i: int|
                    0 <= i < models.len() && T::name_of(#[trigger] models[i]) == n;
                if i < at {
                    assert(T::name_of(after[i]) == n);
                } else {
                    assert(T::name_of(after[i + 1]) == n);
                }
            }
        }
        assert forall|i: int| 0 <= i < after.len() implies #[trigger] after[i] == item || (
        T::name_of(after[i]) != name && models.contains(after[i])) by {
            if i < at {
                assert(after[i] == models[i]);
            } else if i > at {
                assert(after[i] == models[i - 1]);
            }
        }
        assert(after[at] == item);
        assert forall|i: int|
            0 <= i < models.len() && T::name_of(#[trigger] models[i])
                != name implies after.contains(models[i]) by {
            if i < at {
                assert(after[i] == models[i]);
            } else {
                assert(after[i + 1] == models[i]);
            }
        }
    }
}

/// Where an item named `name` goes into the list.
pub fn insertion_index<T: Named>(items: &Vec<T>, name: &str) -> (at: usize)
    ensures
        at == insertion_point::<T>(models_of(items@), name@),
        at <= items@.len(),
{
    let ghost models = models_of(items@);
    let mut at: usize = items.len();
    assert(models.take(at as int) =~= models);
    while at > 0 && name_before(name, items[at - 1].name().as_str())
        invariant
            at <= items@.len(),
            models == models_of(items@),
            insertion_point::<T>(models, name@) == insertion_point::<T>(
                models.take(at as int),
                name@,
            ),
        decreases at,
    {
        assert(models.take(at as int).drop_last() =~= models.take(at - 1));
        at -= 1;
    }
    at
}

/// Sorts a list by name; items of one name keep their order.
pub fn sort_by_name<T: Named>(items: Vec<T>) -> (sorted: Vec<T>)
    ensures
        models_of(sorted@) == sorted_by_name::<T>(models_of(items@)),
{
    let ghost models = models_of(items@);
    let mut sorted: Vec<T> = Vec::new();
    assert(models_of(sorted@) =~= sorted_by_name::<T>(models.take(0)));
    for item in it: items
        invariant
            models == models_of(it.seq()),
            models_of(sorted@) == sorted_by_name::<T>(models.take(it.index() as int)),
    {
        let at = insertion_index(&sorted, item.name().as_str());
        proof {
            let done = models.take(it.index() as int);
            let next = models.take(it.index() + 1);
            assert(next.drop_last() =~= done);
            assert(next.last() == item@);
            assert(models_of(sorted@.insert(at as int, item)) =~= models_of(sorted@).insert(
                at as int,
                item@,
            ));
        }
        sorted.insert(at, item);
    }
    assert(models.take(models.len() as int) =~= models);
    sorted
}

/// Puts `item` in the place of the item of its name, or in at its insertion
/// point where the list has no item of that name.
pub fn upsert_by_name<T: Named>(items: &mut Vec<T>, item: T)
    ensures
        models_of(final(items)@) == upserted::<T>(models_of(old(items)@), item@),
{
    let at = insertion_index(items, item.name().as_str());
    let replace = at > 0 && *items[at - 1].name() == *item.name();
    if replace {
        assert(models_of(items@.update(at - 1, item)) =~= models_of(items@).update(at - 1, item@));
        items[at - 1] = item;
    } else {
        assert(models_of(items@.insert(at as int, item)) =~= models_of(items@).insert(
            at as int,
            item@,
        ));
        items.insert(at, item);
    }
}

} // verus!
