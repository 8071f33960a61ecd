//! Properties that hold across catalog operations.
use vstd::prelude::*;
use crate::db::{namespace_at, StoreModel};
use crate::namespace::{
    conflicting, create_refused, removal_split, delete_error, namespace_key, removal_report, store_after_create as store_after_namespace_create,
    store_after_delete as store_after_namespace_delete, store_after_update, update_error, updated_key_set,
};
use crate::result::ErrorType;
use crate::table::{
    create_error, first_index, rename_applies, store_after_create as store_after_table_create, store_after_rename,
    table_key,
};

verus! {

/// How many times `t` occurs in `s`.
pub open spec fn occurrences(s: Seq<Seq<char>>, t: Seq<char>) -> nat
    decreases s.len(),
{
    if s.len() == 0 {
        0
    } else {
        occurrences(s.drop_last(), t) + if s.last() == t { 1nat } else { 0nat }
    }
}

proof fn lemma_no_occurrence(s: Seq<Seq<char>>, t: Seq<char>)
    requires
        !s.contains(t),
    ensures
        occurrences(s, t) == 0,
    decreases s.len(),
{
    if s.len() > 0 {
        assert(!s.drop_last().contains(t)) by {
            if s.drop_last().contains(t) {
                let w = choose|w: int| 0 <= w < s.drop_last().len() && s.drop_last()[w] == t;
                assert(s[w] == t);
            }
        }
        lemma_no_occurrence(s.drop_last(), t);
    }
}

/// Whether the namespace keyed `ns`, if it has a record, lists `t` only when
/// `t`'s key holds a record.
pub open spec fn listing_backed(s: StoreModel, ns: Seq<char>, t: Seq<char>) -> bool {
    namespace_at(s, ns) is Some && namespace_at(s, ns).unwrap().tables.contains(t) ==> s.contains_key(
        table_key(ns, t),
    )
}

/// Once a namespace is created it is present, and creating the same path a
/// second time is refused as already existing.
pub proof fn create_then_exists(
    s: StoreModel,
    level: Seq<Seq<char>>,
    props: Map<Seq<char>, serde_json::Value>,
    created_at: nat,
)
    ensures
        store_after_namespace_create(s, level, props, created_at).contains_key(namespace_key(level)),
        create_refused(store_after_namespace_create(s, level, props, created_at), level),
{
}

/// Deleting a namespace that has children is refused as a bad request and
/// leaves the store as it was; deleting one without children removes it, so
/// that it is no longer present. The root is never deleted: that too is
/// refused as a bad request.
pub proof fn delete_keeps_parents(s: StoreModel, level: Seq<Seq<char>>)
    requires
        namespace_at(s, namespace_key(level)) is Some,
    ensures
        level.len() == 0 ==> delete_error(s, level) == Some(ErrorType::BadRequest)
            && store_after_namespace_delete(s, level) == s,
        namespace_at(s, namespace_key(level)).unwrap().child.len() > 0 ==> delete_error(s, level) == Some(
            ErrorType::BadRequest,
        ) && store_after_namespace_delete(s, level) == s,
        level.len() > 0 && namespace_at(s, namespace_key(level)).unwrap().child.len() == 0 ==> delete_error(s, level)
            is None && !store_after_namespace_delete(s, level).contains_key(namespace_key(level)),
{
}

/// A key that is both to be removed and to be set is refused as a bad
/// request, whether or not the namespace holds it (or exists), and the store
/// stays as it was.
pub proof fn update_conflict_refused(
    s: StoreModel,
    level: Seq<Seq<char>>,
    removals: Seq<Seq<char>>,
    updates: Map<Seq<char>, serde_json::Value>,
    k: Seq<char>,
)
    requires
        removals.contains(k),
        updates.contains_key(k),
    ensures
        update_error(s, level, Some(removals), Some(updates)) == Some(ErrorType::BadRequest),
        store_after_update(s, level, Some(removals), Some(updates)) == s,
{
}

/// Removing one key that the namespace does not hold, with nothing to set,
/// succeeds, reports that key as missing and nothing as removed or set, and
/// leaves the store as it was.
pub proof fn update_missing_key(s: StoreModel, level: Seq<Seq<char>>, k: Seq<char>)
    requires
        namespace_at(s, namespace_key(level)) is Some,
        !namespace_at(s, namespace_key(level)).unwrap().properties.contains_key(k),
    ensures
        update_error(s, level, Some(seq![k]), Some(Map::empty())) is None,
        removal_report(namespace_at(s, namespace_key(level)).unwrap().properties.dom(), Some(seq![k]))
            == (Seq::<Seq<char>>::empty(), seq![k]),
        forall|u: Seq<Seq<char>>|
            #[trigger] u.to_set() == updated_key_set(Some(Map::<Seq<char>, serde_json::Value>::empty()))
                ==> u.len() == 0,
        store_after_update(s, level, Some(seq![k]), Some(Map::empty())) == s,
{
    let key = namespace_key(level);
    let n = namespace_at(s, key).unwrap();
    let none = Map::<Seq<char>, serde_json::Value>::empty();
    assert(seq![k].drop_last() =~= Seq::<Seq<char>>::empty());
    assert(seq![k].last() == k);
    assert(removal_split(n.properties.dom(), Seq::<Seq<char>>::empty()) == (
        Seq::<Seq<char>>::empty(),
        Seq::<Seq<char>>::empty(),
    ));
    assert(Seq::<Seq<char>>::empty().push(k) =~= seq![k]);
    assert(!conflicting(seq![k], none));
    assert forall|u: Seq<Seq<char>>| #[trigger] u.to_set() == updated_key_set(Some(none)) implies u.len()
        == 0 by {
        if u.len() > 0 {
            assert(u.to_set().contains(u[0]));
        }
    }
    assert(n.properties.remove_keys(seq![k].to_set()).union_prefer_right(none) =~= n.properties);
    assert(s.insert(key, s[key]) =~= s);
}

/// Creating a table needs a namespace record: without one it is not found
/// and nothing changes. After a creation succeeds, the same creation is
/// refused as already existing and changes nothing; and where the namespace listed the name only with a record
/// behind it, it now lists the table exactly once.
pub proof fn table_create_once(s: StoreModel, ns: Seq<char>, t: Seq<char>, issued: nat)
    ensures
        namespace_at(s, ns) is None ==> create_error(s, ns, t) == Some(ErrorType::NotFound)
            && store_after_table_create(s, ns, t, issued) == s,
        create_error(s, ns, t) is None ==> create_error(store_after_table_create(s, ns, t, issued), ns, t)
            == Some(ErrorType::AlreadyExists) && store_after_table_create(
            store_after_table_create(s, ns, t, issued),
            ns,
            t,
            issued + 1,
        ) == store_after_table_create(s, ns, t, issued),
        create_error(s, ns, t) is None && listing_backed(s, ns, t) ==> occurrences(
            namespace_at(store_after_table_create(s, ns, t, issued), ns).unwrap().tables,
            t,
        ) == 1,
{
    if create_error(s, ns, t) is None {
        let n = namespace_at(s, ns).unwrap();
        crate::table::lemma_keys_differ(ns, t);
        let s2 = store_after_table_create(s, ns, t, issued);
        assert(namespace_at(s2, ns) is Some);
        if listing_backed(s, ns, t) {
            lemma_no_occurrence(n.tables, t);
            assert(n.tables.push(t).drop_last() =~= n.tables);
        }
    }
}

/// Renaming a table `t1` just created to a name `t2` whose key is free
/// applies: afterwards `t1`'s key is empty, `t2`'s key holds the table, and
/// the namespace lists `t2` in the place where it listed `t1`, and no longer
/// lists `t1`.
pub proof fn rename_after_create(s: StoreModel, ns: Seq<char>, t1: Seq<char>, t2: Seq<char>, issued: nat)
    requires
        create_error(s, ns, t1) is None,
        listing_backed(s, ns, t1),
        !store_after_table_create(s, ns, t1, issued).contains_key(table_key(ns, t2)),
    ensures
        rename_applies(store_after_table_create(s, ns, t1, issued), ns, t1, t2),
        !store_after_rename(store_after_table_create(s, ns, t1, issued), ns, t1, t2).contains_key(
            table_key(ns, t1),
        ),
        store_after_rename(store_after_table_create(s, ns, t1, issued), ns, t1, t2).contains_key(
            table_key(ns, t2),
        ),
        ({
            let before = namespace_at(store_after_table_create(s, ns, t1, issued), ns).unwrap().tables;
            let after = namespace_at(
                store_after_rename(store_after_table_create(s, ns, t1, issued), ns, t1, t2),
                ns,
            ).unwrap().tables;
            &&& after.contains(t2)
            &&& !after.contains(t1)
            &&& 0 <= first_index(before, t1) < before.len()
            &&& after == before.update(first_index(before, t1), t2)
        }),
{
    let n = namespace_at(s, ns).unwrap();
    crate::table::lemma_keys_differ(ns, t1);
    crate::table::lemma_keys_differ(ns, t2);
    let s2 = store_after_table_create(s, ns, t1, issued);
    let before = n.tables.push(t1);
    assert(namespace_at(s2, ns).unwrap().tables == before);
    assert(before[before.len() - 1] == t1);
    assert(before.contains(t1));
    crate::table::lemma_first_index(before, t1);
    assert(first_index(before, t1) == before.len() - 1) by {
        let f = first_index(before, t1);
        if f < before.len() - 1 {
            assert(n.tables[f] == t1);
        }
    }
    let s3 = store_after_rename(s2, ns, t1, t2);
    let after = before.update(before.len() - 1, t2);
    assert(namespace_at(s3, ns).unwrap().tables == after);
    assert(after[after.len() - 1] == t2);
    assert(!after.contains(t1)) by {
        if after.contains(t1) {
            let w = choose|w: int| 0 <= w < after.len() && after[w] == t1;
            assert(w != after.len() - 1);
            assert(n.tables[w] == t1);
        }
    }
}

} // verus!
