//! Tables: their store keys, records and operations.
use vstd::prelude::*;
use crate::db::{namespace_at, table_at, DBConnection, Record, RecordModel, StoreModel};
use crate::namespace::NamespaceModel;
use crate::result::{CatalogResult, Error, ErrorType, Location};
use crate::text::{copy_ints, copy_strings, framed};
use crate::types::{uuid_text, Schema, TableMetadata, TableMetadataAtomicIncr};

verus! {

/// A table record: its name, schema and metadata.
#[derive(Debug)]
pub struct Table {
    pub name: String,
    pub schema: Schema,
    pub metadata: TableMetadata,
}

/// What a table record holds.
pub struct TableModel {
    pub name: Seq<char>,
    pub schema_id: i32,
    pub identifier_field_ids: Seq<i32>,
    pub format_version: i32,
    pub table_uuid: Seq<char>,
}

impl View for Table {
    type V = TableModel;

    open spec fn view(&self) -> TableModel {
        TableModel {
            name: self.name@,
            schema_id: self.schema.schema_id,
            identifier_field_ids: self.schema.identifier_field_ids@,
            format_version: self.metadata.format_version,
            table_uuid: self.metadata.table_uuid@,
        }
    }
}

/// The store key of a table: its namespace's key, `_`, then its name.
pub open spec fn table_key(namespace: Seq<char>, table: Seq<char>) -> Seq<char> {
    namespace + "_"@ + table
}

/// The store key of a table.
pub fn table_key_of(namespace: &String, table: &String) -> (r: String)
    ensures
        r@ == table_key(namespace@, table@),
{
    namespace.clone().concat("_").concat(table.as_str())
}

/// The position of the first `t` in `s`, or -1 when there is none.
pub open spec fn first_index(s: Seq<Seq<char>>, t: Seq<char>) -> int
    decreases s.len(),
{
    if s.len() == 0 {
        -1
    } else if s[0] == t {
        0
    } else {
        let r = first_index(s.drop_first(), t);
        if r < 0 {
            -1
        } else {
            r + 1
        }
    }
}

pub(crate) proof fn lemma_first_index(s: Seq<Seq<char>>, t: Seq<char>)
    ensures
        -1 <= first_index(s, t) < s.len(),
        first_index(s, t) == -1 <==> !s.contains(t),
        first_index(s, t) >= 0 ==> s[first_index(s, t)] == t,
        forall|j: int| 0 <= j < first_index(s, t) ==> s[j] != t,
    decreases s.len(),
{
    if s.len() > 0 {
        let d = s.drop_first();
        lemma_first_index(d, t);
        if s[0] != t {
            assert forall|j: int| 0 <= j < first_index(s, t) implies s[j] != t by {
                if j > 0 {
                    assert(s[j] == d[j - 1]);
                }
            }
            if d.contains(t) {
                let w = choose|w: int| 0 <= w < d.len() && d[w] == t;
                assert(s[w + 1] == t);
            }
            if s.contains(t) {
                let w = choose|w: int| 0 <= w < s.len() && s[w] == t;
                assert(d[w - 1] == t);
            }
        }
    }
}

/// `s` without its first `t` (unchanged when there is none).
pub open spec fn remove_first(s: Seq<Seq<char>>, t: Seq<char>) -> Seq<Seq<char>> {
    if first_index(s, t) >= 0 {
        s.remove(first_index(s, t))
    } else {
        s
    }
}

/// The position of the first `t` in `v`.
fn position(v: &Vec<String>, t: &String) -> (r: Option<usize>)
    ensures
        match r {
            Some(i) => i as int == first_index(v.deep_view(), t@),
            None => first_index(v.deep_view(), t@) == -1,
        },
{
    let ghost s = v.deep_view();
    proof {
        lemma_first_index(s, t@);
    }
    let mut i: usize = 0;
    while i < v.len()
        invariant
            i <= v@.len(),
            s == v.deep_view(),
            -1 <= first_index(s, t@) < s.len(),
            first_index(s, t@) == -1 <==> !s.contains(t@),
            first_index(s, t@) >= 0 ==> s[first_index(s, t@)] == t@,
            forall|j: int| 0 <= j < first_index(s, t@) ==> s[j] != t@,
            forall|j: int| 0 <= j < i ==> s[j] != t@,
        decreases v@.len() - i,
    {
        if v[i] == *t {
            proof {
                assert(s[i as int] == t@);
            }
            return Some(i);
        }
        i = i + 1;
    }
    None
}

/// The record of a new table: schema 0 with no identifier fields, format
/// version 1 and the given identity.
pub open spec fn fresh_table(name: Seq<char>, uuid: Seq<char>) -> TableModel {
    TableModel {
        name: name,
        schema_id: 0,
        identifier_field_ids: Seq::empty(),
        format_version: 1,
        table_uuid: uuid,
    }
}

/// Why creating table `t` in the namespace keyed `ns` fails, if it does.
pub open spec fn create_error(s: StoreModel, ns: Seq<char>, t: Seq<char>) -> Option<ErrorType> {
    if namespace_at(s, ns) is None {
        Some(ErrorType::NotFound)
    } else if s.contains_key(table_key(ns, t)) {
        Some(ErrorType::AlreadyExists)
    } else {
        None
    }
}

/// A namespace record with another table list.
pub open spec fn with_tables(n: NamespaceModel, tables: Seq<Seq<char>>) -> NamespaceModel {
    NamespaceModel { child: n.child, properties: n.properties, tables: tables }
}

/// The store after creating table `t` in the namespace keyed `ns`, the
/// table getting the identity numbered `issued`.
pub open spec fn store_after_create(s: StoreModel, ns: Seq<char>, t: Seq<char>, issued: nat) -> StoreModel {
    if create_error(s, ns, t) is None {
        let n = namespace_at(s, ns).unwrap();
        s.insert(table_key(ns, t), RecordModel::Table(fresh_table(t, uuid_text(issued)))).insert(
            ns,
            RecordModel::Namespace(with_tables(n, n.tables.push(t))),
        )
    } else {
        s
    }
}

/// The store after deleting table `t` of the namespace keyed `ns`: its key
/// is emptied and the first `t` leaves the namespace's list.
pub open spec fn store_after_delete(s: StoreModel, ns: Seq<char>, t: Seq<char>) -> StoreModel {
    if !s.contains_key(table_key(ns, t)) {
        s
    } else {
        let gone = s.remove(table_key(ns, t));
        match namespace_at(s, ns) {
            Some(n) => gone.insert(ns, RecordModel::Namespace(with_tables(n, remove_first(n.tables, t)))),
            None => gone,
        }
    }
}

/// Whether renaming table `old` of the namespace keyed `ns` to `new` applies:
/// `old` has a table record, the namespace has a record that lists `old`,
/// and the key of `new` is free.
pub open spec fn rename_applies(s: StoreModel, ns: Seq<char>, old: Seq<char>, new: Seq<char>) -> bool {
    &&& table_at(s, table_key(ns, old)) is Some
    &&& namespace_at(s, ns) is Some
    &&& namespace_at(s, ns).unwrap().tables.contains(old)
    &&& !s.contains_key(table_key(ns, new))
}

/// The store after renaming table `old` of the namespace keyed `ns` to `new`.
pub open spec fn store_after_rename(s: StoreModel, ns: Seq<char>, old: Seq<char>, new: Seq<char>) -> StoreModel {
    if rename_applies(s, ns, old, new) {
        let t = table_at(s, table_key(ns, old)).unwrap();
        let n = namespace_at(s, ns).unwrap();
        let moved = TableModel {
            name: new,
            schema_id: t.schema_id,
            identifier_field_ids: t.identifier_field_ids,
            format_version: t.format_version,
            table_uuid: t.table_uuid,
        };
        s.remove(table_key(ns, old)).insert(table_key(ns, new), RecordModel::Table(moved)).insert(
            ns,
            RecordModel::Namespace(with_tables(n, n.tables.update(first_index(n.tables, old), new))),
        )
    } else {
        s
    }
}

pub(crate) proof fn lemma_keys_differ(ns: Seq<char>, t: Seq<char>)
    ensures
        table_key(ns, t) != ns,
{
    reveal_strlit("_");
    assert(table_key(ns, t).len() > ns.len());
}

/// A copy of a table record.
fn copy_table(t: &Table) -> (r: Table)
    ensures
        r@ == t@,
{
    Table {
        name: t.name.clone(),
        schema: Schema {
            schema_id: t.schema.schema_id,
            identifier_field_ids: copy_ints(&t.schema.identifier_field_ids),
        },
        metadata: TableMetadata {
            format_version: t.metadata.format_version,
            table_uuid: t.metadata.table_uuid.clone(),
        },
    }
}

impl Table {
    /// Whether the key of table `table_name` in the namespace keyed
    /// `namespace_name` holds a record.
    pub fn is_present(conn: &DBConnection, namespace_name: String, table_name: String) -> (r: bool)
        ensures
            r == conn@.contains_key(table_key(namespace_name@, table_name@)),
    {
        let key = table_key_of(&namespace_name, &table_name);
        conn.contains_key(&key)
    }

    /// Creates table `table` in the namespace keyed `namespace`, with the next
    /// identity of `generator`, and appends it to the namespace's table list.
    pub fn create(
        conn: &mut DBConnection,
        namespace: String,
        table: String,
        generator: &mut TableMetadataAtomicIncr,
    ) -> (r: CatalogResult<Table>)
        requires
            old(generator).issued() < u64::MAX,
        ensures
            final(conn)@ == store_after_create(old(conn)@, namespace@, table@, old(generator).issued()),
            match r {
                Ok(t) => create_error(old(conn)@, namespace@, table@) is None
                    && t@ == fresh_table(table@, uuid_text(old(generator).issued()))
                    && final(generator).issued() == old(generator).issued() + 1,
                Err(e) => create_error(old(conn)@, namespace@, table@) == Some(e.error_type)
                    && final(generator).issued() == old(generator).issued()
                    && (e.error_type == ErrorType::NotFound ==> e.location == Location::Namespace
                        && e.message@ == "Namespace "@ + namespace@ + " not found"@)
                    && (e.error_type == ErrorType::AlreadyExists ==> e.location == Location::Table
                        && e.message@ == "Table "@ + table_key(namespace@, table@) + " already exists"@),
            },
    {
        let table_key = table_key_of(&namespace, &table);
        if conn.get_namespace(&namespace).is_none() {
            return Err(Error::of(ErrorType::NotFound, Location::Namespace, framed("Namespace ", &namespace, " not found")));
        }
        if conn.contains_key(&table_key) {
            return Err(Error::of(ErrorType::AlreadyExists, Location::Table, framed("Table ", &table_key, " already exists")));
        }
        let metadata = generator.generate_table_metadata(1);
        let new_table = Table {
            name: table.clone(),
            schema: Schema { schema_id: 0, identifier_field_ids: Vec::new() },
            metadata,
        };
        proof {
            assert(new_table@ =~= fresh_table(table@, uuid_text(old(generator).issued())));
            lemma_keys_differ(namespace@, table@);
        }
        let ghost s0 = conn@;
        conn.put(table_key, Record::Table(copy_table(&new_table)));
        let taken = conn.take(&namespace);
        match taken {
            Some(Record::Namespace(mut ns)) => {
                let ghost n0 = ns@;
                ns.tables.push(table);
                proof {
                    assert(ns@.tables =~= n0.tables.push(table@));
                    assert(ns@ == with_tables(n0, n0.tables.push(table@)));
                }
                conn.put(namespace, Record::Namespace(ns));
                proof {
                    assert(conn@ =~= store_after_create(s0, namespace@, table@, old(generator).issued()));
                }
            },
            _ => {
                proof {
                    assert(false);
                }
            },
        }
        Ok(new_table)
    }

    /// Deletes table `table` of the namespace keyed `namespace`: its key is
    /// emptied and the first entry of that name leaves the namespace's list.
    pub fn delete(conn: &mut DBConnection, namespace: String, table: String) -> (r: CatalogResult<()>)
        ensures
            final(conn)@ == store_after_delete(old(conn)@, namespace@, table@),
            match r {
                Ok(_) => old(conn)@.contains_key(table_key(namespace@, table@)),
                Err(e) => !old(conn)@.contains_key(table_key(namespace@, table@))
                    && e.error_type == ErrorType::NotFound && e.location == Location::Table
                    && e.message@ == "Table "@ + table_key(namespace@, table@) + " not found"@,
            },
    {
        let table_key = table_key_of(&namespace, &table);
        if !conn.contains_key(&table_key) {
            return Err(Error::of(ErrorType::NotFound, Location::Table, framed("Table ", &table_key, " not found")));
        }
        proof {
            lemma_keys_differ(namespace@, table@);
        }
        let ghost s0 = conn@;
        conn.delete(&table_key);
        let taken = conn.take(&namespace);
        match taken {
            Some(Record::Namespace(mut ns)) => {
                let ghost n0 = ns@;
                proof {
                    lemma_first_index(n0.tables, table@);
                }
                match position(&ns.tables, &table) {
                    Some(i) => {
                        ns.tables.remove(i);
                        proof {
                            assert(ns@.tables =~= remove_first(n0.tables, table@));
                        }
                    },
                    None => {},
                }
                proof {
                    assert(ns@ == with_tables(n0, remove_first(n0.tables, table@)));
                }
                conn.put(namespace, Record::Namespace(ns));
                proof {
                    assert(conn@ =~= store_after_delete(s0, namespace@, table@));
                }
            },
            Some(other) => {
                conn.put(namespace, other);
                proof {
                    assert(conn@ =~= store_after_delete(s0, namespace@, table@));
                }
            },
            None => {
                proof {
                    assert(conn@ =~= store_after_delete(s0, namespace@, table@));
                }
            },
        }
        Ok(())
    }

    /// The table list of the namespace keyed `namespace`; none when it has no
    /// namespace record.
    pub fn list(conn: &DBConnection, namespace: String) -> (r: Option<Vec<String>>)
        ensures
            match namespace_at(conn@, namespace@) {
                Some(n) => r is Some && r.unwrap().deep_view() == n.tables,
                None => r is None,
            },
    {
        match conn.get_namespace(&namespace) {
            Some(ns) => Some(copy_strings(&ns.tables)),
            None => None,
        }
    }

    /// The record of table `table_name` of the namespace keyed
    /// `namespace_name`, if its key holds a table record.
    pub fn get(conn: &DBConnection, namespace_name: String, table_name: String) -> (r: Option<Table>)
        ensures
            match table_at(conn@, table_key(namespace_name@, table_name@)) {
                Some(t) => r is Some && r.unwrap()@ == t,
                None => r is None,
            },
    {
        let key = table_key_of(&namespace_name, &table_name);
        match conn.get_table(&key) {
            Some(t) => Some(copy_table(t)),
            None => None,
        }
    }

    /// Renames table `old_table_name` of the namespace keyed `namespace_name`
    /// to `new_table_name`: the record moves to the new key with the new
    /// name, and the namespace's list names it in the same place. Where that
    /// does not apply, nothing changes and the answer is `false`.
    pub fn rename(
        conn: &mut DBConnection,
        namespace_name: String,
        old_table_name: String,
        new_table_name: String,
    ) -> (r: CatalogResult<bool>)
        ensures
            final(conn)@ == store_after_rename(old(conn)@, namespace_name@, old_table_name@, new_table_name@),
            r is Ok,
            r.unwrap() == rename_applies(old(conn)@, namespace_name@, old_table_name@, new_table_name@),
    {
        let old_key = table_key_of(&namespace_name, &old_table_name);
        let new_key = table_key_of(&namespace_name, &new_table_name);
        let applies = match conn.get_table(&old_key) {
            None => false,
            Some(_) => match conn.get_namespace(&namespace_name) {
                None => false,
                Some(ns) => {
                    proof {
                        lemma_first_index(ns@.tables, old_table_name@);
                    }
                    position(&ns.tables, &old_table_name).is_some() && !conn.contains_key(&new_key)
                },
            },
        };
        if !applies {
            return Ok(false);
        }
        proof {
            lemma_keys_differ(namespace_name@, old_table_name@);
            lemma_keys_differ(namespace_name@, new_table_name@);
        }
        let ghost s0 = conn@;
        let taken = conn.take(&old_key);
        match taken {
            Some(Record::Table(mut t)) => {
                t.name = new_table_name.clone();
                conn.put(new_key, Record::Table(t));
            },
            _ => {
                proof {
                    assert(false);
                }
            },
        }
        let taken = conn.take(&namespace_name);
        match taken {
            Some(Record::Namespace(mut ns)) => {
                let ghost n0 = ns@;
                proof {
                    lemma_first_index(n0.tables, old_table_name@);
                }
                match position(&ns.tables, &old_table_name) {
                    Some(i) => {
                        ns.tables.remove(i);
                        ns.tables.insert(i, new_table_name);
                        proof {
                            assert(ns@.tables =~= n0.tables.update(i as int, new_table_name@));
                        }
                    },
                    None => {
                        proof {
                            assert(false);
                        }
                    },
                }
                proof {
                    assert(ns@ == with_tables(n0, n0.tables.update(first_index(n0.tables, old_table_name@), new_table_name@)));
                }
                conn.put(namespace_name, Record::Namespace(ns));
                proof {
                    assert(conn@ =~= store_after_rename(s0, namespace_name@, old_table_name@, new_table_name@));
                }
            },
            _ => {
                proof {
                    assert(false);
                }
            },
        }
        Ok(true)
    }
}

} // verus!