//! The record store: string keys, each holding a namespace or a table record.
use vstd::prelude::*;
use crate::keymap::KeyMap;
use crate::namespace::{Namespace, NamespaceModel};
use crate::table::{Table, TableModel};

verus! {

/// A stored record.
pub enum Record {
    Namespace(Namespace),
    Table(Table),
}

/// What a stored record holds.
pub enum RecordModel {
    Namespace(NamespaceModel),
    Table(TableModel),
}

impl View for Record {
    type V = RecordModel;

    open spec fn view(&self) -> RecordModel {
        match self {
            Record::Namespace(n) => RecordModel::Namespace(n@),
            Record::Table(t) => RecordModel::Table(t@),
        }
    }
}

/// The contents of a store: each key with its record.
pub type StoreModel = Map<Seq<char>, RecordModel>;

/// The namespace record under `k`, if `k` holds one.
pub open spec fn namespace_at(s: StoreModel, k: Seq<char>) -> Option<NamespaceModel> {
    if s.contains_key(k) {
        match s[k] {
            RecordModel::Namespace(n) => Some(n),
            RecordModel::Table(_) => None,
        }
    } else {
        None
    }
}

/// The table record under `k`, if `k` holds one.
pub open spec fn table_at(s: StoreModel, k: Seq<char>) -> Option<TableModel> {
    if s.contains_key(k) {
        match s[k] {
            RecordModel::Table(t) => Some(t),
            RecordModel::Namespace(_) => None,
        }
    } else {
        None
    }
}

/// A store of records under string keys.
pub struct DBConnection {
    records: KeyMap<Record>,
}

impl View for DBConnection {
    type V = StoreModel;

    closed spec fn view(&self) -> StoreModel {
        self.records@.map_values(|r: Record| r@)
    }
}

impl DBConnection {
    /// An empty store.
    pub fn new() -> (r: DBConnection)
        ensures
            r@ =~= Map::empty(),
    {
        DBConnection { records: KeyMap::new() }
    }

    /// Whether `key` holds a record.
    pub fn contains_key(&self, key: &String) -> (r: bool)
        ensures
            r == self@.contains_key(key@),
    {
        self.records.contains_key(key)
    }

    /// The record under `key`, if any.
    pub fn get(&self, key: &String) -> (r: Option<&Record>)
        ensures
            match r {
                Some(rec) => self@.contains_key(key@) && rec@ == self@[key@],
                None => !self@.contains_key(key@),
            },
    {
        self.records.get(key)
    }

    /// The namespace record under `key`, if `key` holds one.
    pub fn get_namespace(&self, key: &String) -> (r: Option<&Namespace>)
        ensures
            match r {
                Some(n) => namespace_at(self@, key@) == Some(n@),
                None => namespace_at(self@, key@) is None,
            },
    {
        match self.records.get(key) {
            Some(Record::Namespace(n)) => Some(n),
            _ => None,
        }
    }

    /// The table record under `key`, if `key` holds one.
    pub fn get_table(&self, key: &String) -> (r: Option<&Table>)
        ensures
            match r {
                Some(t) => table_at(self@, key@) == Some(t@),
                None => table_at(self@, key@) is None,
            },
    {
        match self.records.get(key) {
            Some(Record::Table(t)) => Some(t),
            _ => None,
        }
    }

    /// Puts `value` under `key`, replacing what was there.
    pub fn put(&mut self, key: String, value: Record)
        ensures
            final(self)@ == old(self)@.insert(key@, value@),
    {
        self.records.insert(key, value);
        proof {
            assert(self@ =~= old(self)@.insert(key@, value@));
        }
    }

    /// Removes whatever `key` holds.
    pub fn delete(&mut self, key: &String)
        ensures
            final(self)@ == old(self)@.remove(key@),
    {
        let _ = self.take(key);
    }

    /// Takes the record under `key` out of the store.
    pub fn take(&mut self, key: &String) -> (r: Option<Record>)
        ensures
            final(self)@ == old(self)@.remove(key@),
            match r {
                Some(rec) => old(self)@.contains_key(key@) && rec@ == old(self)@[key@],
                None => !old(self)@.contains_key(key@),
            },
    {
        let r = self.records.remove(key);
        proof {
            assert(self@ =~= old(self)@.remove(key@));
        }
        r
    }

    /// The keys that hold records, each once.
    pub fn keys(&self) -> (r: Vec<String>)
        ensures
            r.deep_view().no_duplicates(),
            r.deep_view().to_set() == self@.dom(),
    {
        let r = self.records.keys();
        proof {
            assert(self@.dom() =~= self.records@.dom());
        }
        r
    }
}

} // verus!
