//! A self-contained in-memory catalog of namespace and table names, answering
//! with a success flag and an HTTP-style status line.
use vstd::prelude::*;
use crate::keymap::KeyMap;
use crate::table::{table_key, table_key_of};

verus! {

/// Names of namespaces, and of tables keyed by namespace name, `_` and table name.
pub struct Catalog {
    namespace_map: KeyMap<String>,
    table_map: KeyMap<String>,
}

impl Catalog {
    /// The namespaces present.
    pub closed spec fn namespaces(&self) -> Set<Seq<char>> {
        self.namespace_map@.dom()
    }

    /// The table keys present.
    pub closed spec fn tables(&self) -> Set<Seq<char>> {
        self.table_map@.dom()
    }

    /// An empty catalog.
    pub fn new() -> (r: Catalog)
        ensures
            r.namespaces() == Set::<Seq<char>>::empty(),
            r.tables() == Set::<Seq<char>>::empty(),
    {
        let r = Catalog { namespace_map: KeyMap::new(), table_map: KeyMap::new() };
        proof {
            assert(r.namespaces() =~= Set::empty());
            assert(r.tables() =~= Set::empty());
        }
        r
    }

    /// Adds a namespace: refused when the name is empty or already present.
    pub fn post_namespace_func(&mut self, namespace_name: String) -> (r: (bool, String))
        ensures
            namespace_name@.len() == 0 ==> r.0 == false && r.1@ == "400 Bad Request"@
                && final(self).namespaces() == old(self).namespaces(),
            namespace_name@.len() > 0 && old(self).namespaces().contains(namespace_name@) ==> r.0 == false
                && r.1@ == "409 Conflict; Namespace already exists"@
                && final(self).namespaces() == old(self).namespaces(),
            namespace_name@.len() > 0 && !old(self).namespaces().contains(namespace_name@) ==> r.0 == true
                && r.1@ == "200 OK"@
                && final(self).namespaces() == old(self).namespaces().insert(namespace_name@),
            final(self).tables() == old(self).tables(),
    {
        if namespace_name.as_str().unicode_len() == 0 {
            (false, String::from_str("400 Bad Request"))
        } else if self.namespace_map.contains_key(&namespace_name) {
            (false, String::from_str("409 Conflict; Namespace already exists"))
        } else {
            self.namespace_map.insert(namespace_name, String::from_str("Some table metadata"));
            (true, String::from_str("200 OK"))
        }
    }

    /// Adds a table to a namespace: refused when a name is empty, the
    /// namespace is absent or the table already present.
    pub fn post_table_func(&mut self, namespace_name: String, table_name: String) -> (r: (bool, String))
        ensures
            final(self).namespaces() == old(self).namespaces(),
            namespace_name@.len() == 0 || table_name@.len() == 0 ==> r.0 == false && r.1@ == "400 Bad Request"@
                && final(self).tables() == old(self).tables(),
            namespace_name@.len() > 0 && table_name@.len() > 0 && !old(self).namespaces().contains(namespace_name@)
                ==> r.0 == false && r.1@ == "404 NotFound; Namespace not found"@
                && final(self).tables() == old(self).tables(),
            namespace_name@.len() > 0 && table_name@.len() > 0 && old(self).namespaces().contains(namespace_name@)
                && old(self).tables().contains(table_key(namespace_name@, table_name@)) ==> r.0 == false
                && r.1@ == "409 Conflict; Table already exists"@
                && final(self).tables() == old(self).tables(),
            namespace_name@.len() > 0 && table_name@.len() > 0 && old(self).namespaces().contains(namespace_name@)
                && !old(self).tables().contains(table_key(namespace_name@, table_name@)) ==> r.0 == true
                && r.1@ == "200 OK"@
                && final(self).tables() == old(self).tables().insert(table_key(namespace_name@, table_name@)),
    {
        if namespace_name.as_str().unicode_len() == 0 || table_name.as_str().unicode_len() == 0 {
            (false, String::from_str("400 Bad Request"))
        } else if self.namespace_map.contains_key(&namespace_name) {
            let key = table_key_of(&namespace_name, &table_name);
            if self.table_map.contains_key(&key) {
                (false, String::from_str("409 Conflict; Table already exists"))
            } else {
                self.table_map.insert(key, String::from_str("Some value"));
                (true, String::from_str("200 OK"))
            }
        } else {
            (false, String::from_str("404 NotFound; Namespace not found"))
        }
    }

    /// Removes a table of a namespace: refused when a name is empty, the
    /// namespace is absent or the table is absent.
    pub fn delete_table_func(&mut self, namespace_name: String, table_name: String) -> (r: (bool, String))
        ensures
            final(self).namespaces() == old(self).namespaces(),
            namespace_name@.len() == 0 || table_name@.len() == 0 ==> r.0 == false && r.1@ == "400 Bad Request"@
                && final(self).tables() == old(self).tables(),
            namespace_name@.len() > 0 && table_name@.len() > 0 && !old(self).namespaces().contains(namespace_name@)
                ==> r.0 == false && r.1@ == "402 NotFound; Namespace not found"@
                && final(self).tables() == old(self).tables(),
            namespace_name@.len() > 0 && table_name@.len() > 0 && old(self).namespaces().contains(namespace_name@)
                && !old(self).tables().contains(table_key(namespace_name@, table_name@)) ==> r.0 == false
                && r.1@ == "404 NotFound; Table not found"@
                && final(self).tables() == old(self).tables(),
            namespace_name@.len() > 0 && table_name@.len() > 0 && old(self).namespaces().contains(namespace_name@)
                && old(self).tables().contains(table_key(namespace_name@, table_name@)) ==> r.0 == true
                && r.1@ == "204 NoContent; Success"@
                && final(self).tables() == old(self).tables().remove(table_key(namespace_name@, table_name@)),
    {
        if namespace_name.as_str().unicode_len() == 0 || table_name.as_str().unicode_len() == 0 {
            (false, String::from_str("400 Bad Request"))
        } else if self.namespace_map.contains_key(&namespace_name) {
            let key = table_key_of(&namespace_name, &table_name);
            if self.table_map.contains_key(&key) {
                let _ = self.table_map.remove(&key);
                proof {
                    assert(self.tables() =~= old(self).tables().remove(key@));
                }
                (true, String::from_str("204 NoContent; Success"))
            } else {
                (false, String::from_str("404 NotFound; Table not found"))
            }
        } else {
            (false, String::from_str("402 NotFound; Namespace not found"))
        }
    }

    /// Whether a table of a namespace is present: refused when a name is
    /// empty or the namespace is absent.
    pub fn head_table_func(&self, namespace_name: String, table_name: String) -> (r: (bool, String))
        ensures
            namespace_name@.len() == 0 || table_name@.len() == 0 ==> r.0 == false && r.1@ == "400 Bad Request"@,
            namespace_name@.len() > 0 && table_name@.len() > 0 && !self.namespaces().contains(namespace_name@)
                ==> r.0 == false && r.1@ == "402 NotFound; Namespace not found"@,
            namespace_name@.len() > 0 && table_name@.len() > 0 && self.namespaces().contains(namespace_name@)
                && !self.tables().contains(table_key(namespace_name@, table_name@)) ==> r.0 == false
                && r.1@ == "404 NotFound; Table not found"@,
            namespace_name@.len() > 0 && table_name@.len() > 0 && self.namespaces().contains(namespace_name@)
                && self.tables().contains(table_key(namespace_name@, table_name@)) ==> r.0 == true
                && r.1@ == "204 NoContent; Success"@,
    {
        if namespace_name.as_str().unicode_len() == 0 || table_name.as_str().unicode_len() == 0 {
            (false, String::from_str("400 Bad Request"))
        } else if self.namespace_map.contains_key(&namespace_name) {
            let key = table_key_of(&namespace_name, &table_name);
            if self.table_map.contains_key(&key) {
                (true, String::from_str("204 NoContent; Success"))
            } else {
                (false, String::from_str("404 NotFound; Table not found"))
            }
        } else {
            (false, String::from_str("402 NotFound; Namespace not found"))
        }
    }
}

} // verus!
