//! Namespaces: their store keys, records and operations.
use vstd::prelude::*;
use crate::db::{namespace_at, DBConnection, Record, RecordModel, StoreModel};
use crate::json::{
    empty_properties, entries_of, has_property, insert_property, into_entries, json_string,
    remove_property, string_value, Properties,
};
use crate::result::{CatalogResult, Error, ErrorType, Location};
use crate::text::{copy_strings, decimal, decimal_string, framed};
use crate::time;

verus! {

/// One segment of a namespace path.
pub type NamespaceIdent = String;

/// A namespace record: its direct children, its properties and its tables.
#[derive(Debug)]
pub struct Namespace {
    pub child: Vec<NamespaceIdent>,
    pub properties: Properties,
    pub tables: Vec<String>,
}

/// What a namespace record holds.
pub struct NamespaceModel {
    pub child: Seq<Seq<char>>,
    pub properties: Map<Seq<char>, serde_json::Value>,
    pub tables: Seq<Seq<char>>,
}

impl View for Namespace {
    type V = NamespaceModel;

    open spec fn view(&self) -> NamespaceModel {
        NamespaceModel {
            child: self.child.deep_view(),
            properties: entries_of(self.properties),
            tables: self.tables.deep_view(),
        }
    }
}

/// The segments of a path joined by `sep`.
pub open spec fn joined(level: Seq<Seq<char>>, sep: Seq<char>) -> Seq<char>
    decreases level.len(),
{
    if level.len() == 0 {
        Seq::empty()
    } else if level.len() == 1 {
        level[0]
    } else {
        joined(level.drop_last(), sep) + sep + level.last()
    }
}

/// The store key of a namespace path: `root` for the root, else `root::`
/// followed by the segments joined by `::`.
pub open spec fn namespace_key(level: Seq<Seq<char>>) -> Seq<char> {
    if level.len() == 0 {
        "root"@
    } else {
        "root::"@ + joined(level, "::"@)
    }
}

/// The segments of a path joined by `sep`.
pub fn join_path(level: &Vec<NamespaceIdent>, sep: &str) -> (r: String)
    ensures
        r@ == joined(level.deep_view(), sep@),
{
    if level.len() == 0 {
        return String::new();
    }
    let mut out = level[0].clone();
    let ghost segs = level.deep_view();
    proof {
        assert(segs.take(1) =~= seq![segs[0]]);
    }
    let mut i: usize = 1;
    while i < level.len()
        invariant
            1 <= i <= level@.len(),
            segs == level.deep_view(),
            out@ == joined(segs.take(i as int), sep@),
        decreases level@.len() - i,
    {
        out.append(sep);
        out.append(level[i].as_str());
        proof {
            assert(segs.take(i + 1).drop_last() =~= segs.take(i as int));
            assert(out@ =~= joined(segs.take(i + 1), sep@));
        }
        i = i + 1;
    }
    proof {
        assert(segs.take(level@.len() as int) =~= segs);
    }
    out
}

/// The store key of a namespace path.
pub fn hash(level: &Vec<NamespaceIdent>) -> (r: String)
    ensures
        r@ == namespace_key(level.deep_view()),
{
    if level.len() == 0 {
        return String::from_str("root");
    }
    let joined = join_path(level, "::");
    String::from_str("root::").concat(joined.as_str())
}

/// The record a new namespace gets: no children, no tables, and the given
/// properties with the creation time, in decimal seconds, under `created_at`.
pub open spec fn fresh_namespace(props: Map<Seq<char>, serde_json::Value>, created_at: nat) -> NamespaceModel {
    NamespaceModel {
        child: Seq::empty(),
        properties: props.insert("created_at"@, json_string(decimal(created_at))),
        tables: Seq::empty(),
    }
}

/// The properties a caller hands to `create`, with none standing for an empty object.
pub open spec fn given_properties(p: Option<Properties>) -> Map<Seq<char>, serde_json::Value> {
    match p {
        Some(m) => entries_of(m),
        None => Map::empty(),
    }
}

/// Whether creating the namespace at `level` is refused: its key is taken.
pub open spec fn create_refused(s: StoreModel, level: Seq<Seq<char>>) -> bool {
    s.contains_key(namespace_key(level))
}

/// The store after creating the namespace at `level`.
pub open spec fn store_after_create(
    s: StoreModel,
    level: Seq<Seq<char>>,
    props: Map<Seq<char>, serde_json::Value>,
    created_at: nat,
) -> StoreModel {
    if create_refused(s, level) {
        s
    } else {
        s.insert(namespace_key(level), RecordModel::Namespace(fresh_namespace(props, created_at)))
    }
}

/// Why deleting the namespace at `level` fails, if it does. The root is
/// never deleted.
pub open spec fn delete_error(s: StoreModel, level: Seq<Seq<char>>) -> Option<ErrorType> {
    if level.len() == 0 {
        Some(ErrorType::BadRequest)
    } else {
        match namespace_at(s, namespace_key(level)) {
        None => Some(ErrorType::NotFound),
            Some(ns) => if ns.child.len() > 0 {
                Some(ErrorType::BadRequest)
            } else {
                None
            },
        }
    }
}

/// The store after deleting the namespace at `level`.
pub open spec fn store_after_delete(s: StoreModel, level: Seq<Seq<char>>) -> StoreModel {
    if delete_error(s, level) is None {
        s.remove(namespace_key(level))
    } else {
        s
    }
}

/// Whether some key is both to be removed and to be set.
pub open spec fn conflicting(removals: Seq<Seq<char>>, updates: Map<Seq<char>, serde_json::Value>) -> bool {
    exists|i: int| 0 <= i < removals.len() && updates.contains_key(#[trigger] removals[i])
}

/// The keys a caller asks to remove, if any.
pub open spec fn given_removals(r: Option<Vec<String>>) -> Option<Seq<Seq<char>>> {
    match r {
        Some(v) => Some(v.deep_view()),
        None => None,
    }
}

/// The entries a caller asks to set, if any.
pub open spec fn given_updates(u: Option<Properties>) -> Option<Map<Seq<char>, serde_json::Value>> {
    match u {
        Some(m) => Some(entries_of(m)),
        None => None,
    }
}

/// Why updating the properties of the namespace at `level` fails, if it does.
/// A key both to be removed and to be set is refused first.
pub open spec fn update_error(
    s: StoreModel,
    level: Seq<Seq<char>>,
    removals: Option<Seq<Seq<char>>>,
    updates: Option<Map<Seq<char>, serde_json::Value>>,
) -> Option<ErrorType> {
    if removals is Some && updates is Some && conflicting(removals.unwrap(), updates.unwrap()) {
        Some(ErrorType::BadRequest)
    } else if namespace_at(s, namespace_key(level)) is None {
        Some(ErrorType::NotFound)
    } else {
        None
    }
}

/// Removing `rs` one by one from a map whose keys are `present`: the keys
/// that were removed and those that were missing, each in the order asked.
pub open spec fn removal_split(present: Set<Seq<char>>, rs: Seq<Seq<char>>) -> (Seq<Seq<char>>, Seq<Seq<char>>)
    decreases rs.len(),
{
    if rs.len() == 0 {
        (Seq::empty(), Seq::empty())
    } else {
        let (removed, missing) = removal_split(present, rs.drop_last());
        let k = rs.last();
        if present.contains(k) && !rs.drop_last().contains(k) {
            (removed.push(k), missing)
        } else {
            (removed, missing.push(k))
        }
    }
}

/// The removed and missing keys that an update reports.
pub open spec fn removal_report(present: Set<Seq<char>>, removals: Option<Seq<Seq<char>>>) -> (Seq<Seq<char>>, Seq<Seq<char>>) {
    match removals {
        Some(rs) => removal_split(present, rs),
        None => (Seq::empty(), Seq::empty()),
    }
}

/// The keys that an update sets.
pub open spec fn updated_key_set(updates: Option<Map<Seq<char>, serde_json::Value>>) -> Set<Seq<char>> {
    match updates {
        Some(u) => u.dom(),
        None => Set::empty(),
    }
}

/// Properties after the removals, then the updates.
pub open spec fn updated_properties(
    props: Map<Seq<char>, serde_json::Value>,
    removals: Option<Seq<Seq<char>>>,
    updates: Option<Map<Seq<char>, serde_json::Value>>,
) -> Map<Seq<char>, serde_json::Value> {
    let kept = match removals {
        Some(rs) => props.remove_keys(rs.to_set()),
        None => props,
    };
    match updates {
        Some(u) => kept.union_prefer_right(u),
        None => kept,
    }
}

/// The store after updating the properties of the namespace at `level`.
pub open spec fn store_after_update(
    s: StoreModel,
    level: Seq<Seq<char>>,
    removals: Option<Seq<Seq<char>>>,
    updates: Option<Map<Seq<char>, serde_json::Value>>,
) -> StoreModel {
    if update_error(s, level, removals, updates) is None {
        let ns = namespace_at(s, namespace_key(level)).unwrap();
        s.insert(
            namespace_key(level),
            RecordModel::Namespace(
                NamespaceModel {
                    child: ns.child,
                    properties: updated_properties(ns.properties, removals, updates),
                    tables: ns.tables,
                },
            ),
        )
    } else {
        s
    }
}

/// The keys of a list of entries, in order.
pub open spec fn entry_keys(s: Seq<(String, serde_json::Value)>) -> Seq<Seq<char>> {
    s.map_values(|e: (String, serde_json::Value)| e.0@)
}

/// The map that setting a list of entries in order builds.
pub open spec fn entries_map(s: Seq<(String, serde_json::Value)>) -> Map<Seq<char>, serde_json::Value>
    decreases s.len(),
{
    if s.len() == 0 {
        Map::empty()
    } else {
        entries_map(s.drop_last()).insert(s.last().0@, s.last().1)
    }
}

proof fn lemma_entries_map(s: Seq<(String, serde_json::Value)>)
    requires
        forall|i: int, j: int| 0 <= i < j < s.len() ==> #[trigger] s[i].0@ != #[trigger] s[j].0@,
    ensures
        forall|j: int|
            0 <= j < s.len() ==> entries_map(s).contains_key(#[trigger] s[j].0@)
                && entries_map(s)[s[j].0@] == s[j].1,
        forall|k: Seq<char>|
            #[trigger] entries_map(s).contains_key(k) ==> exists|j: int| 0 <= j < s.len() && #[trigger] s[j].0@ == k,
    decreases s.len(),
{
    if s.len() > 0 {
        let d = s.drop_last();
        assert forall|i: int, j: int| 0 <= i < j < d.len() implies #[trigger] d[i].0@ != #[trigger] d[j].0@ by {
            assert(d[i] == s[i] && d[j] == s[j]);
        }
        lemma_entries_map(d);
        assert forall|j: int| 0 <= j < s.len() implies entries_map(s).contains_key(#[trigger] s[j].0@)
            && entries_map(s)[s[j].0@] == s[j].1 by {
            if j < s.len() - 1 {
                assert(d[j] == s[j]);
                assert(s[j].0@ != s[s.len() - 1].0@);
            }
        }
        assert forall|k: Seq<char>| #[trigger] entries_map(s).contains_key(k) implies exists|j: int|
            0 <= j < s.len() && #[trigger] s[j].0@ == k by {
            if k == s.last().0@ {
                assert(s[s.len() - 1].0@ == k);
            } else {
                assert(entries_map(d).contains_key(k));
                let j = choose|j: int| 0 <= j < d.len() && #[trigger] d[j].0@ == k;
                assert(d[j] == s[j]);
            }
        }
    }
}

/// What an update of properties reports: the keys removed, the keys that
/// were asked to be removed but were missing, and the keys set.
#[derive(Debug)]
pub struct UpdateNamespaceResult {
    pub removed_keys: Vec<String>,
    pub missing_keys: Vec<String>,
    pub updated_keys: Vec<String>,
}

impl Namespace {
    /// Makes sure the root namespace exists, stamping it with the time now.
    pub fn init(conn: &mut DBConnection) -> (r: CatalogResult<()>)
        ensures
            r is Ok,
            final(conn)@.contains_key("root"@),
            old(conn)@.contains_key("root"@) ==> final(conn)@ == old(conn)@,
            exists|t: nat| final(conn)@ == store_after_create(old(conn)@, Seq::empty(), Map::empty(), t),
    {
        let created_at = time::now();
        let r = Namespace::init_at(conn, created_at);
        proof {
            let t = created_at as nat;
            assert(final(conn)@ == store_after_create(old(conn)@, Seq::empty(), Map::empty(), t));
        }
        r
    }

    /// Makes sure the root namespace exists; a new root is stamped with `created_at`.
    pub fn init_at(conn: &mut DBConnection, created_at: u64) -> (r: CatalogResult<()>)
        ensures
            r is Ok,
            final(conn)@ == store_after_create(
                old(conn)@,
                Seq::empty(),
                Map::empty(),
                created_at as nat,
            ),
    {
        let key = String::from_str("root");
        proof {
            assert(namespace_key(Seq::<Seq<char>>::empty()) == key@);
        }
        if conn.contains_key(&key) {
            return Ok(());
        }
        let mut properties = empty_properties();
        proof {
            assert(entries_of(properties) =~= Map::<Seq<char>, serde_json::Value>::empty());
        }
        insert_property(&mut properties, String::from_str("created_at"), string_value(decimal_string(created_at)));
        let namespace = Namespace { child: Vec::new(), properties, tables: Vec::new() };
        proof {
            assert(namespace@.child =~= Seq::empty());
            assert(namespace@.tables =~= Seq::empty());
            assert(namespace@ == fresh_namespace(Map::empty(), created_at as nat));
        }
        conn.put(key, Record::Namespace(namespace));
        Ok(())
    }

    /// Whether the namespace at `level` exists (its key holds a record).
    pub fn is_present(conn: &DBConnection, level: &Vec<NamespaceIdent>) -> (r: bool)
        ensures
            r == conn@.contains_key(namespace_key(level.deep_view())),
    {
        let key = hash(level);
        conn.contains_key(&key)
    }

    /// The full paths of the direct children of `parent`, in stored order;
    /// none when `parent` has no namespace record.
    pub fn list(conn: &DBConnection, parent: &Vec<NamespaceIdent>) -> (r: Option<Vec<Vec<NamespaceIdent>>>)
        ensures
            match namespace_at(conn@, namespace_key(parent.deep_view())) {
                None => r is None,
                Some(ns) => r is Some && r.unwrap().deep_view() == ns.child.map_values(
                    |c: Seq<char>| parent.deep_view().push(c),
                ),
            },
    {
        let key = hash(parent);
        match conn.get_namespace(&key) {
            None => None,
            Some(ns) => {
                let ghost children = ns@.child;
                let ghost p = parent.deep_view();
                let mut out: Vec<Vec<NamespaceIdent>> = Vec::new();
                let mut i: usize = 0;
                while i < ns.child.len()
                    invariant
                        i <= ns.child@.len(),
                        children == ns.child.deep_view(),
                        p == parent.deep_view(),
                        out@.len() == i,
                        forall|j: int| 0 <= j < i ==> #[trigger] out@[j].deep_view() == p.push(children[j]),
                    decreases ns.child@.len() - i,
                {
                    let mut path = copy_strings(parent);
                    path.push(ns.child[i].clone());
                    proof {
                        assert(path.deep_view() =~= p.push(children[i as int]));
                    }
                    out.push(path);
                    i = i + 1;
                }
                proof {
                    assert(out.deep_view() =~= children.map_values(|c: Seq<char>| p.push(c)));
                }
                Some(out)
            },
        }
    }

    /// Creates the namespace at `level`, stamped with the time now.
    pub fn create(
        conn: &mut DBConnection,
        level: &Vec<NamespaceIdent>,
        properties: Option<Properties>,
    ) -> (r: CatalogResult<Namespace>)
        ensures
            match r {
                Ok(ns) => !create_refused(old(conn)@, level.deep_view())
                    && final(conn)@ == old(conn)@.insert(
                        namespace_key(level.deep_view()),
                        RecordModel::Namespace(ns@),
                    ),
                Err(e) => create_refused(old(conn)@, level.deep_view())
                    && e.error_type == ErrorType::AlreadyExists
                    && final(conn)@ == old(conn)@,
            },
            r is Ok ==> r.unwrap()@.properties.contains_key("created_at"@),
            exists|t: nat|
                #![trigger fresh_namespace(given_properties(properties), t)]
                final(conn)@ == store_after_create(old(conn)@, level.deep_view(), given_properties(properties), t)
                    && (r is Ok ==> r.unwrap()@ == fresh_namespace(given_properties(properties), t)),
    {
        let created_at = time::now();
        let ghost given = given_properties(properties);
        let r = Namespace::create_at(conn, level, properties, created_at);
        proof {
            let t = created_at as nat;
            assert(given == given_properties(properties));
            let _ = fresh_namespace(given, t);
            assert(final(conn)@ == store_after_create(old(conn)@, level.deep_view(), given, t)
                && (r is Ok ==> r.unwrap()@ == fresh_namespace(given, t)));
        }
        r
    }

    /// Creates the namespace at `level`, stamped with `created_at`: its record
    /// has no children and no tables, and the given properties (none standing
    /// for an empty object) with `created_at` set. A taken key is refused.
    pub fn create_at(
        conn: &mut DBConnection,
        level: &Vec<NamespaceIdent>,
        properties: Option<Properties>,
        created_at: u64,
    ) -> (r: CatalogResult<Namespace>)
        ensures
            final(conn)@ == store_after_create(
                old(conn)@,
                level.deep_view(),
                given_properties(properties),
                created_at as nat,
            ),
            match r {
                Ok(ns) => !create_refused(old(conn)@, level.deep_view())
                    && ns@ == fresh_namespace(given_properties(properties), created_at as nat),
                Err(e) => create_refused(old(conn)@, level.deep_view())
                    && e.error_type == ErrorType::AlreadyExists
                    && e.location == Location::Namespace
                    && e.message@ == "Namespace "@ + namespace_key(level.deep_view())
                        + " already exists"@,
            },
    {
        let key = hash(level);
        if conn.contains_key(&key) {
            return Err(Error::of(
                ErrorType::AlreadyExists,
                Location::Namespace,
                framed("Namespace ", &key, " already exists"),
            ));
        }
        let mut props = match properties {
            Some(p) => p,
            None => {
                let p = empty_properties();
                proof {
                    assert(entries_of(p) =~= Map::<Seq<char>, serde_json::Value>::empty());
                }
                p
            },
        };
        insert_property(&mut props, String::from_str("created_at"), string_value(decimal_string(created_at)));
        let stored = Namespace { child: Vec::new(), properties: props.clone(), tables: Vec::new() };
        let namespace = Namespace { child: Vec::new(), properties: props, tables: Vec::new() };
        proof {
            assert(stored@.child =~= Seq::empty());
            assert(stored@.tables =~= Seq::empty());
            assert(namespace@.child =~= Seq::empty());
            assert(namespace@.tables =~= Seq::empty());
        }
        conn.put(key, Record::Namespace(stored));
        Ok(namespace)
    }

    /// The properties of the namespace at `level`.
    pub fn get_properties(conn: &DBConnection, level: &Vec<NamespaceIdent>) -> (r: CatalogResult<Properties>)
        ensures
            match namespace_at(conn@, namespace_key(level.deep_view())) {
                Some(ns) => r is Ok && entries_of(r.unwrap()) == ns.properties,
                None => r is Err && r.unwrap_err().error_type == ErrorType::NotFound
                    && r.unwrap_err().location == Location::Namespace
                    && r.unwrap_err().message@ == "Namespace "@ + namespace_key(level.deep_view())
                        + " not found"@,
            },
    {
        let key = hash(level);
        match conn.get_namespace(&key) {
            Some(ns) => Ok(ns.properties.clone()),
            None => Err(Error::of(ErrorType::NotFound, Location::Namespace, framed("Namespace ", &key, " not found"))),
        }
    }

    /// Deletes the namespace at `level`, which must exist and have no
    /// children; the root is refused as a bad request.
    pub fn delete(conn: &mut DBConnection, level: &Vec<NamespaceIdent>) -> (r: CatalogResult<()>)
        ensures
            final(conn)@ == store_after_delete(old(conn)@, level.deep_view()),
            match r {
                Ok(_) => delete_error(old(conn)@, level.deep_view()) is None,
                Err(e) => delete_error(old(conn)@, level.deep_view()) == Some(e.error_type)
                    && e.location == Location::Namespace,
            },
    {
        let key = hash(level);
        if level.len() == 0 {
            return Err(Error::of(ErrorType::BadRequest, Location::Namespace, framed("Namespace ", &key, " cannot be deleted")));
        }
        match conn.get_namespace(&key) {
            None => Err(Error::of(ErrorType::NotFound, Location::Namespace, framed("Namespace ", &key, " not found"))),
            Some(ns) => {
                if ns.child.len() > 0 {
                    return Err(Error::of(
                        ErrorType::BadRequest,
                        Location::Namespace,
                        framed("Namespace ", &key, " has children"),
                    ));
                }
                conn.delete(&key);
                Ok(())
            },
        }
    }
    /// Removes, then sets, properties of the namespace at `level`. A key that
    /// is both to be removed and to be set is refused before anything else;
    /// a missing namespace is not found. Removing an absent key is no
    /// failure: it is reported as missing.
    pub fn update(
        conn: &mut DBConnection,
        level: &Vec<NamespaceIdent>,
        removals: Option<Vec<String>>,
        updates: Option<Properties>,
    ) -> (r: CatalogResult<UpdateNamespaceResult>)
        ensures
            final(conn)@ == store_after_update(
                old(conn)@,
                level.deep_view(),
                given_removals(removals),
                given_updates(updates),
            ),
            match r {
                Ok(rep) => update_error(
                    old(conn)@,
                    level.deep_view(),
                    given_removals(removals),
                    given_updates(updates),
                ) is None && (rep.removed_keys.deep_view(), rep.missing_keys.deep_view())
                    == removal_report(
                    namespace_at(old(conn)@, namespace_key(level.deep_view())).unwrap().properties.dom(),
                    given_removals(removals),
                ) && rep.updated_keys.deep_view().no_duplicates()
                    && rep.updated_keys.deep_view().to_set() == updated_key_set(given_updates(updates)),
                Err(e) => update_error(
                    old(conn)@,
                    level.deep_view(),
                    given_removals(removals),
                    given_updates(updates),
                ) == Some(e.error_type),
            },
    {
        let key = hash(level);
        match &removals {
            Some(rs) => match &updates {
                Some(us) => {
                    let mut i: usize = 0;
                    while i < rs.len()
                        invariant
                            i <= rs@.len(),
                            given_removals(removals) == Some(rs.deep_view()),
                            given_updates(updates) == Some(entries_of(*us)),
                            conn@ == old(conn)@,
                            forall|j: int|
                                0 <= j < i ==> !entries_of(*us).contains_key(#[trigger] rs.deep_view()[j]),
                        decreases rs@.len() - i,
                    {
                        if has_property(us, &rs[i]) {
                            proof {
                                assert(rs.deep_view()[i as int] == rs@[i as int]@);
                                assert(conflicting(
                                    given_removals(removals).unwrap(),
                                    given_updates(updates).unwrap(),
                                ));
                            }
                            return Err(Error::of(
                                ErrorType::BadRequest,
                                Location::Namespace,
                                framed("Key ", &rs[i], " is present in both removals and updates"),
                            ));
                        }
                        i = i + 1;
                    }
                },
                None => {},
            },
            None => {},
        }
        let taken = conn.take(&key);
        let mut ns = match taken {
            Some(Record::Namespace(ns)) => ns,
            Some(other) => {
                let err = Error::of(ErrorType::NotFound, Location::Namespace, framed("Namespace ", &key, " not found"));
                conn.put(key, other);
                proof {
                    assert(conn@ =~= old(conn)@);
                }
                return Err(err);
            },
            None => {
                return Err(Error::of(ErrorType::NotFound, Location::Namespace, framed("Namespace ", &key, " not found")));
            },
        };
        let ghost first = ns@;
        let ghost present = first.properties.dom();
        let mut removed_keys: Vec<String> = Vec::new();
        let mut missing_keys: Vec<String> = Vec::new();
        proof {
            assert(removed_keys.deep_view() =~= Seq::empty());
            assert(missing_keys.deep_view() =~= Seq::empty());
        }
        match &removals {
            Some(rs) => {
                let ghost rsv = rs.deep_view();
                proof {
                    assert(rsv.take(0).to_set() =~= Set::empty());
                    assert(first.properties.remove_keys(Set::empty()) =~= first.properties);
                    assert(rsv.take(0) =~= Seq::empty());
                }
                let mut i: usize = 0;
                while i < rs.len()
                    invariant
                        i <= rs@.len(),
                        rsv == rs.deep_view(),
                        present == first.properties.dom(),
                        ns@.child == first.child,
                        ns@.tables == first.tables,
                        entries_of(ns.properties) == first.properties.remove_keys(rsv.take(i as int).to_set()),
                        (removed_keys.deep_view(), missing_keys.deep_view()) == removal_split(present, rsv.take(i as int)),
                    decreases rs@.len() - i,
                {
                    let k = rs[i].clone();
                    let ghost kv = k@;
                    let ghost rk = removed_keys.deep_view();
                    let ghost mk = missing_keys.deep_view();
                    let ghost before = entries_of(ns.properties);
                    let gone = remove_property(&mut ns.properties, &k);
                    proof {
                        assert(rsv[i as int] == kv);
                        assert(rsv.take(i + 1).drop_last() =~= rsv.take(i as int));
                        assert(rsv.take(i + 1).last() == kv);
                        assert(rsv.take(i + 1).to_set() =~= rsv.take(i as int).to_set().insert(kv));
                        assert(first.properties.remove_keys(rsv.take(i + 1).to_set())
                            =~= before.remove(kv));
                        assert(before.contains_key(kv) == (present.contains(kv) && !rsv.take(i as int).contains(kv)));
                    }
                    if gone.is_some() {
                        removed_keys.push(k);
                        proof {
                            assert(removed_keys.deep_view() =~= rk.push(kv));
                        }
                    } else {
                        missing_keys.push(k);
                        proof {
                            assert(missing_keys.deep_view() =~= mk.push(kv));
                        }
                    }
                    i = i + 1;
                }
                proof {
                    assert(rsv.take(rs@.len() as int) =~= rsv);
                }
            },
            None => {},
        }
        let ghost kept = entries_of(ns.properties);
        let mut updated_keys: Vec<String> = Vec::new();
        match updates {
            Some(us) => {
                let ghost u = entries_of(us);
                let mut rest = into_entries(us);
                let ghost all = rest@;
                proof {
                    assert(all.take(0) =~= Seq::empty());
                    assert(kept.union_prefer_right(Map::empty()) =~= kept);
                    assert(updated_keys.deep_view() =~= entry_keys(all.take(0)));
                }
                let ghost mut i: int = 0;
                while rest.len() > 0
                    invariant
                        i + rest@.len() == all.len(),
                        0 <= i,
                        rest@ =~= all.skip(i),
                        ns@.child == first.child,
                        ns@.tables == first.tables,
                        entries_of(ns.properties) == kept.union_prefer_right(entries_map(all.take(i))),
                        updated_keys.deep_view() == entry_keys(all.take(i)),
                    decreases rest@.len(),
                {
                    let ghost uk = updated_keys.deep_view();
                    let (k, v) = rest.remove(0);
                    let ghost kv = k@;
                    proof {
                        assert(all.skip(i)[0] == all[i]);
                        assert(kv == all[i].0@);
                        assert(rest@ =~= all.skip(i + 1));
                        assert(all.take(i + 1).drop_last() =~= all.take(i));
                        assert(all.take(i + 1).last() == all[i]);
                        assert(entry_keys(all.take(i + 1)) =~= entry_keys(all.take(i)).push(kv));
                    }
                    updated_keys.push(k.clone());
                    insert_property(&mut ns.properties, k, v);
                    proof {
                        assert(updated_keys.deep_view() =~= uk.push(kv));
                        assert(entries_of(ns.properties) =~= kept.union_prefer_right(entries_map(all.take(i + 1))));
                        i = i + 1;
                    }
                }
                proof {
                    assert(all.take(all.len() as int) =~= all);
                    lemma_entries_map(all);
                    assert(entries_map(all) =~= u);
                    assert(entry_keys(all).to_set() =~= u.dom()) by {
                        assert forall|k: Seq<char>| u.contains_key(k) implies entry_keys(all).contains(k) by {
                            let j = choose|j: int| 0 <= j < all.len() && #[trigger] all[j].0@ == k;
                            assert(entry_keys(all)[j] == k);
                        }
                    }
                    assert(entry_keys(all).no_duplicates());
                }
            },
            None => {
                proof {
                    assert(updated_keys.deep_view().to_set() =~= Set::empty());
                }
            },
        }
        proof {
            assert(ns@.child == first.child);
            assert(ns@.tables == first.tables);
        }
        conn.put(key, Record::Namespace(ns));
        proof {
            assert(conn@ =~= store_after_update(
                old(conn)@,
                level.deep_view(),
                given_removals(removals),
                given_updates(updates),
            ));
        }
        Ok(UpdateNamespaceResult { removed_keys, missing_keys, updated_keys })
    }
}

} // verus!