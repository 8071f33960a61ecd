//! The catalog's operations as callers reach them: a namespace path in
//! parameter form or a request body in, an answer or a failure out.
use vstd::prelude::*;
use crate::db::{namespace_at, table_at, DBConnection};
use crate::json::{entries_of, Properties};
use crate::namespace::{
    delete_error, fresh_namespace, given_properties, given_removals, store_after_create, given_updates, join_path, joined, namespace_key, removal_report,
    store_after_delete, store_after_update, update_error, updated_key_set, hash, Namespace, NamespaceIdent,
    UpdateNamespaceResult,
};
use crate::request::{
    split_units, valid_param, CommitTableRequest, CreateNamespaceRequest, CreateTableRequest, NamespaceParam,
    PurgeRequested, RegisterTableRequest, RenameTableRequest, UpdateNamespaceRequest,
};
use crate::response::{CommitTableResponse, ListTablesResponse, LoadTableResult};
use crate::result::{CatalogResult, Empty, Error, ErrorType, Location};
use crate::table::{self, create_error, store_after_rename, table_key, Table};
use crate::text::{copy_strings, framed};
use crate::types::{uuid_text, NamespaceResponse, TableIdentifier, TableMetadata, TableMetadataAtomicIncr};

verus! {

/// The answer to creating a namespace: its path and its properties.
#[derive(Debug)]
pub struct CreateNamespaceResponse {
    pub namespace: Vec<NamespaceIdent>,
    pub properties: Properties,
}

/// The path a listing starts from: the parameter's segments, or the root.
pub open spec fn parent_path(parent: Option<&str>) -> Seq<Seq<char>> {
    match parent {
        Some(p) => split_units(p@),
        None => Seq::empty(),
    }
}

/// Lists the full paths of the children of `parent` (the root when none is
/// given); a parent without a namespace record is not found.
pub fn get(conn: &DBConnection, parent: Option<&str>) -> (r: CatalogResult<Vec<Vec<NamespaceIdent>>>)
    ensures
        parent is Some && !valid_param(parent.unwrap()@) ==> r is Err && r.unwrap_err().error_type
            == ErrorType::BadRequest,
        parent is None || valid_param(parent.unwrap()@) ==> match namespace_at(
            conn@,
            namespace_key(parent_path(parent)),
        ) {
            None => r is Err && r.unwrap_err().error_type == ErrorType::NotFound
                && r.unwrap_err().location == Location::Namespace
                && r.unwrap_err().message@ == "Namespace "@ + joined(parent_path(parent), "."@) + " not found"@,
            Some(ns) => r is Ok && r.unwrap().deep_view() == ns.child.map_values(
                |c: Seq<char>| parent_path(parent).push(c),
            ),
        },
{
    let path = match parent {
        Some(p) => {
            let param = NamespaceParam::try_from(p)?;
            param.0
        },
        None => Vec::new(),
    };
    proof {
        assert(path.deep_view() =~= parent_path(parent));
    }
    match Namespace::list(conn, &path) {
        Some(v) => Ok(v),
        None => Err(Error::of(ErrorType::NotFound, Location::Namespace, framed("Namespace ", &join_path(&path, "."), " not found"))),
    }
}

/// Creates the namespace a request names, with its properties, stamped with
/// the time now; answers with its path and stored properties.
pub fn post(conn: &mut DBConnection, create_request: CreateNamespaceRequest) -> (r: CatalogResult<CreateNamespaceResponse>)
    ensures
        match r {
            Ok(res) => !old(conn)@.contains_key(namespace_key(create_request.namespace.deep_view()))
                && res.namespace.deep_view() == create_request.namespace.deep_view(),
            Err(e) => old(conn)@.contains_key(namespace_key(create_request.namespace.deep_view()))
                && e.error_type == ErrorType::AlreadyExists && final(conn)@ == old(conn)@,
        },
        exists|t: nat|
            #![trigger fresh_namespace(given_properties(create_request.properties), t)]
            final(conn)@ == store_after_create(
                old(conn)@,
                create_request.namespace.deep_view(),
                given_properties(create_request.properties),
                t,
            ) && (r is Ok ==> entries_of(r.unwrap().properties) == fresh_namespace(
                given_properties(create_request.properties),
                t,
            ).properties),
{
    let ghost g = given_properties(create_request.properties);
    let ghost s0 = conn@;
    let CreateNamespaceRequest { namespace, properties } = create_request;
    let ghost lv = namespace.deep_view();
    let created = Namespace::create(conn, &namespace, properties);
    proof {
        let t = choose|t: nat|
            #![trigger fresh_namespace(g, t)]
            conn@ == store_after_create(s0, lv, g, t) && (created is Ok ==> created.unwrap()@ == fresh_namespace(g, t));
        let _ = fresh_namespace(g, t);
    }
    let created = created?;
    Ok(CreateNamespaceResponse { namespace, properties: created.properties })
}

/// Answers whether the namespace at a path is present; an absent one is not found.
pub fn head_by_name(conn: &DBConnection, namespace: &NamespaceParam) -> (r: CatalogResult<Empty>)
    ensures
        r is Ok <==> conn@.contains_key(namespace_key(namespace.0.deep_view())),
        r is Err ==> r.unwrap_err().error_type == ErrorType::NotFound && r.unwrap_err().location
            == Location::Namespace && r.unwrap_err().message@ == "Namespace "@ + joined(namespace.0.deep_view(), "."@)
            + " not found"@,
{
    if Namespace::is_present(conn, &namespace.0) {
        Ok(Empty {})
    } else {
        Err(Error::of(ErrorType::NotFound, Location::Namespace, framed("Namespace ", &join_path(&namespace.0, "."), " not found")))
    }
}

/// The properties of the namespace at a path.
pub fn get_by_name(conn: &DBConnection, namespace: &NamespaceParam) -> (r: CatalogResult<Properties>)
    ensures
        match namespace_at(conn@, namespace_key(namespace.0.deep_view())) {
            Some(ns) => r is Ok && entries_of(r.unwrap()) == ns.properties,
            None => r is Err && r.unwrap_err().error_type == ErrorType::NotFound,
        },
{
    Namespace::get_properties(conn, &namespace.0)
}

/// Drops the namespace at a path, which must exist and have no children.
pub fn delete_by_name(conn: &mut DBConnection, namespace: &NamespaceParam) -> (r: CatalogResult<Empty>)
    ensures
        final(conn)@ == store_after_delete(old(conn)@, namespace.0.deep_view()),
        match r {
            Ok(_) => delete_error(old(conn)@, namespace.0.deep_view()) is None,
            Err(e) => delete_error(old(conn)@, namespace.0.deep_view()) == Some(e.error_type),
        },
{
    Namespace::delete(conn, &namespace.0)?;
    Ok(Empty {})
}

/// Removes and sets properties of the namespace at a path. A request with
/// neither removals nor updates is refused; otherwise as `Namespace::update`.
pub fn post_properties(
    conn: &mut DBConnection,
    namespace: &NamespaceParam,
    update_request: UpdateNamespaceRequest,
) -> (r: CatalogResult<UpdateNamespaceResult>)
    ensures
        update_request.removals is None && update_request.updates is None ==> r is Err
            && r.unwrap_err().error_type == ErrorType::BadRequest && r.unwrap_err().location == Location::Request
            && r.unwrap_err().message@ == "No updates or removals provided"@ && final(conn)@ == old(conn)@,
        update_request.removals is Some || update_request.updates is Some ==> {
            &&& final(conn)@ == store_after_update(
                old(conn)@,
                namespace.0.deep_view(),
                given_removals(update_request.removals),
                given_updates(update_request.updates),
            )
            &&& match r {
                Ok(rep) => update_error(
                    old(conn)@,
                    namespace.0.deep_view(),
                    given_removals(update_request.removals),
                    given_updates(update_request.updates),
                ) is None && (rep.removed_keys.deep_view(), rep.missing_keys.deep_view()) == removal_report(
                    namespace_at(old(conn)@, namespace_key(namespace.0.deep_view())).unwrap().properties.dom(),
                    given_removals(update_request.removals),
                ) && rep.updated_keys.deep_view().no_duplicates() && rep.updated_keys.deep_view().to_set()
                    == updated_key_set(given_updates(update_request.updates)),
                Err(e) => update_error(
                    old(conn)@,
                    namespace.0.deep_view(),
                    given_removals(update_request.removals),
                    given_updates(update_request.updates),
                ) == Some(e.error_type),
            }
        },
{
    if update_request.removals.is_none() && update_request.updates.is_none() {
        return Err(Error::of(ErrorType::BadRequest, Location::Request, String::from_str("No updates or removals provided")));
    }
    let UpdateNamespaceRequest { removals, updates } = update_request;
    Namespace::update(conn, &namespace.0, removals, updates)
}

/// The tables of the namespace at a path, each with that path; a namespace
/// that is absent or has no tables is not found.
pub fn get_table_by_namespace(conn: &DBConnection, namespace: &NamespaceParam) -> (r: CatalogResult<ListTablesResponse>)
    ensures
        match namespace_at(conn@, namespace_key(namespace.0.deep_view())) {
            Some(ns) if ns.tables.len() > 0 => r is Ok && r.unwrap().identifiers@.len() == ns.tables.len()
                && forall|i: int|
                0 <= i < ns.tables.len() ==> #[trigger] r.unwrap().identifiers@[i].name@ == ns.tables[i]
                    && r.unwrap().identifiers@[i].namespace.0.deep_view() == namespace.0.deep_view(),
            _ => r is Err && r.unwrap_err().error_type == ErrorType::NotFound && r.unwrap_err().location
                == Location::Table && r.unwrap_err().message@ == "No tables found for the specified namespace"@,
        },
{
    let key = hash(&namespace.0);
    let names = match Table::list(conn, key) {
        Some(v) => v,
        None => Vec::new(),
    };
    let ghost tables = names.deep_view();
    let mut identifiers: Vec<TableIdentifier> = Vec::new();
    let mut i: usize = 0;
    while i < names.len()
        invariant
            i <= names@.len(),
            tables == names.deep_view(),
            identifiers@.len() == i,
            forall|j: int|
                0 <= j < i ==> #[trigger] identifiers@[j].name@ == tables[j] && identifiers@[j].namespace.0.deep_view()
                    == namespace.0.deep_view(),
        decreases names@.len() - i,
    {
        identifiers.push(TableIdentifier { namespace: NamespaceResponse(copy_strings(&namespace.0)), name: names[i].clone() });
        i = i + 1;
    }
    if identifiers.len() == 0 {
        return Err(Error::of(
            ErrorType::NotFound,
            Location::Table,
            String::from_str("No tables found for the specified namespace"),
        ));
    }
    Ok(ListTablesResponse { identifiers })
}

/// Creates the table a request names in the namespace at a path; answers
/// with its metadata.
pub fn post_table_by_namespace(
    conn: &mut DBConnection,
    namespace: &NamespaceParam,
    create_table_request: CreateTableRequest,
    generator: &mut TableMetadataAtomicIncr,
) -> (r: CatalogResult<LoadTableResult>)
    requires
        old(generator).issued() < u64::MAX,
    ensures
        final(conn)@ == table::store_after_create(
            old(conn)@,
            namespace_key(namespace.0.deep_view()),
            create_table_request.name@,
            old(generator).issued(),
        ),
        match r {
            Ok(res) => create_error(old(conn)@, namespace_key(namespace.0.deep_view()), create_table_request.name@) is None
                && res.metadata.format_version == 1 && res.metadata.table_uuid@ == uuid_text(old(generator).issued()),
            Err(e) => create_error(old(conn)@, namespace_key(namespace.0.deep_view()), create_table_request.name@)
                == Some(e.error_type),
        },
{
    let key = hash(&namespace.0);
    let created = Table::create(conn, key, create_table_request.name, generator)?;
    Ok(LoadTableResult { metadata: created.metadata })
}

/// Registers the table a request names in the namespace at a path, without
/// reading its metadata file: it is recorded and listed as a created table
/// is, with the next identity of `generator`; answers with its metadata.
pub fn register_table(
    conn: &mut DBConnection,
    namespace: &NamespaceParam,
    register_table_request: RegisterTableRequest,
    generator: &mut TableMetadataAtomicIncr,
) -> (r: CatalogResult<LoadTableResult>)
    requires
        old(generator).issued() < u64::MAX,
    ensures
        final(conn)@ == table::store_after_create(
            old(conn)@,
            namespace_key(namespace.0.deep_view()),
            register_table_request.name@,
            old(generator).issued(),
        ),
        r is Ok <==> create_error(old(conn)@, namespace_key(namespace.0.deep_view()), register_table_request.name@) is None,
        match r {
            Ok(res) => res.metadata.format_version == 1 && res.metadata.table_uuid@ == uuid_text(old(generator).issued()),
            Err(e) => create_error(old(conn)@, namespace_key(namespace.0.deep_view()), register_table_request.name@)
                == Some(e.error_type),
        },
{
    let key = hash(&namespace.0);
    let created = Table::create(conn, key, register_table_request.name, generator)?;
    Ok(LoadTableResult { metadata: created.metadata })
}

/// The metadata of a table of the namespace at a path; a key without a
/// table record is not found.
pub fn get_table(conn: &DBConnection, namespace: &NamespaceParam, table: &str) -> (r: CatalogResult<LoadTableResult>)
    ensures
        match table_at(conn@, table_key(namespace_key(namespace.0.deep_view()), table@)) {
            Some(t) => r is Ok && r.unwrap().metadata.format_version == t.format_version
                && r.unwrap().metadata.table_uuid@ == t.table_uuid,
            None => r is Err && r.unwrap_err().error_type == ErrorType::NotFound && r.unwrap_err().location
                == Location::Table,
        },
{
    let key = hash(&namespace.0);
    match Table::get(conn, key, String::from_str(table)) {
        Some(t) => Ok(LoadTableResult { metadata: t.metadata }),
        None => Err(Error::of(ErrorType::NotFound, Location::Table, String::from_str("Table not found"))),
    }
}

/// Commits changes to a table; answers with placeholder metadata and an
/// empty location.
pub fn post_table(namespace: &str, table: &str, commit_table_request: CommitTableRequest) -> (r: CatalogResult<CommitTableResponse>)
    ensures
        r is Ok,
        r.unwrap().metadata_location@ == Seq::<char>::empty(),
        r.unwrap().metadata.format_version == 1,
        r.unwrap().metadata.table_uuid@ == "generated_uuid"@,
{
    Ok(CommitTableResponse {
        metadata: TableMetadata { format_version: 1, table_uuid: String::from_str("generated_uuid") },
        metadata_location: String::new(),
    })
}

/// Drops a table of the namespace at a path.
pub fn delete_table(
    conn: &mut DBConnection,
    namespace: &NamespaceParam,
    table: &str,
    purge_requested: PurgeRequested,
) -> (r: CatalogResult<Empty>)
    ensures
        final(conn)@ == table::store_after_delete(old(conn)@, namespace_key(namespace.0.deep_view()), table@),
        r is Ok <==> old(conn)@.contains_key(table_key(namespace_key(namespace.0.deep_view()), table@)),
        r is Err ==> r.unwrap_err().error_type == ErrorType::NotFound,
{
    let key = hash(&namespace.0);
    Table::delete(conn, key, String::from_str(table))?;
    Ok(Empty {})
}

/// Answers whether a table of the namespace at a path is present.
pub fn head_table(conn: &DBConnection, namespace: &NamespaceParam, table: &str) -> (r: CatalogResult<Empty>)
    ensures
        r is Ok <==> conn@.contains_key(table_key(namespace_key(namespace.0.deep_view()), table@)),
        r is Err ==> r.unwrap_err().error_type == ErrorType::NotFound && r.unwrap_err().location == Location::Table
            && r.unwrap_err().message@ == "Table not found"@,
{
    let key = hash(&namespace.0);
    if Table::is_present(conn, key, String::from_str(table)) {
        Ok(Empty {})
    } else {
        Err(Error::of(ErrorType::NotFound, Location::Table, String::from_str("Table not found")))
    }
}

/// Renames a table within the source's namespace to the destination's name.
pub fn rename_table(conn: &mut DBConnection, rename_table_request: RenameTableRequest) -> (r: CatalogResult<Empty>)
    ensures
        r is Ok,
        final(conn)@ == store_after_rename(
            old(conn)@,
            namespace_key(rename_table_request.source.namespace.0.deep_view()),
            rename_table_request.source.name@,
            rename_table_request.destination.name@,
        ),
{
    let key = hash(&rename_table_request.source.namespace.0);
    let RenameTableRequest { source, destination } = rename_table_request;
    let _ = Table::rename(conn, key, source.name, destination.name)?;
    Ok(Empty {})
}

} // verus!
