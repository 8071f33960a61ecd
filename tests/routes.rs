use rest_catalog::catches::{general_bad_request, general_internal_error, general_not_found, general_unprocessable_request};
use rest_catalog::db::DBConnection;
use rest_catalog::namespace::Namespace;
use rest_catalog::request::{
    CommitTableRequest, CreateNamespaceRequest, CreateTableRequest, NamespaceParam, PurgeRequested,
    RegisterTableRequest, RenameTableRequest, UpdateNamespaceRequest,
};
use rest_catalog::result::{ErrorType, Location};
use rest_catalog::routes::{
    delete_by_name, delete_table, get, get_by_name, get_table, get_table_by_namespace, head_by_name, head_table, post,
    post_properties, post_table, post_table_by_namespace, register_table, rename_table,
};
use rest_catalog::types::{NamespaceResponse, TableIdentifier, TableMetadataAtomicIncr};

fn param(p: &str) -> NamespaceParam {
    NamespaceParam::try_from(p).unwrap()
}

fn fresh() -> DBConnection {
    let mut conn = DBConnection::new();
    Namespace::init_at(&mut conn, 1).unwrap();
    conn
}

fn create(conn: &mut DBConnection, name: &str) {
    let req = CreateNamespaceRequest { namespace: vec![name.to_string()], properties: None };
    post(conn, req).unwrap();
}

#[test]
fn param_splits_on_unit_separator() {
    assert_eq!(param("a").0, vec!["a".to_string()]);
    assert_eq!(param("a\u{1F}b2\u{1F}C").0, vec!["a".to_string(), "b2".to_string(), "C".to_string()]);
    assert_eq!(param("Z9").0, vec!["Z9".to_string()]);
}

#[test]
fn param_refuses_empty_segments() {
    for bad in ["", "a\u{1F}", "\u{1F}a", "a\u{1F}\u{1F}b", "\u{1F}"] {
        let e = NamespaceParam::try_from(bad).err().unwrap();
        assert_eq!(e.error_type, ErrorType::BadRequest);
        assert_eq!(e.message, "Invalid parameter");
    }
}

#[test]
fn param_refuses_other_characters() {
    for bad in ["a-b", "a b", "a::b", "caf\u{e9}", "a_b"] {
        let e = NamespaceParam::try_from(bad).err().unwrap();
        assert_eq!(e.error_type, ErrorType::BadRequest);
        assert_eq!(e.location, Location::Namespace);
        assert_eq!(e.message, "Invalid parameter");
    }
}

#[test]
fn list_non_exist_namespace() {
    let conn = fresh();
    let e = get(&conn, Some("parentnonexist")).unwrap_err();
    assert_eq!(e.error_type, ErrorType::NotFound);
    assert_eq!(e.message, "Namespace parentnonexist not found");
    let e = get(&conn, Some("bad-name")).unwrap_err();
    assert_eq!(e.error_type, ErrorType::BadRequest);
}

#[test]
fn list_namespace_of_root() {
    let conn = fresh();
    assert_eq!(get(&conn, None).unwrap(), Vec::<Vec<String>>::new());
    let e = get(&conn, Some("")).unwrap_err();
    assert_eq!(e.error_type, ErrorType::BadRequest);
}

#[test]
fn create_get_check_and_delete_namespace() {
    let mut conn = fresh();
    let req = CreateNamespaceRequest { namespace: vec!["exist".to_string()], properties: None };
    let res = post(&mut conn, req).unwrap();
    assert_eq!(res.namespace, vec!["exist".to_string()]);
    assert!(res.properties.contains_key("created_at"));
    let again = CreateNamespaceRequest { namespace: vec!["exist".to_string()], properties: None };
    assert_eq!(post(&mut conn, again).unwrap_err().error_type, ErrorType::AlreadyExists);
    assert!(head_by_name(&conn, &param("exist")).is_ok());
    assert!(get_by_name(&conn, &param("exist")).unwrap().contains_key("created_at"));
    assert!(delete_by_name(&mut conn, &param("exist")).is_ok());
    let e = head_by_name(&conn, &param("exist")).unwrap_err();
    assert_eq!(e.error_type, ErrorType::NotFound);
    assert_eq!(e.message, "Namespace exist not found");
}

#[test]
fn get_and_delete_non_exist_namespace() {
    let mut conn = fresh();
    assert_eq!(get_by_name(&conn, &param("nonexist")).unwrap_err().error_type, ErrorType::NotFound);
    assert_eq!(delete_by_name(&mut conn, &param("nonexist")).unwrap_err().error_type, ErrorType::NotFound);
}

#[test]
fn post_properties_needs_removals_or_updates() {
    let mut conn = fresh();
    create(&mut conn, "p");
    let req = UpdateNamespaceRequest { removals: None, updates: None };
    let e = post_properties(&mut conn, &param("p"), req).unwrap_err();
    assert_eq!(e.error_type, ErrorType::BadRequest);
    assert_eq!(e.location, Location::Request);
    assert_eq!(e.message, "No updates or removals provided");
}

#[test]
fn post_properties_updates_and_reports() {
    let mut conn = fresh();
    create(&mut conn, "p");
    let mut updates = serde_json::Map::new();
    updates.insert("k".to_string(), serde_json::Value::from(true));
    let req = UpdateNamespaceRequest { removals: Some(vec!["gone".to_string()]), updates: Some(updates) };
    let rep = post_properties(&mut conn, &param("p"), req).unwrap();
    assert!(rep.removed_keys.is_empty());
    assert_eq!(rep.missing_keys, vec!["gone".to_string()]);
    assert_eq!(rep.updated_keys, vec!["k".to_string()]);
    assert_eq!(get_by_name(&conn, &param("p")).unwrap().get("k"), Some(&serde_json::Value::from(true)));
}

#[test]
fn get_table_by_namespace_empty_result() {
    let mut conn = fresh();
    let e = get_table_by_namespace(&conn, &param("namespacenametest")).unwrap_err();
    assert_eq!(e.error_type, ErrorType::NotFound);
    assert_eq!(e.location, Location::Table);
    create(&mut conn, "namespacenametest");
    let e = get_table_by_namespace(&conn, &param("namespacenametest")).unwrap_err();
    assert_eq!(e.message, "No tables found for the specified namespace");
}

#[test]
fn table_routes_round_trip() {
    let mut conn = fresh();
    let mut g = TableMetadataAtomicIncr::new();
    create(&mut conn, "ns");
    let ns = param("ns");
    assert_eq!(head_table(&conn, &ns, "t").unwrap_err().error_type, ErrorType::NotFound);
    let loaded = post_table_by_namespace(&mut conn, &ns, CreateTableRequest { name: "t".to_string() }, &mut g).unwrap();
    assert_eq!(loaded.metadata.table_uuid, "uuid0");
    let e = post_table_by_namespace(&mut conn, &ns, CreateTableRequest { name: "t".to_string() }, &mut g).unwrap_err();
    assert_eq!(e.error_type, ErrorType::AlreadyExists);
    assert!(head_table(&conn, &ns, "t").is_ok());
    let listed = get_table_by_namespace(&conn, &ns).unwrap();
    assert_eq!(listed.identifiers.len(), 1);
    assert_eq!(listed.identifiers[0].name, "t");
    assert_eq!(listed.identifiers[0].namespace.0, vec!["ns".to_string()]);
    assert_eq!(get_table(&conn, &ns, "t").unwrap().metadata.format_version, 1);

    let rename = RenameTableRequest {
        source: TableIdentifier { namespace: NamespaceResponse(vec!["ns".to_string()]), name: "t".to_string() },
        destination: TableIdentifier { namespace: NamespaceResponse(vec!["ns".to_string()]), name: "u".to_string() },
    };
    assert!(rename_table(&mut conn, rename).is_ok());
    assert_eq!(head_table(&conn, &ns, "t").unwrap_err().error_type, ErrorType::NotFound);
    assert!(head_table(&conn, &ns, "u").is_ok());
    assert_eq!(get_table(&conn, &ns, "u").unwrap().metadata.table_uuid, "uuid0");

    assert!(delete_table(&mut conn, &ns, "u", PurgeRequested { purge_requested: None }).is_ok());
    let e = delete_table(&mut conn, &ns, "u", PurgeRequested { purge_requested: Some(true) }).unwrap_err();
    assert_eq!(e.error_type, ErrorType::NotFound);
    let e = get_table(&conn, &ns, "u").unwrap_err();
    assert_eq!(e.error_type, ErrorType::NotFound);
    assert_eq!(e.message, "Table not found");
}

#[test]
fn post_table_in_missing_namespace_not_found() {
    let mut conn = fresh();
    let mut g = TableMetadataAtomicIncr::new();
    let e = post_table_by_namespace(&mut conn, &param("nope"), CreateTableRequest { name: "t".to_string() }, &mut g)
        .unwrap_err();
    assert_eq!(e.error_type, ErrorType::NotFound);
}

#[test]
fn register_records_and_lists_table() {
    let mut conn = fresh();
    let mut g = TableMetadataAtomicIncr::new();
    let req = RegisterTableRequest { name: "t".to_string(), metadata_location: "s3://x".to_string() };
    let e = register_table(&mut conn, &param("ns"), req, &mut g).unwrap_err();
    assert_eq!(e.error_type, ErrorType::NotFound);
    create(&mut conn, "ns");
    let req = RegisterTableRequest { name: "t".to_string(), metadata_location: "s3://x".to_string() };
    let res = register_table(&mut conn, &param("ns"), req, &mut g).unwrap();
    assert_eq!(res.metadata.format_version, 1);
    assert_eq!(res.metadata.table_uuid, "uuid0");
    assert!(head_table(&conn, &param("ns"), "t").is_ok());
    let listed = get_table_by_namespace(&conn, &param("ns")).unwrap();
    assert_eq!(listed.identifiers.len(), 1);
    let req = RegisterTableRequest { name: "t".to_string(), metadata_location: "s3://y".to_string() };
    let e = register_table(&mut conn, &param("ns"), req, &mut g).unwrap_err();
    assert_eq!(e.error_type, ErrorType::AlreadyExists);
}

#[test]
fn placeholder_commit() {
    let commit = CommitTableRequest { requirements: vec![], updates: vec![] };
    let res = post_table("ns", "t", commit).unwrap();
    assert_eq!(res.metadata_location, "");
    assert_eq!(res.metadata.table_uuid, "generated_uuid");
}

#[test]
fn catchers_answer_request_errors() {
    let e = general_not_found().unwrap_err();
    assert_eq!((e.error_type, e.location), (ErrorType::NotFound, Location::Request));
    assert_eq!(e.message, "Resource not found, please check the URL");
    let e = general_bad_request().unwrap_err();
    assert_eq!((e.error_type, e.message.as_str()), (ErrorType::BadRequest, "Bad Request"));
    let e = general_unprocessable_request().unwrap_err();
    assert_eq!((e.error_type, e.message.as_str()), (ErrorType::Unprocessable, "Unprocessable request"));
    let e = general_internal_error().unwrap_err();
    assert_eq!((e.error_type, e.message.as_str()), (ErrorType::InternalError, "Internal server error"));
}
