use rest_catalog::db::DBConnection;
use rest_catalog::namespace::Namespace;
use rest_catalog::result::{ErrorType, Location};
use rest_catalog::table::{table_key_of, Table};
use rest_catalog::types::TableMetadataAtomicIncr;

fn path(segments: &[&str]) -> Vec<String> {
    segments.iter().map(|s| s.to_string()).collect()
}

fn s(x: &str) -> String {
    x.to_string()
}

fn store_with_namespace(level: &[&str]) -> DBConnection {
    let mut conn = DBConnection::new();
    Namespace::init_at(&mut conn, 1).unwrap();
    Namespace::create_at(&mut conn, &path(level), None, 2).unwrap();
    conn
}

#[test]
fn table_key_joins_with_underscore() {
    assert_eq!(table_key_of(&s("root::a"), &s("t")), "root::a_t");
}

#[test]
fn generator_counts_up() {
    let mut g = TableMetadataAtomicIncr::new();
    assert_eq!(g.issued_count(), 0);
    let m0 = g.generate_table_metadata(1);
    let m1 = g.generate_table_metadata(2);
    assert_eq!(m0.table_uuid, "uuid0");
    assert_eq!(m0.format_version, 1);
    assert_eq!(m1.table_uuid, "uuid1");
    assert_eq!(m1.format_version, 2);
    assert_eq!(g.issued_count(), 2);
    for _ in 0..10 {
        g.generate_table_metadata(1);
    }
    assert_eq!(g.generate_table_metadata(1).table_uuid, "uuid12");
}

#[test]
fn create_table_needs_namespace() {
    let mut conn = DBConnection::new();
    let mut g = TableMetadataAtomicIncr::new();
    let e = Table::create(&mut conn, s("root::never"), s("t"), &mut g).unwrap_err();
    assert_eq!(e.error_type, ErrorType::NotFound);
    assert_eq!(e.location, Location::Namespace);
    assert_eq!(e.message, "Namespace root::never not found");
    assert_eq!(g.issued_count(), 0);
    assert!(!Table::is_present(&conn, s("root::never"), s("t")));
}

#[test]
fn create_table_twice_refused_and_listed_once() {
    let mut conn = store_with_namespace(&["a"]);
    let mut g = TableMetadataAtomicIncr::new();
    let t = Table::create(&mut conn, s("root::a"), s("t"), &mut g).unwrap();
    assert_eq!(t.name, "t");
    assert_eq!(t.metadata.table_uuid, "uuid0");
    assert_eq!(t.metadata.format_version, 1);
    assert_eq!(t.schema.schema_id, 0);
    assert!(t.schema.identifier_field_ids.is_empty());
    let e = Table::create(&mut conn, s("root::a"), s("t"), &mut g).unwrap_err();
    assert_eq!(e.error_type, ErrorType::AlreadyExists);
    assert_eq!(e.location, Location::Table);
    assert_eq!(e.message, "Table root::a_t already exists");
    let listed = Table::list(&conn, s("root::a")).unwrap();
    assert_eq!(listed.iter().filter(|n| n.as_str() == "t").count(), 1);
    assert_eq!(g.issued_count(), 1);
}

#[test]
fn tables_get_distinct_identities() {
    let mut conn = store_with_namespace(&["a"]);
    let mut g = TableMetadataAtomicIncr::new();
    Table::create(&mut conn, s("root::a"), s("t1"), &mut g).unwrap();
    Table::create(&mut conn, s("root::a"), s("t2"), &mut g).unwrap();
    let t1 = Table::get(&conn, s("root::a"), s("t1")).unwrap();
    let t2 = Table::get(&conn, s("root::a"), s("t2")).unwrap();
    assert_eq!(t1.metadata.table_uuid, "uuid0");
    assert_eq!(t2.metadata.table_uuid, "uuid1");
    assert_eq!(Table::list(&conn, s("root::a")).unwrap(), vec![s("t1"), s("t2")]);
}

#[test]
fn get_and_list_of_missing() {
    let conn = store_with_namespace(&["a"]);
    assert!(Table::get(&conn, s("root::a"), s("none")).is_none());
    assert!(Table::get(&conn, s("root::b"), s("none")).is_none());
    assert!(Table::list(&conn, s("root::b")).is_none());
    assert_eq!(Table::list(&conn, s("root::a")).unwrap(), Vec::<String>::new());
}

#[test]
fn delete_missing_table_not_found() {
    let mut conn = store_with_namespace(&["a"]);
    let e = Table::delete(&mut conn, s("root::a"), s("t")).unwrap_err();
    assert_eq!(e.error_type, ErrorType::NotFound);
    assert_eq!(e.location, Location::Table);
    assert_eq!(e.message, "Table root::a_t not found");
}

#[test]
fn delete_table_removes_first_listing() {
    let mut conn = store_with_namespace(&["a"]);
    let mut g = TableMetadataAtomicIncr::new();
    for name in ["t1", "t2", "t3"] {
        Table::create(&mut conn, s("root::a"), s(name), &mut g).unwrap();
    }
    Table::delete(&mut conn, s("root::a"), s("t2")).unwrap();
    assert!(!Table::is_present(&conn, s("root::a"), s("t2")));
    assert_eq!(Table::list(&conn, s("root::a")).unwrap(), vec![s("t1"), s("t3")]);
}

#[test]
fn rename_moves_table_in_place() {
    let mut conn = store_with_namespace(&["ns"]);
    let mut g = TableMetadataAtomicIncr::new();
    Table::create(&mut conn, s("root::ns"), s("t0"), &mut g).unwrap();
    Table::create(&mut conn, s("root::ns"), s("t1"), &mut g).unwrap();
    Table::create(&mut conn, s("root::ns"), s("t9"), &mut g).unwrap();
    assert!(Table::rename(&mut conn, s("root::ns"), s("t1"), s("t2")).unwrap());
    assert!(!Table::is_present(&conn, s("root::ns"), s("t1")));
    assert!(Table::is_present(&conn, s("root::ns"), s("t2")));
    assert_eq!(Table::list(&conn, s("root::ns")).unwrap(), vec![s("t0"), s("t2"), s("t9")]);
    let moved = Table::get(&conn, s("root::ns"), s("t2")).unwrap();
    assert_eq!(moved.name, "t2");
    assert_eq!(moved.metadata.table_uuid, "uuid1");
}

#[test]
fn rename_not_applicable_changes_nothing() {
    let mut conn = store_with_namespace(&["ns"]);
    let mut g = TableMetadataAtomicIncr::new();
    Table::create(&mut conn, s("root::ns"), s("t1"), &mut g).unwrap();
    Table::create(&mut conn, s("root::ns"), s("t2"), &mut g).unwrap();
    assert!(!Table::rename(&mut conn, s("root::ns"), s("missing"), s("t3")).unwrap());
    assert!(!Table::rename(&mut conn, s("root::ns"), s("t1"), s("t2")).unwrap());
    assert!(!Table::rename(&mut conn, s("root::ns"), s("t1"), s("t1")).unwrap());
    assert!(!Table::rename(&mut conn, s("root::other"), s("t1"), s("t3")).unwrap());
    assert_eq!(Table::list(&conn, s("root::ns")).unwrap(), vec![s("t1"), s("t2")]);
    assert_eq!(Table::get(&conn, s("root::ns"), s("t1")).unwrap().metadata.table_uuid, "uuid0");
}

#[test]
fn namespace_table_lifecycle() {
    let mut conn = DBConnection::new();
    Namespace::init_at(&mut conn, 100).unwrap();
    Namespace::create_at(&mut conn, &path(&["a"]), None, 101).unwrap();
    let mut g = TableMetadataAtomicIncr::new();
    Table::create(&mut conn, s("root::a"), s("t"), &mut g).unwrap();
    assert_eq!(Table::list(&conn, s("root::a")).unwrap(), vec![s("t")]);
    Table::delete(&mut conn, s("root::a"), s("t")).unwrap();
    assert_eq!(Table::list(&conn, s("root::a")).unwrap(), Vec::<String>::new());
    Namespace::delete(&mut conn, &path(&["a"])).unwrap();
    assert!(!Namespace::is_present(&conn, &path(&["a"])));
    assert!(Namespace::is_present(&conn, &path(&[])));
}
