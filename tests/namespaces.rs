use rest_catalog::db::{DBConnection, Record};
use rest_catalog::namespace::{hash, join_path, Namespace};
use rest_catalog::result::{ErrorType, Location};

fn path(segments: &[&str]) -> Vec<String> {
    segments.iter().map(|s| s.to_string()).collect()
}

fn strings(items: &[&str]) -> Vec<String> {
    items.iter().map(|s| s.to_string()).collect()
}

fn store_with(level: &[&str]) -> DBConnection {
    let mut conn = DBConnection::new();
    Namespace::init_at(&mut conn, 7).unwrap();
    Namespace::create_at(&mut conn, &path(level), None, 11).unwrap();
    conn
}

#[test]
fn hash_of_paths() {
    assert_eq!(hash(&path(&[])), "root");
    assert_eq!(hash(&path(&["a"])), "root::a");
    assert_eq!(hash(&path(&["accounting", "tax"])), "root::accounting::tax");
    assert_eq!(join_path(&path(&["a", "b", "c"]), "."), "a.b.c");
}

#[test]
fn init_creates_root_once() {
    let mut conn = DBConnection::new();
    assert!(!Namespace::is_present(&conn, &path(&[])));
    Namespace::init_at(&mut conn, 5).unwrap();
    assert!(Namespace::is_present(&conn, &path(&[])));
    let props = Namespace::get_properties(&conn, &path(&[])).unwrap();
    assert_eq!(props.get("created_at"), Some(&serde_json::Value::from("5")));
    Namespace::init_at(&mut conn, 9).unwrap();
    let props = Namespace::get_properties(&conn, &path(&[])).unwrap();
    assert_eq!(props.get("created_at"), Some(&serde_json::Value::from("5")));
}

#[test]
fn init_with_clock_stamps_root() {
    let mut conn = DBConnection::new();
    Namespace::init(&mut conn).unwrap();
    let props = Namespace::get_properties(&conn, &path(&[])).unwrap();
    assert!(props.contains_key("created_at"));
}

#[test]
fn create_then_exists_and_second_create_refused() {
    let mut conn = DBConnection::new();
    let created = Namespace::create_at(&mut conn, &path(&["a", "b"]), None, 42).unwrap();
    assert!(created.child.is_empty());
    assert!(created.tables.is_empty());
    assert_eq!(created.properties.get("created_at"), Some(&serde_json::Value::from("42")));
    assert!(Namespace::is_present(&conn, &path(&["a", "b"])));
    let again = Namespace::create_at(&mut conn, &path(&["a", "b"]), None, 43);
    let e = again.unwrap_err();
    assert_eq!(e.error_type, ErrorType::AlreadyExists);
    assert_eq!(e.location, Location::Namespace);
    assert_eq!(e.message, "Namespace root::a::b already exists");
}

#[test]
fn create_with_clock_keeps_given_properties() {
    let mut conn = DBConnection::new();
    let mut props = serde_json::Map::new();
    props.insert("owner".to_string(), serde_json::Value::from("ana"));
    let created = Namespace::create(&mut conn, &path(&["x"]), Some(props)).unwrap();
    assert_eq!(created.properties.get("owner"), Some(&serde_json::Value::from("ana")));
    assert!(created.properties.contains_key("created_at"));
    assert!(Namespace::create(&mut conn, &path(&["x"]), None).is_err());
}

#[test]
fn create_does_not_link_parent() {
    let mut conn = store_with(&["a"]);
    Namespace::create_at(&mut conn, &path(&["a", "b"]), None, 1).unwrap();
    let children = Namespace::list(&conn, &path(&["a"])).unwrap();
    assert!(children.is_empty());
}

#[test]
fn list_gives_full_child_paths_in_order() {
    let mut conn = DBConnection::new();
    let record = Namespace { child: strings(&["x", "y"]), properties: serde_json::Map::new(), tables: vec![] };
    conn.put("root::p".to_string(), Record::Namespace(record));
    let children = Namespace::list(&conn, &path(&["p"])).unwrap();
    assert_eq!(children, vec![path(&["p", "x"]), path(&["p", "y"])]);
    assert!(Namespace::list(&conn, &path(&["q"])).is_none());
}

#[test]
fn delete_refuses_namespace_with_children() {
    let mut conn = DBConnection::new();
    let record = Namespace { child: strings(&["x"]), properties: serde_json::Map::new(), tables: vec![] };
    conn.put("root::p".to_string(), Record::Namespace(record));
    let e = Namespace::delete(&mut conn, &path(&["p"])).unwrap_err();
    assert_eq!(e.error_type, ErrorType::BadRequest);
    assert_eq!(e.message, "Namespace root::p has children");
    assert!(Namespace::is_present(&conn, &path(&["p"])));
    assert_eq!(Namespace::list(&conn, &path(&["p"])).unwrap(), vec![path(&["p", "x"])]);
}

#[test]
fn delete_removes_namespace_without_children() {
    let mut conn = store_with(&["a"]);
    Namespace::delete(&mut conn, &path(&["a"])).unwrap();
    assert!(!Namespace::is_present(&conn, &path(&["a"])));
    let e = Namespace::delete(&mut conn, &path(&["a"])).unwrap_err();
    assert_eq!(e.error_type, ErrorType::NotFound);
    assert_eq!(e.message, "Namespace root::a not found");
}

#[test]
fn get_properties_of_missing_namespace() {
    let conn = DBConnection::new();
    let e = Namespace::get_properties(&conn, &path(&["nonexist"])).unwrap_err();
    assert_eq!(e.error_type, ErrorType::NotFound);
    assert_eq!(e.location, Location::Namespace);
    assert_eq!(e.message, "Namespace root::nonexist not found");
}

#[test]
fn update_conflicting_key_refused_whether_or_not_present() {
    let mut conn = store_with(&["p"]);
    let mut updates = serde_json::Map::new();
    updates.insert("a".to_string(), serde_json::Value::from(1));
    let e = Namespace::update(&mut conn, &path(&["p"]), Some(strings(&["a"])), Some(updates.clone())).unwrap_err();
    assert_eq!(e.error_type, ErrorType::BadRequest);
    assert_eq!(e.message, "Key a is present in both removals and updates");

    let mut set_a = serde_json::Map::new();
    set_a.insert("a".to_string(), serde_json::Value::from(0));
    Namespace::update(&mut conn, &path(&["p"]), None, Some(set_a)).unwrap();
    let e = Namespace::update(&mut conn, &path(&["p"]), Some(strings(&["a"])), Some(updates.clone())).unwrap_err();
    assert_eq!(e.error_type, ErrorType::BadRequest);
    let props = Namespace::get_properties(&conn, &path(&["p"])).unwrap();
    assert_eq!(props.get("a"), Some(&serde_json::Value::from(0)));

    let e = Namespace::update(&mut conn, &path(&["missing"]), Some(strings(&["a"])), Some(updates)).unwrap_err();
    assert_eq!(e.error_type, ErrorType::BadRequest);
}

#[test]
fn update_missing_key_reported_missing() {
    let mut conn = store_with(&["p"]);
    let rep = Namespace::update(&mut conn, &path(&["p"]), Some(strings(&["missing_key"])), Some(serde_json::Map::new()))
        .unwrap();
    assert!(rep.removed_keys.is_empty());
    assert_eq!(rep.missing_keys, strings(&["missing_key"]));
    assert!(rep.updated_keys.is_empty());
}

#[test]
fn update_removes_then_sets_and_persists() {
    let mut conn = store_with(&["p"]);
    let mut first = serde_json::Map::new();
    first.insert("a".to_string(), serde_json::Value::from(1));
    first.insert("b".to_string(), serde_json::Value::from(2));
    let rep = Namespace::update(&mut conn, &path(&["p"]), None, Some(first)).unwrap();
    assert_eq!(rep.updated_keys, strings(&["a", "b"]));

    let mut second = serde_json::Map::new();
    second.insert("c".to_string(), serde_json::Value::from("three"));
    let rep = Namespace::update(&mut conn, &path(&["p"]), Some(strings(&["a", "a", "z"])), Some(second)).unwrap();
    assert_eq!(rep.removed_keys, strings(&["a"]));
    assert_eq!(rep.missing_keys, strings(&["a", "z"]));
    assert_eq!(rep.updated_keys, strings(&["c"]));

    let props = Namespace::get_properties(&conn, &path(&["p"])).unwrap();
    assert!(!props.contains_key("a"));
    assert_eq!(props.get("b"), Some(&serde_json::Value::from(2)));
    assert_eq!(props.get("c"), Some(&serde_json::Value::from("three")));
    assert!(props.contains_key("created_at"));
}

#[test]
fn update_of_missing_namespace_not_found() {
    let mut conn = DBConnection::new();
    let e = Namespace::update(&mut conn, &path(&["nope"]), Some(strings(&["a"])), None).unwrap_err();
    assert_eq!(e.error_type, ErrorType::NotFound);
    assert_eq!(e.message, "Namespace root::nope not found");
}

#[test]
fn root_is_never_deleted() {
    let mut conn = DBConnection::new();
    Namespace::init_at(&mut conn, 3).unwrap();
    let e = Namespace::delete(&mut conn, &path(&[])).unwrap_err();
    assert_eq!(e.error_type, ErrorType::BadRequest);
    assert_eq!(e.location, Location::Namespace);
    assert_eq!(e.message, "Namespace root cannot be deleted");
    assert!(Namespace::is_present(&conn, &path(&[])));
}
