use rest_catalog::catalog::Catalog;
use rest_catalog::error::{Code, Error, ErrorType};

fn s(x: &str) -> String {
    x.to_string()
}

#[test]
fn catalog_namespace_posts() {
    let mut c = Catalog::new();
    assert_eq!(c.post_namespace_func(s("")), (false, s("400 Bad Request")));
    assert_eq!(c.post_namespace_func(s("n")), (true, s("200 OK")));
    assert_eq!(c.post_namespace_func(s("n")), (false, s("409 Conflict; Namespace already exists")));
}

#[test]
fn catalog_table_lifecycle() {
    let mut c = Catalog::new();
    assert_eq!(c.post_table_func(s("n"), s("")), (false, s("400 Bad Request")));
    assert_eq!(c.post_table_func(s("n"), s("t")), (false, s("404 NotFound; Namespace not found")));
    c.post_namespace_func(s("n"));
    assert_eq!(c.head_table_func(s("n"), s("t")), (false, s("404 NotFound; Table not found")));
    assert_eq!(c.post_table_func(s("n"), s("t")), (true, s("200 OK")));
    assert_eq!(c.post_table_func(s("n"), s("t")), (false, s("409 Conflict; Table already exists")));
    assert_eq!(c.head_table_func(s("n"), s("t")), (true, s("204 NoContent; Success")));
    assert_eq!(c.head_table_func(s("m"), s("t")), (false, s("402 NotFound; Namespace not found")));
    assert_eq!(c.delete_table_func(s("m"), s("t")), (false, s("402 NotFound; Namespace not found")));
    assert_eq!(c.delete_table_func(s(""), s("t")), (false, s("400 Bad Request")));
    assert_eq!(c.delete_table_func(s("n"), s("t")), (true, s("204 NoContent; Success")));
    assert_eq!(c.delete_table_func(s("n"), s("t")), (false, s("404 NotFound; Table not found")));
    assert_eq!(c.head_table_func(s("n"), s("")), (false, s("400 Bad Request")));
}

#[test]
fn coded_errors_keep_kind_and_message() {
    let e = Error::new(Code::NotFound(s("no such table")));
    assert_eq!(e.get_type(), ErrorType::NotFound);
    assert_eq!(e.message(), "no such table");
    assert_eq!(Error::new(Code::Internal(s("x"))).get_type(), ErrorType::Internal);
    assert_eq!(Error::new(Code::InvalidArgument(s("y"))).get_type(), ErrorType::InvalidArgument);
    assert_eq!(Error::new(Code::AlreadyExists(s("z"))).get_type(), ErrorType::AlreadyExists);
}
