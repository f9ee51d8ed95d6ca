use table_digest::sql::{copy_query, quote_ident, relation_lookup_query, row_query};

#[test]
fn plain_identifier_is_quoted() {
    assert_eq!(quote_ident("orders"), "\"orders\"");
    assert_eq!(quote_ident(""), "\"\"");
}

#[test]
fn quotes_inside_are_doubled() {
    assert_eq!(quote_ident("we\"ird"), "\"we\"\"ird\"");
    assert_eq!(quote_ident("\""), "\"\"\"\"");
    assert_eq!(quote_ident("a\"\"b"), "\"a\"\"\"\"b\"");
}

#[test]
fn identifiers_keep_other_characters() {
    assert_eq!(quote_ident("Größe, in m²"), "\"Größe, in m²\"");
}

#[test]
fn copy_statement() {
    let cols = vec!["id".to_string(), "na\"me".to_string(), "price".to_string()];
    assert_eq!(
        copy_query("public", "orders", &cols).unwrap(),
        "COPY (SELECT \"id\", \"na\"\"me\", \"price\" FROM \"public\".\"orders\" ) TO STDOUT (FORMAT binary)"
    );
}

#[test]
fn copy_statement_one_column() {
    let cols = vec!["id".to_string()];
    assert_eq!(
        copy_query("s", "t", &cols).unwrap(),
        "COPY (SELECT \"id\" FROM \"s\".\"t\" ) TO STDOUT (FORMAT binary)"
    );
}

#[test]
fn no_columns_no_statement() {
    assert_eq!(copy_query("public", "orders", &Vec::new()), None);
}

#[test]
fn row_query_text() {
    assert_eq!(row_query("public", "orders"), "select to_jsonb(t) from \"public\".\"orders\" t");
    assert_eq!(row_query("a\"b", "c"), "select to_jsonb(t) from \"a\"\"b\".\"c\" t");
}

#[test]
fn lookup_query_text() {
    assert_eq!(
        relation_lookup_query(16384),
        "select n.nspname::text, c.relname::text from pg_class c join pg_namespace n on n.oid=c.relnamespace where c.oid = 16384"
    );
    assert!(relation_lookup_query(0).ends_with("c.oid = 0"));
    assert!(relation_lookup_query(u32::MAX).ends_with("c.oid = 4294967295"));
}
