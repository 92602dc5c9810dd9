use extism_host::error::ValidationError;
use extism_host::manifest::Wasm;
use extism_host::schema::{
    field_index, place_fields, read_manifest, read_memory, read_opt_text, read_opt_u32,
    read_opt_u64, read_paths, read_text, read_text_list, read_text_table, read_wasm,
    read_wasm_list,
    same_text, Shape, Value,
};

fn text(s: &str) -> Value {
    Value::Text(s.to_string())
}

fn table(entries: Vec<(&str, Value)>) -> Value {
    Value::Table(entries.into_iter().map(|(k, v)| (k.to_string(), v)).collect())
}

#[test]
fn memory_max_is_an_alias_of_max_pages() {
    let m = read_manifest(&table(vec![("memory", table(vec![("max", Value::Integer(4))]))])).unwrap();
    assert_eq!(m.memory.max_pages, Some(4));
    let m = read_manifest(&table(vec![("memory", table(vec![("max_pages", Value::Integer(4))]))]))
        .unwrap();
    assert_eq!(m.memory.max_pages, Some(4));
    assert_eq!(read_memory(&table(vec![("max", Value::Integer(7))])).unwrap().max_pages, Some(7));
}

#[test]
fn a_field_named_twice_is_refused() {
    assert!(read_memory(&table(vec![("max", Value::Integer(4)), ("max_pages", Value::Integer(4))]))
        .is_err());
    assert!(read_memory(&table(vec![("max", Value::Integer(4)), ("max", Value::Integer(4))]))
        .is_err());
    assert!(read_manifest(&table(vec![
        ("timeout_ms", Value::Integer(1)),
        ("timeout_ms", Value::Integer(1))
    ]))
    .is_err());
    assert!(read_wasm(&table(vec![
        ("url", text("http://h")),
        ("header", table(vec![])),
        ("headers", table(vec![]))
    ]))
    .is_err());
}

#[test]
fn an_empty_table_is_the_default_manifest() {
    let m = read_manifest(&table(vec![])).unwrap();
    assert!(m.wasm.is_empty());
    assert_eq!(m.memory.max_pages, None);
    assert!(m.config.is_empty());
    assert_eq!(m.allowed_hosts, None);
    assert!(m.allowed_paths.is_none());
    assert_eq!(m.timeout_ms, Some(30000));
}

#[test]
fn a_full_manifest_is_read() {
    let v = table(vec![
        (
            "wasm",
            Value::List(vec![
                table(vec![("path", text("a.wasm")), ("name", text("helper"))]),
                table(vec![("data", text("AGFzbQ==")), ("hash", text("abc"))]),
                table(vec![
                    ("url", text("https://example.com/p.wasm")),
                    ("headers", table(vec![("Authorization", text("token"))])),
                    ("method", text("GET")),
                    ("name", text("main")),
                ]),
            ]),
        ),
        ("memory", table(vec![("max_pages", Value::Integer(16))])),
        ("config", table(vec![("k", text("v")), ("k", text("w"))])),
        ("allowed_hosts", Value::List(vec![text("example.com"), text("*.trusted.org")])),
        ("allowed_paths", table(vec![(".", text("/tmp"))])),
        ("timeout_ms", Value::Integer(5000)),
    ]);
    let m = read_manifest(&v).unwrap();
    assert_eq!(m.wasm.len(), 3);
    assert!(matches!(&m.wasm[0], Wasm::File { path, meta }
        if path == "a.wasm" && meta.name.as_deref() == Some("helper") && meta.hash.is_none()));
    assert!(matches!(&m.wasm[1], Wasm::Data { data, meta }
        if data == &vec![0u8, 97, 115, 109] && meta.hash.as_deref() == Some("abc")));
    assert!(matches!(&m.wasm[2], Wasm::Url { req, meta }
        if req.url == "https://example.com/p.wasm"
            && req.method.as_deref() == Some("GET")
            && req.headers.get("Authorization") == Some(&"token".to_string())
            && req.headers.len() == 1
            && meta.name.as_deref() == Some("main")));
    assert_eq!(m.entry_module(), Some(2));
    assert_eq!(m.memory.max_pages, Some(16));
    assert_eq!(m.config.len(), 1);
    assert_eq!(m.config.get("k"), Some(&"w".to_string()));
    assert_eq!(
        m.allowed_hosts,
        Some(vec!["example.com".to_string(), "*.trusted.org".to_string()])
    );
    assert_eq!(m.allowed_paths.as_ref().unwrap().as_map().get("."), Some(&"/tmp".to_string()));
    assert_eq!(m.timeout_ms, Some(5000));
}

#[test]
fn an_unknown_field_is_refused() {
    assert_eq!(
        read_manifest(&table(vec![("wasmm", Value::List(vec![]))])).unwrap_err(),
        ValidationError::Malformed
    );
    assert!(read_manifest(&table(vec![("memory", table(vec![("min", Value::Integer(1))]))]))
        .is_err());
    assert!(read_manifest(&table(vec![(
        "wasm",
        Value::List(vec![table(vec![("path", text("a")), ("extra", text("b"))])])
    )]))
    .is_err());
    assert!(read_wasm(&table(vec![("url", text("http://h")), ("body", text("b"))])).is_err());
    assert!(read_manifest(&table(vec![("Wasm", Value::List(vec![]))])).is_err());
}

#[test]
fn the_header_alias_fills_the_headers() {
    let w = read_wasm(&table(vec![
        ("url", text("http://h")),
        ("header", table(vec![("a", text("1"))])),
    ]))
    .unwrap();
    assert!(matches!(&w, Wasm::Url { req, .. }
        if req.headers.get("a") == Some(&"1".to_string()) && req.method.is_none()));
    let w = read_wasm(&table(vec![("url", text("http://h"))])).unwrap();
    assert!(matches!(&w, Wasm::Url { req, meta }
        if req.headers.is_empty() && req.method.is_none() && meta.name.is_none()));
}

#[test]
fn a_module_source_has_exactly_one_kind() {
    assert!(read_wasm(&table(vec![])).is_err());
    assert!(read_wasm(&table(vec![("name", text("main"))])).is_err());
    assert!(read_wasm(&table(vec![("path", text("a")), ("data", text(""))])).is_err());
    assert!(read_wasm(&table(vec![("path", text("a")), ("url", text("http://h"))])).is_err());
    assert!(read_wasm(&table(vec![("data", text("")), ("url", text("http://h"))])).is_err());
    assert!(read_wasm(&table(vec![("path", text("a")), ("method", text("GET"))])).is_err());
    assert!(read_wasm(&table(vec![("data", text("")), ("headers", table(vec![]))])).is_err());
    assert!(read_wasm(&text("a.wasm")).is_err());
    assert!(read_wasm(&Value::Null).is_err());
}

#[test]
fn values_of_the_wrong_kind_are_refused() {
    assert!(read_wasm(&table(vec![("path", Value::Integer(1))])).is_err());
    assert!(read_wasm(&table(vec![("path", Value::Null)])).is_err());
    assert!(read_wasm(&table(vec![("data", text("not base64!"))])).is_err());
    assert!(read_wasm(&table(vec![("url", text("h")), ("headers", Value::Null)])).is_err());
    assert!(read_wasm(&table(vec![("url", text("h")), ("method", Value::Integer(1))])).is_err());
    assert!(read_wasm(&table(vec![("path", text("a")), ("name", Value::Bool(true))])).is_err());
    assert!(read_manifest(&Value::List(vec![])).is_err());
    assert!(read_manifest(&Value::Null).is_err());
    assert!(read_manifest(&table(vec![("wasm", Value::Null)])).is_err());
    assert!(read_manifest(&table(vec![("wasm", table(vec![]))])).is_err());
    assert!(read_manifest(&table(vec![("memory", Value::Null)])).is_err());
    assert!(read_manifest(&table(vec![("memory", Value::Integer(4))])).is_err());
    assert!(read_manifest(&table(vec![("config", Value::Null)])).is_err());
    assert!(read_manifest(&table(vec![("config", table(vec![("k", Value::Integer(1))]))])).is_err());
    assert!(read_manifest(&table(vec![("allowed_hosts", text("example.com"))])).is_err());
    assert!(read_manifest(&table(vec![("allowed_hosts", Value::List(vec![Value::Null]))]))
        .is_err());
    assert!(read_manifest(&table(vec![("allowed_paths", Value::List(vec![]))])).is_err());
    assert!(read_manifest(&table(vec![("timeout_ms", text("1"))])).is_err());
    assert!(read_manifest(&table(vec![("timeout_ms", Value::Fraction)])).is_err());
    assert!(read_manifest(&table(vec![("timeout_ms", Value::Integer(-1))])).is_err());
    assert!(read_manifest(&table(vec![("timeout_ms", Value::Integer(1i128 << 64))])).is_err());
    assert!(read_memory(&table(vec![("max", Value::Integer(1i128 << 32))])).is_err());
    assert!(read_memory(&table(vec![("max", Value::Integer(-1))])).is_err());
    assert!(read_memory(&table(vec![("max", Value::Fraction)])).is_err());
    assert!(read_memory(&table(vec![("max", text("4"))])).is_err());
    assert!(read_memory(&Value::List(vec![Value::Integer(4)])).is_err());
}

#[test]
fn the_absent_value_stands_for_none() {
    let m = read_manifest(&table(vec![
        ("allowed_hosts", Value::Null),
        ("allowed_paths", Value::Null),
        ("timeout_ms", Value::Null),
        ("memory", table(vec![("max_pages", Value::Null)])),
    ]))
    .unwrap();
    assert_eq!(m.allowed_hosts, None);
    assert!(m.allowed_paths.is_none());
    assert_eq!(m.timeout_ms, None);
    assert_eq!(m.memory.max_pages, None);
    let w = read_wasm(&table(vec![
        ("url", text("h")),
        ("method", Value::Null),
        ("name", Value::Null),
        ("hash", Value::Null),
    ]))
    .unwrap();
    assert!(matches!(&w, Wasm::Url { req, meta }
        if req.method.is_none() && meta.name.is_none() && meta.hash.is_none()));
}

#[test]
fn empty_lists_and_tables_are_explicit() {
    let m = read_manifest(&table(vec![
        ("wasm", Value::List(vec![])),
        ("allowed_hosts", Value::List(vec![])),
        ("allowed_paths", table(vec![])),
        ("config", table(vec![])),
        ("memory", table(vec![])),
    ]))
    .unwrap();
    assert!(m.wasm.is_empty());
    assert_eq!(m.allowed_hosts, Some(vec![]));
    assert!(m.allowed_paths.as_ref().unwrap().as_map().is_empty());
    assert!(m.config.is_empty());
    assert_eq!(m.memory.max_pages, None);
}

#[test]
fn numbers_at_the_edges_are_read() {
    assert_eq!(read_opt_u32(&Value::Integer(0)), Ok(Some(0)));
    assert_eq!(read_opt_u32(&Value::Integer(4294967295)), Ok(Some(u32::MAX)));
    assert_eq!(read_opt_u32(&Value::Integer(4294967296)), Err(ValidationError::Malformed));
    assert_eq!(read_opt_u32(&Value::Null), Ok(None));
    assert_eq!(read_opt_u32(&Value::Bool(true)), Err(ValidationError::Malformed));
    assert_eq!(read_opt_u64(&Value::Integer(u64::MAX as i128)), Ok(Some(u64::MAX)));
    assert_eq!(read_opt_u64(&Value::Integer(u64::MAX as i128 + 1)), Err(ValidationError::Malformed));
    assert_eq!(read_opt_u64(&Value::Integer(i128::MIN)), Err(ValidationError::Malformed));
    assert_eq!(read_opt_u64(&Value::Null), Ok(None));
}

#[test]
fn plain_values_are_read() {
    assert_eq!(read_text(&text("a")), Ok("a".to_string()));
    assert_eq!(read_text(&Value::Null), Err(ValidationError::Malformed));
    assert_eq!(read_opt_text(&text("a")), Ok(Some("a".to_string())));
    assert_eq!(read_opt_text(&Value::Null), Ok(None));
    assert_eq!(read_opt_text(&Value::Integer(1)), Err(ValidationError::Malformed));
    assert_eq!(
        read_text_list(&Value::List(vec![text("a"), text("b")])),
        Ok(vec!["a".to_string(), "b".to_string()])
    );
    assert_eq!(
        read_text_list(&Value::List(vec![text("a"), Value::Integer(1)])),
        Err(ValidationError::Malformed)
    );
    assert_eq!(read_text_list(&text("a")), Err(ValidationError::Malformed));
    let t = read_text_table(&table(vec![("a", text("1")), ("b", text("2")), ("a", text("3"))]))
        .unwrap();
    assert_eq!(t.len(), 2);
    assert_eq!(t.get("a"), Some(&"3".to_string()));
    assert!(read_text_table(&table(vec![("a", Value::Null)])).is_err());
    assert!(read_text_table(&Value::List(vec![])).is_err());
    assert_eq!(read_wasm_list(&Value::List(vec![table(vec![("path", text("p"))])])).unwrap().len(), 1);
    assert!(read_wasm_list(&Value::List(vec![text("p")])).is_err());
    assert!(read_wasm_list(&Value::Null).is_err());
}

#[test]
fn keys_name_fields() {
    assert_eq!(field_index(Shape::Manifest, "wasm"), Some(0));
    assert_eq!(field_index(Shape::Manifest, "memory"), Some(1));
    assert_eq!(field_index(Shape::Manifest, "config"), Some(2));
    assert_eq!(field_index(Shape::Manifest, "allowed_hosts"), Some(3));
    assert_eq!(field_index(Shape::Manifest, "allowed_paths"), Some(4));
    assert_eq!(field_index(Shape::Manifest, "timeout_ms"), Some(5));
    assert_eq!(field_index(Shape::Manifest, "timeout"), None);
    assert_eq!(field_index(Shape::Manifest, "max"), None);
    assert_eq!(field_index(Shape::Memory, "max"), Some(0));
    assert_eq!(field_index(Shape::Memory, "max_pages"), Some(0));
    assert_eq!(field_index(Shape::Memory, "maximum"), None);
    assert_eq!(field_index(Shape::Wasm, "path"), Some(0));
    assert_eq!(field_index(Shape::Wasm, "data"), Some(1));
    assert_eq!(field_index(Shape::Wasm, "url"), Some(2));
    assert_eq!(field_index(Shape::Wasm, "headers"), Some(3));
    assert_eq!(field_index(Shape::Wasm, "header"), Some(3));
    assert_eq!(field_index(Shape::Wasm, "method"), Some(4));
    assert_eq!(field_index(Shape::Wasm, "name"), Some(5));
    assert_eq!(field_index(Shape::Wasm, "hash"), Some(6));
    assert_eq!(field_index(Shape::Wasm, ""), None);
    assert_eq!(field_index(Shape::Wasm, "wasm"), None);
}

#[test]
fn fields_are_placed_by_position() {
    let entries = vec![
        ("hash".to_string(), Value::Null),
        ("path".to_string(), text("p")),
    ];
    assert_eq!(
        place_fields(&entries, Shape::Wasm),
        Some(vec![Some(1), None, None, None, None, None, Some(0)])
    );
    assert_eq!(place_fields(&entries, Shape::Memory), None);
    assert_eq!(place_fields(&Vec::new(), Shape::Memory), Some(vec![None]));
}

#[test]
fn texts_are_compared_by_their_characters() {
    assert!(same_text("", ""));
    assert!(same_text("max", "max"));
    assert!(!same_text("max", "max_pages"));
    assert!(!same_text("max", "maX"));
    assert!(same_text("é", "é"));
    assert!(!same_text("é", "e"));
}

#[test]
fn paths_read_from_a_description_keep_guest_paths_apart() {
    let m = read_manifest(&table(vec![(
        "allowed_paths",
        table(vec![("/a", text("/g")), ("/x", text("/y")), ("/b", text("/g")), ("/x", text("/z"))]),
    )]))
    .unwrap();
    let paths = m.allowed_paths.as_ref().unwrap().as_map();
    assert_eq!(paths.len(), 2);
    assert_eq!(paths.get("/a"), None);
    assert_eq!(paths.get("/b"), Some(&"/g".to_string()));
    assert_eq!(paths.get("/x"), Some(&"/z".to_string()));
    assert!(read_paths(&table(vec![("/a", Value::Integer(1))])).is_err());
    assert!(read_paths(&Value::Null).is_err());
    assert_eq!(read_paths(&table(vec![])).unwrap().as_map().len(), 0);
}
