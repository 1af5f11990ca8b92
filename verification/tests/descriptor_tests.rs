use sprattus::descriptor::synthesize;
use sprattus::descriptor::FieldDecl;
use sprattus::descriptor::SynthesisError;
use sprattus::descriptor::TypeDecl;
use sprattus::wire::get_postgres_datatype;
use sprattus::wire::WireType;

fn field(name: &str, rust_type: &str) -> FieldDecl {
    FieldDecl {
        name: Some(String::from(name)),
        rust_type: String::from(rust_type),
        nullable: false,
        primary_key: false,
        rename: None,
    }
}

fn key_field(name: &str, rust_type: &str) -> FieldDecl {
    FieldDecl {
        primary_key: true,
        ..field(name, rust_type)
    }
}

fn product_decl() -> TypeDecl {
    TypeDecl {
        struct_name: String::from("Product"),
        table: None,
        fields: vec![key_field("prod_id", "i32"), field("title", "String")],
    }
}

#[test]
fn scalar_type_table_is_total_over_the_supported_set() {
    let cases = [
        ("bool", "BOOL"),
        ("str", "VARCHAR"),
        ("i8", "CHAR"),
        ("i16", "SMALLINT"),
        ("i32", "INT"),
        ("u32", "OID"),
        ("i64", "BIGINT"),
        ("f32", "REAL"),
        ("f64", "DOUBLE PRECISION"),
        ("String", "VARCHAR"),
        ("NaiveTime", "TIME"),
        ("NaiveDate", "DATE"),
        ("Uuid", "UUID"),
        ("NaiveDateTime", "TIMESTAMP"),
        ("Json", "JSON"),
        ("MacAddress", "MACADDR"),
    ];
    for (rust_type, sql_type) in cases {
        assert_eq!(get_postgres_datatype(rust_type).as_deref(), Some(sql_type));
    }
}

#[test]
fn unsupported_scalar_type_is_a_lookup_miss_not_a_panic() {
    assert_eq!(get_postgres_datatype("Instant"), None);
    assert_eq!(get_postgres_datatype(""), None);
    assert_eq!(get_postgres_datatype("BOOL"), None);
}

#[test]
fn product_descriptor() {
    let desc = synthesize(&product_decl()).unwrap();
    assert_eq!(desc.table_name, "Product");
    assert_eq!(desc.primary_key.source_name, "prod_id");
    assert_eq!(desc.primary_key.sql_name, "prod_id");
    assert_eq!(desc.primary_key.wire_type, WireType::Int);
    assert_eq!(desc.columns.len(), 1);
    assert_eq!(desc.columns[0].sql_name, "title");
    assert_eq!(desc.columns[0].wire_type, WireType::Varchar);
    assert_eq!(desc.all_columns.len(), 2);
    assert_eq!(desc.all_columns[0].sql_name, "prod_id");
    assert_eq!(desc.all_columns[1].sql_name, "title");
    assert_eq!(desc.argument_count, 1);
}

#[test]
fn table_annotation_overrides_declared_name() {
    let mut decl = product_decl();
    decl.table = Some(String::from("products"));
    let desc = synthesize(&decl).unwrap();
    assert_eq!(desc.table_name, "products");
}

#[test]
fn name_annotation_renames_a_column() {
    let mut decl = product_decl();
    decl.fields[1].rename = Some(String::from("product_title"));
    let desc = synthesize(&decl).unwrap();
    assert_eq!(desc.columns[0].source_name, "title");
    assert_eq!(desc.columns[0].sql_name, "product_title");
}

#[test]
fn synthesis_is_idempotent() {
    let d1 = synthesize(&product_decl()).unwrap();
    let d2 = synthesize(&product_decl()).unwrap();
    assert_eq!(d1, d2);
}

#[test]
fn fallback_selects_first_field_whose_name_contains_id() {
    let decl = TypeDecl {
        struct_name: String::from("Order"),
        table: None,
        fields: vec![
            field("title", "String"),
            field("order_id", "i32"),
            field("user_id", "i32"),
        ],
    };
    let desc = synthesize(&decl).unwrap();
    assert_eq!(desc.primary_key.sql_name, "order_id");
    assert_eq!(desc.columns.len(), 2);
    assert_eq!(desc.columns[0].sql_name, "title");
    assert_eq!(desc.columns[1].sql_name, "user_id");
}

#[test]
fn fallback_is_a_plain_substring_match() {
    // `void` contains the substring `id`, so it wins over the later,
    // more plausible column — the documented fragility of the rule.
    let decl = TypeDecl {
        struct_name: String::from("Widget"),
        table: None,
        fields: vec![field("void", "bool"), field("widget_id", "i32")],
    };
    let desc = synthesize(&decl).unwrap();
    assert_eq!(desc.primary_key.sql_name, "void");
}

#[test]
fn annotation_beats_fallback() {
    let decl = TypeDecl {
        struct_name: String::from("Order"),
        table: None,
        fields: vec![field("order_id", "i32"), key_field("code", "i64")],
    };
    let desc = synthesize(&decl).unwrap();
    assert_eq!(desc.primary_key.sql_name, "code");
}

#[test]
fn missing_primary_key_error() {
    let decl = TypeDecl {
        struct_name: String::from("Note"),
        table: None,
        fields: vec![field("title", "String")],
    };
    assert_eq!(
        synthesize(&decl),
        Err(SynthesisError::MissingPrimaryKey {
            struct_name: String::from("Note")
        })
    );
}

#[test]
fn unsupported_type_error_names_type_and_field() {
    let decl = TypeDecl {
        struct_name: String::from("Event"),
        table: None,
        fields: vec![key_field("event_id", "i32"), field("at", "Instant")],
    };
    assert_eq!(
        synthesize(&decl),
        Err(SynthesisError::UnsupportedType {
            struct_name: String::from("Event"),
            field_name: String::from("at"),
        })
    );
}

#[test]
fn positional_field_is_an_unsupported_shape() {
    let decl = TypeDecl {
        struct_name: String::from("Pair"),
        table: None,
        fields: vec![FieldDecl {
            name: None,
            rust_type: String::from("i32"),
            nullable: false,
            primary_key: false,
            rename: None,
        }],
    };
    assert_eq!(
        synthesize(&decl),
        Err(SynthesisError::UnsupportedShape {
            struct_name: String::from("Pair")
        })
    );
}

#[test]
fn duplicate_column_name_error() {
    let mut decl = product_decl();
    decl.fields[1].rename = Some(String::from("prod_id"));
    assert_eq!(
        synthesize(&decl),
        Err(SynthesisError::DuplicateColumnName {
            struct_name: String::from("Product"),
            sql_name: String::from("prod_id"),
        })
    );
}

#[test]
fn nullable_field_maps_through_its_inner_type() {
    let decl = TypeDecl {
        struct_name: String::from("Collate"),
        table: None,
        fields: vec![
            key_field("id", "i32"),
            FieldDecl {
                nullable: true,
                ..field("constraint", "i32")
            },
        ],
    };
    let desc = synthesize(&decl).unwrap();
    assert_eq!(desc.columns[0].wire_type, WireType::Int);
}
