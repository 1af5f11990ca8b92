use sprattus::descriptor::synthesize;
use sprattus::descriptor::FieldDecl;
use sprattus::descriptor::TypeDecl;
use sprattus::descriptor::TypeDescriptor;
use sprattus::statements::create_multiple_sql;
use sprattus::statements::create_sql;
use sprattus::statements::delete_multiple_sql;
use sprattus::statements::delete_sql;
use sprattus::statements::generate_field_list;
use sprattus::statements::update_multiple_sql;
use sprattus::statements::update_sql;

fn field(name: &str, rust_type: &str) -> FieldDecl {
    FieldDecl {
        name: Some(String::from(name)),
        rust_type: String::from(rust_type),
        nullable: false,
        primary_key: false,
        rename: None,
    }
}

fn key_field(name: &str, rust_type: &str) -> FieldDecl {
    FieldDecl {
        primary_key: true,
        ..field(name, rust_type)
    }
}

fn product() -> TypeDescriptor {
    synthesize(&TypeDecl {
        struct_name: String::from("Product"),
        table: None,
        fields: vec![key_field("prod_id", "i32"), field("title", "String")],
    })
    .unwrap()
}

fn wide_product() -> TypeDescriptor {
    synthesize(&TypeDecl {
        struct_name: String::from("Product"),
        table: None,
        fields: vec![
            key_field("prod_id", "i32"),
            field("title", "String"),
            field("price", "i64"),
        ],
    })
    .unwrap()
}

/// A type whose column names are all SQL reserved words.
fn collate() -> TypeDescriptor {
    synthesize(&TypeDecl {
        struct_name: String::from("Collate"),
        table: None,
        fields: vec![
            key_field("id", "i32"),
            field("column", "bool"),
            field("desc", "bool"),
            FieldDecl {
                nullable: true,
                ..field("constraint", "i32")
            },
            field("current_user", "String"),
            field("fetch", "String"),
        ],
    })
    .unwrap()
}

#[test]
fn field_list_quotes_names() {
    let names = vec![String::from("prod_id"), String::from("title")];
    assert_eq!(generate_field_list(&names), "\"prod_id\",\"title\"");
}

#[test]
fn field_list_keeps_already_quoted_names() {
    let names = vec![String::from("\"desc\""), String::from("title")];
    assert_eq!(generate_field_list(&names), "\"desc\",\"title\"");
}

#[test]
fn descriptor_identifier_lists() {
    let desc = product();
    assert_eq!(desc.get_table_name(), "\"Product\"");
    assert_eq!(desc.get_primary_key(), "\"prod_id\"");
    assert_eq!(desc.get_fields(), "\"title\"");
    assert_eq!(desc.get_all_fields(), "\"prod_id\",\"title\"");
    assert_eq!(desc.get_argument_count(), 1);
    assert_eq!(desc.get_prepared_arguments_list(), "$1");
    assert_eq!(
        desc.get_prepared_arguments_list_with_types(),
        "$1::INT,$2::VARCHAR"
    );
}

#[test]
fn create_statement() {
    assert_eq!(
        create_sql(&product()),
        "INSERT INTO \"Product\" (\"title\") VALUES ($1) RETURNING *"
    );
}

#[test]
fn create_multiple_statement_for_three_records() {
    assert_eq!(
        create_multiple_sql(&product(), 3),
        "INSERT INTO \"Product\" (\"title\") VALUES ($1),($2),($3) RETURNING *"
    );
}

#[test]
fn create_multiple_statement_for_wide_records() {
    assert_eq!(
        create_multiple_sql(&wide_product(), 2),
        "INSERT INTO \"Product\" (\"title\",\"price\") VALUES ($1,$2),($3,$4) RETURNING *"
    );
}

#[test]
fn update_statement_uses_scalar_set_for_one_column() {
    assert_eq!(
        update_sql(&product()),
        "UPDATE \"Product\" SET \"title\" = $2 WHERE \"prod_id\" = $1 RETURNING *"
    );
}

#[test]
fn update_statement_uses_tuple_set_for_many_columns() {
    assert_eq!(
        update_sql(&wide_product()),
        "UPDATE \"Product\" SET (\"title\",\"price\") = ($2,$3) WHERE \"prod_id\" = $1 RETURNING *"
    );
}

#[test]
fn update_multiple_statement_scalar_form() {
    assert_eq!(
        update_multiple_sql(&product(), 2),
        "UPDATE \"Product\" AS P SET \"title\" = temp_table.\"title\" \
         FROM (VALUES ($1::INT,$2::VARCHAR),($3,$4)) \
         AS temp_table(\"prod_id\",\"title\") \
         WHERE P.\"prod_id\" = temp_table.\"prod_id\" RETURNING *"
    );
}

#[test]
fn update_multiple_statement_tuple_form() {
    assert_eq!(
        update_multiple_sql(&wide_product(), 2),
        "UPDATE \"Product\" AS P SET (\"title\",\"price\") = \
         (temp_table.\"title\",temp_table.\"price\") \
         FROM (VALUES ($1::INT,$2::VARCHAR,$3::BIGINT),($4,$5,$6)) \
         AS temp_table(\"prod_id\",\"title\",\"price\") \
         WHERE P.\"prod_id\" = temp_table.\"prod_id\" RETURNING *"
    );
}

#[test]
fn update_multiple_statement_for_one_record_has_no_plain_groups() {
    assert_eq!(
        update_multiple_sql(&product(), 1),
        "UPDATE \"Product\" AS P SET \"title\" = temp_table.\"title\" \
         FROM (VALUES ($1::INT,$2::VARCHAR)) \
         AS temp_table(\"prod_id\",\"title\") \
         WHERE P.\"prod_id\" = temp_table.\"prod_id\" RETURNING *"
    );
}

#[test]
fn delete_statement() {
    assert_eq!(
        delete_sql(&product()),
        "DELETE FROM \"Product\" WHERE \"prod_id\" IN ($1) RETURNING *"
    );
}

#[test]
fn delete_multiple_statement_for_three_records() {
    assert_eq!(
        delete_multiple_sql(&product(), 3),
        "DELETE FROM \"Product\" WHERE \"prod_id\" IN ($1,$2,$3) RETURNING *"
    );
}

#[test]
fn reserved_word_columns_are_always_quoted() {
    let desc = collate();
    assert_eq!(
        desc.get_fields(),
        "\"column\",\"desc\",\"constraint\",\"current_user\",\"fetch\""
    );
    let statements = vec![
        create_sql(&desc),
        create_multiple_sql(&desc, 2),
        update_sql(&desc),
        update_multiple_sql(&desc, 2),
        delete_sql(&desc),
        delete_multiple_sql(&desc, 2),
    ];
    for sql in statements {
        // `desc` never appears bare: every occurrence is the quoted
        // column name.
        assert!(!sql.contains(" desc"));
        assert!(!sql.contains("(desc"));
        assert!(!sql.contains(",desc"));
        if sql.contains("desc") {
            assert!(sql.contains("\"desc\""));
        }
    }
    assert_eq!(
        create_sql(&desc),
        "INSERT INTO \"Collate\" \
         (\"column\",\"desc\",\"constraint\",\"current_user\",\"fetch\") \
         VALUES ($1,$2,$3,$4,$5) RETURNING *"
    );
}
