use sprattus::descriptor::synthesize;
use sprattus::descriptor::FieldDecl;
use sprattus::descriptor::TypeDecl;
use sprattus::descriptor::TypeDescriptor;
use sprattus::rows::decode_row;
use sprattus::rows::DecodeError;
use sprattus::rows::Record;
use sprattus::rows::Value;

fn field(name: &str, rust_type: &str) -> FieldDecl {
    FieldDecl {
        name: Some(String::from(name)),
        rust_type: String::from(rust_type),
        nullable: false,
        primary_key: false,
        rename: None,
    }
}

fn key_field(name: &str, rust_type: &str) -> FieldDecl {
    FieldDecl {
        primary_key: true,
        ..field(name, rust_type)
    }
}

fn product() -> TypeDescriptor {
    synthesize(&TypeDecl {
        struct_name: String::from("Product"),
        table: None,
        fields: vec![key_field("prod_id", "i32"), field("title", "String")],
    })
    .unwrap()
}

#[test]
fn encode_orders_primary_key_first() {
    let rec = Record {
        values: vec![Value::Int(7), Value::Varchar(String::from("x"))],
    };
    assert_eq!(
        rec.clone().into_all_values(),
        vec![Value::Int(7), Value::Varchar(String::from("x"))]
    );
    assert_eq!(
        rec.into_query_params(),
        vec![Value::Varchar(String::from("x"))]
    );
}

#[test]
fn decode_of_encode_returns_the_record() {
    let desc = product();
    let rec = Record {
        values: vec![Value::Int(7), Value::Varchar(String::from("x"))],
    };
    let encoded = rec.clone().into_all_values();
    assert_eq!(decode_row(&desc, encoded), Ok(rec));
}

#[test]
fn decode_accepts_null_in_any_column() {
    let desc = product();
    let row = vec![Value::Int(1), Value::Null];
    assert_eq!(
        decode_row(&desc, row.clone()),
        Ok(Record { values: row })
    );
}

#[test]
fn decode_rejects_wrong_column_count() {
    let desc = product();
    assert_eq!(
        decode_row(&desc, vec![Value::Int(1)]),
        Err(DecodeError::ColumnCountMismatch { expected: 2, got: 1 })
    );
}

#[test]
fn decode_rejects_first_ill_typed_column() {
    let desc = product();
    assert_eq!(
        decode_row(&desc, vec![Value::Int(1), Value::Bool(true)]),
        Err(DecodeError::TypeMismatch {
            column: String::from("title"),
            index: 1,
        })
    );
    // Both columns wrong: the first one is reported.
    assert_eq!(
        decode_row(&desc, vec![Value::Bool(false), Value::Bool(true)]),
        Err(DecodeError::TypeMismatch {
            column: String::from("prod_id"),
            index: 0,
        })
    );
}
