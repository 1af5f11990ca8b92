//! The fixed table of supported host scalar types and the wire-type
//! categories they are encoded as on the client/server protocol.

use crate::text::str_eq;
use vstd::prelude::*;

verus! {

/// The scalar category a field's value is encoded as on the wire.
///
/// A nullable host type resolves to the wire type of its inner type; the
/// wire type itself carries no nullability.
#[derive(Clone, Copy, Debug, PartialEq, Eq, Structural)]
pub enum WireType {
    Bool,
    Char,
    SmallInt,
    Int,
    Oid,
    BigInt,
    Real,
    DoublePrecision,
    Varchar,
    Time,
    Date,
    Uuid,
    Timestamp,
    Json,
    MacAddr,
}

/// The wire type a host scalar type name maps to, or `None` for a name
/// outside the supported set.
pub open spec fn wire_type_of(name: Seq<char>) -> Option<WireType> {
    if name == "bool"@ {
        Some(WireType::Bool)
    } else if name == "str"@ {
        Some(WireType::Varchar)
    } else if name == "i8"@ {
        Some(WireType::Char)
    } else if name == "i16"@ {
        Some(WireType::SmallInt)
    } else if name == "i32"@ {
        Some(WireType::Int)
    } else if name == "u32"@ {
        Some(WireType::Oid)
    } else if name == "i64"@ {
        Some(WireType::BigInt)
    } else if name == "f32"@ {
        Some(WireType::Real)
    } else if name == "f64"@ {
        Some(WireType::DoublePrecision)
    } else if name == "String"@ {
        Some(WireType::Varchar)
    } else if name == "NaiveTime"@ {
        Some(WireType::Time)
    } else if name == "NaiveDate"@ {
        Some(WireType::Date)
    } else if name == "Uuid"@ {
        Some(WireType::Uuid)
    } else if name == "NaiveDateTime"@ {
        Some(WireType::Timestamp)
    } else if name == "Json"@ {
        Some(WireType::Json)
    } else if name == "MacAddress"@ {
        Some(WireType::MacAddr)
    } else {
        None
    }
}

/// Looks a host scalar type name up in the fixed scalar-type table.
///
/// The lookup is a total function of the name: a supported name always
/// resolves, an unsupported one always yields `None` — never a panic.
pub fn wire_type_of_name(name: &str) -> (r: Option<WireType>)
    ensures
        r == wire_type_of(name@),
{
    if str_eq(name, "bool") {
        Some(WireType::Bool)
    } else if str_eq(name, "str") {
        Some(WireType::Varchar)
    } else if str_eq(name, "i8") {
        Some(WireType::Char)
    } else if str_eq(name, "i16") {
        Some(WireType::SmallInt)
    } else if str_eq(name, "i32") {
        Some(WireType::Int)
    } else if str_eq(name, "u32") {
        Some(WireType::Oid)
    } else if str_eq(name, "i64") {
        Some(WireType::BigInt)
    } else if str_eq(name, "f32") {
        Some(WireType::Real)
    } else if str_eq(name, "f64") {
        Some(WireType::DoublePrecision)
    } else if str_eq(name, "String") {
        Some(WireType::Varchar)
    } else if str_eq(name, "NaiveTime") {
        Some(WireType::Time)
    } else if str_eq(name, "NaiveDate") {
        Some(WireType::Date)
    } else if str_eq(name, "Uuid") {
        Some(WireType::Uuid)
    } else if str_eq(name, "NaiveDateTime") {
        Some(WireType::Timestamp)
    } else if str_eq(name, "Json") {
        Some(WireType::Json)
    } else if str_eq(name, "MacAddress") {
        Some(WireType::MacAddr)
    } else {
        None
    }
}

/// The SQL spelling of a wire type, as used in `::TYPE` parameter casts.
pub open spec fn wire_sql_name(w: WireType) -> Seq<char> {
    match w {
        WireType::Bool => "BOOL"@,
        WireType::Char => "CHAR"@,
        WireType::SmallInt => "SMALLINT"@,
        WireType::Int => "INT"@,
        WireType::Oid => "OID"@,
        WireType::BigInt => "BIGINT"@,
        WireType::Real => "REAL"@,
        WireType::DoublePrecision => "DOUBLE PRECISION"@,
        WireType::Varchar => "VARCHAR"@,
        WireType::Time => "TIME"@,
        WireType::Date => "DATE"@,
        WireType::Uuid => "UUID"@,
        WireType::Timestamp => "TIMESTAMP"@,
        WireType::Json => "JSON"@,
        WireType::MacAddr => "MACADDR"@,
    }
}

pub fn wire_sql_str(w: WireType) -> (r: &'static str)
    ensures
        r@ == wire_sql_name(w),
{
    match w {
        WireType::Bool => "BOOL",
        WireType::Char => "CHAR",
        WireType::SmallInt => "SMALLINT",
        WireType::Int => "INT",
        WireType::Oid => "OID",
        WireType::BigInt => "BIGINT",
        WireType::Real => "REAL",
        WireType::DoublePrecision => "DOUBLE PRECISION",
        WireType::Varchar => "VARCHAR",
        WireType::Time => "TIME",
        WireType::Date => "DATE",
        WireType::Uuid => "UUID",
        WireType::Timestamp => "TIMESTAMP",
        WireType::Json => "JSON",
        WireType::MacAddr => "MACADDR",
    }
}

/// The SQL type name for a host scalar type name: `Some` exactly on the
/// supported set, `None` — not a panic — on everything else.
pub fn get_postgres_datatype(rust_type: &str) -> (r: Option<String>)
    ensures
        match wire_type_of(rust_type@) {
            Some(w) => r matches Some(s) && s@ == wire_sql_name(w),
            None => r is None,
        },
{
    match wire_type_of_name(rust_type) {
        Some(w) => Some(String::from_str(wire_sql_str(w))),
        None => None,
    }
}

} // verus!
