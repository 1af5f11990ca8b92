//! Record values and the row codec: a record travels to the server as a
//! bound-parameter list ordered by the descriptor's columns, and a
//! returned row is converted back into a record through the same
//! ordering, with try-semantics — one mismatched column aborts the whole
//! row with a typed error, never a silent default.

use crate::descriptor::ColumnRef;
use crate::descriptor::TypeDescriptor;
use crate::wire::WireType;
use vstd::prelude::*;

verus! {

/// One column's value as it crosses the wire boundary, as plain data:
/// times and timestamps as microsecond counts, dates as day counts,
/// UUIDs as their 128 bits, MAC addresses as their six octets, and the
/// two floating-point categories as their IEEE bit patterns.  `Null`
/// stands for an absent value of a nullable column.
#[derive(Clone, Debug, PartialEq, Eq)]
pub enum Value {
    Bool(bool),
    Char(i8),
    SmallInt(i16),
    Int(i32),
    Oid(u32),
    BigInt(i64),
    Real { bits: u32 },
    DoublePrecision { bits: u64 },
    Varchar(String),
    Time { microseconds: i64 },
    Date { days: i32 },
    Uuid { hi: u64, lo: u64 },
    Timestamp { microseconds: i64 },
    Json(String),
    MacAddr { octets: [u8; 6] },
    Null,
}

/// A record value: one entry per descriptor column, primary key first,
/// in the descriptor's all-column order.
#[derive(Clone, Debug, PartialEq, Eq)]
pub struct Record {
    pub values: Vec<Value>,
}

/// An error converting a returned row back into a record.
#[derive(Clone, Debug, PartialEq, Eq)]
pub enum DecodeError {
    ColumnCountMismatch { expected: usize, got: usize },
    TypeMismatch { column: String, index: usize },
}

/// Whether a value is of the category a column's wire type calls for.
/// `Null` conforms to every wire type: nullability is a property of the
/// table, not of the descriptor.
pub open spec fn value_conforms(v: Value, w: WireType) -> bool {
    match v {
        Value::Bool(_) => w == WireType::Bool,
        Value::Char(_) => w == WireType::Char,
        Value::SmallInt(_) => w == WireType::SmallInt,
        Value::Int(_) => w == WireType::Int,
        Value::Oid(_) => w == WireType::Oid,
        Value::BigInt(_) => w == WireType::BigInt,
        Value::Real { .. } => w == WireType::Real,
        Value::DoublePrecision { .. } => w == WireType::DoublePrecision,
        Value::Varchar(_) => w == WireType::Varchar,
        Value::Time { .. } => w == WireType::Time,
        Value::Date { .. } => w == WireType::Date,
        Value::Uuid { .. } => w == WireType::Uuid,
        Value::Timestamp { .. } => w == WireType::Timestamp,
        Value::Json(_) => w == WireType::Json,
        Value::MacAddr { .. } => w == WireType::MacAddr,
        Value::Null => true,
    }
}

/// Runtime check matching [`value_conforms`].
pub fn value_conforms_check(v: &Value, w: WireType) -> (r: bool)
    ensures
        r == value_conforms(*v, w),
{
    match v {
        Value::Bool(_) => w == WireType::Bool,
        Value::Char(_) => w == WireType::Char,
        Value::SmallInt(_) => w == WireType::SmallInt,
        Value::Int(_) => w == WireType::Int,
        Value::Oid(_) => w == WireType::Oid,
        Value::BigInt(_) => w == WireType::BigInt,
        Value::Real { .. } => w == WireType::Real,
        Value::DoublePrecision { .. } => w == WireType::DoublePrecision,
        Value::Varchar(_) => w == WireType::Varchar,
        Value::Time { .. } => w == WireType::Time,
        Value::Date { .. } => w == WireType::Date,
        Value::Uuid { .. } => w == WireType::Uuid,
        Value::Timestamp { .. } => w == WireType::Timestamp,
        Value::Json(_) => w == WireType::Json,
        Value::MacAddr { .. } => w == WireType::MacAddr,
        Value::Null => true,
    }
}

impl Record {
    /// Whether this record lines up with a descriptor's columns: one
    /// value per column, each of the column's wire-type category.
    pub open spec fn conforms(self, cols: Seq<ColumnRef>) -> bool {
        &&& self.values@.len() == cols.len()
        &&& forall|i: int|
            0 <= i < cols.len() ==> value_conforms(
                #[trigger] self.values@[i],
                cols[i].wire_type,
            )
    }

    /// The bound-parameter list for operations that carry every column:
    /// the primary-key value first, then the non-key column values in
    /// declaration order.
    pub fn into_all_values(self) -> (r: Vec<Value>)
        ensures
            r@ == self.values@,
    {
        self.values
    }

    /// The record's primary-key value: the first entry, by the
    /// all-column ordering.
    pub fn primary_key_value(&self) -> (r: &Value)
        requires
            self.values@.len() >= 1,
        ensures
            *r == self.values@[0],
    {
        &self.values[0]
    }

    /// The bound-parameter list for operations that carry only non-key
    /// columns (INSERT): the leading primary-key value is dropped, the
    /// rest keep declaration order.
    pub fn into_query_params(self) -> (r: Vec<Value>)
        requires
            self.values@.len() >= 1,
        ensures
            r@ == self.values@.drop_first(),
    {
        let ghost orig = self.values@;
        let mut v = self.values;
        v.remove(0);
        proof {
            assert(v@ =~= orig.drop_first());
        }
        v
    }
}

/// The first row position whose value does not fit its column, if any,
/// scanning from `i`.
pub open spec fn first_mismatch_from(cols: Seq<ColumnRef>, vals: Seq<Value>, i: nat) -> Option<int>
    decreases vals.len() - i,
{
    if i >= vals.len() {
        None
    } else if !value_conforms(vals[i as int], cols[i as int].wire_type) {
        Some(i as int)
    } else {
        first_mismatch_from(cols, vals, i + 1)
    }
}

proof fn lemma_first_mismatch_from_some(cols: Seq<ColumnRef>, vals: Seq<Value>, start: nat, i: int)
    requires
        start <= i < vals.len(),
        !value_conforms(vals[i], cols[i].wire_type),
        forall|j: int|
            start <= j < i ==> value_conforms(#[trigger] vals[j], cols[j].wire_type),
    ensures
        first_mismatch_from(cols, vals, start) == Some(i),
    decreases i - start,
{
    if start < i {
        lemma_first_mismatch_from_some(cols, vals, start + 1, i);
    }
}

proof fn lemma_first_mismatch_from_none(cols: Seq<ColumnRef>, vals: Seq<Value>, start: nat)
    requires
        forall|j: int|
            start <= j < vals.len() ==> value_conforms(#[trigger] vals[j], cols[j].wire_type),
    ensures
        first_mismatch_from(cols, vals, start) is None,
    decreases vals.len() - start,
{
    if start < vals.len() {
        lemma_first_mismatch_from_none(cols, vals, start + 1);
    }
}

/// What decoding a returned row yields: a count mismatch error, the
/// first ill-typed column's error, or the row's values unchanged.
pub open spec fn spec_decode(cols: Seq<ColumnRef>, vals: Seq<Value>) -> Result<
    Seq<Value>,
    DecodeError,
> {
    if vals.len() != cols.len() {
        Err(
            DecodeError::ColumnCountMismatch {
                expected: cols.len() as usize,
                got: vals.len() as usize,
            },
        )
    } else {
        match first_mismatch_from(cols, vals, 0) {
            Some(i) => Err(
                DecodeError::TypeMismatch { column: cols[i].sql_name, index: i as usize },
            ),
            None => Ok(vals),
        }
    }
}

/// Converts one returned row into a record through the descriptor's
/// all-column ordering.  A wrong column count, or any one value outside
/// its column's wire-type category, fails the whole row with the first
/// offending column's name and position.
pub fn decode_row(desc: &TypeDescriptor, row: Vec<Value>) -> (r: Result<Record, DecodeError>)
    ensures
        match spec_decode(desc.all_columns@, row@) {
            Ok(vs) => r matches Ok(rec) && rec.values@ == vs,
            Err(e) => r matches Err(err) && err == e,
        },
{
    let ghost cols = desc.all_columns@;
    let n = desc.all_columns.len();
    if row.len() != n {
        return Err(DecodeError::ColumnCountMismatch { expected: n, got: row.len() });
    }
    let mut i: usize = 0;
    while i < n
        invariant
            n == cols.len(),
            cols == desc.all_columns@,
            n == row@.len(),
            i <= n,
            forall|j: int|
                0 <= j < i ==> value_conforms(#[trigger] row@[j], cols[j].wire_type),
        decreases n - i,
    {
        if !value_conforms_check(&row[i], desc.all_columns[i].wire_type) {
            proof {
                lemma_first_mismatch_from_some(cols, row@, 0, i as int);
            }
            return Err(
                DecodeError::TypeMismatch {
                    column: desc.all_columns[i].sql_name.clone(),
                    index: i,
                },
            );
        }
        i = i + 1;
    }
    proof {
        lemma_first_mismatch_from_none(cols, row@, 0);
    }
    Ok(Record { values: row })
}

/// Round-trip law: a record that conforms to its descriptor, encoded as
/// its all-column bound-parameter list and decoded back through the same
/// descriptor, yields exactly the original values — for every field.
pub proof fn lemma_decode_encode_round_trip(cols: Seq<ColumnRef>, vals: Seq<Value>)
    requires
        vals.len() == cols.len(),
        forall|i: int|
            0 <= i < cols.len() ==> value_conforms(#[trigger] vals[i], cols[i].wire_type),
    ensures
        spec_decode(cols, vals) == Ok::<Seq<Value>, DecodeError>(vals),
{
    lemma_first_mismatch_from_none(cols, vals, 0);
}

} // verus!
