//! Descriptor synthesis: turns a record type's declared field list and
//! annotations into the immutable per-type metadata (table name, column
//! list, primary key, wire types) that every statement is built from.
//!
//! All failures here are synthesis-time errors; a declaration that
//! synthesizes successfully can never raise a type-mapping error during
//! later statement building.

use crate::text::contains_id;
use crate::text::has_id_substring;
use crate::wire::wire_type_of;
use crate::wire::wire_type_of_name;
use crate::wire::WireType;
use vstd::prelude::*;

verus! {

/// One declared field of a record type, as a registration step would
/// report it: the field's declared name (`None` for a positional-only
/// field), the name of its host scalar type, whether that type was
/// wrapped in the one supported level of nullable wrapper, and the
/// per-field annotations (`primary_key`, `name = "..."`).
#[derive(Clone, Debug)]
pub struct FieldDecl {
    pub name: Option<String>,
    pub rust_type: String,
    pub nullable: bool,
    pub primary_key: bool,
    pub rename: Option<String>,
}

/// A record type declaration: its declared name, the optional
/// `table = "..."` annotation and its fields in declaration order.
#[derive(Clone, Debug)]
pub struct TypeDecl {
    pub struct_name: String,
    pub table: Option<String>,
    pub fields: Vec<FieldDecl>,
}

/// One persisted column: the field name in the host language, the bare
/// column name in the database (always rendered double-quoted when SQL is
/// built), and the wire type its values are encoded as.
#[derive(Debug, PartialEq, Eq)]
pub struct ColumnRef {
    pub source_name: String,
    pub sql_name: String,
    pub wire_type: WireType,
}

/// Per-type metadata, created once by synthesis and immutable thereafter.
#[derive(Debug, PartialEq, Eq)]
pub struct TypeDescriptor {
    pub table_name: String,
    pub primary_key: ColumnRef,
    pub columns: Vec<ColumnRef>,
    pub all_columns: Vec<ColumnRef>,
    pub argument_count: usize,
}

/// An error raised while synthesizing a descriptor, naming the type (and
/// where it applies, the field or column) that caused it.
#[derive(Debug, PartialEq, Eq)]
pub enum SynthesisError {
    MissingPrimaryKey { struct_name: String },
    UnsupportedType { struct_name: String, field_name: String },
    UnsupportedShape { struct_name: String },
    DuplicateColumnName { struct_name: String, sql_name: String },
}

#[verifier::ext_equal]
pub struct FieldDeclV {
    pub name: Option<Seq<char>>,
    pub rust_type: Seq<char>,
    pub nullable: bool,
    pub primary_key: bool,
    pub rename: Option<Seq<char>>,
}

#[verifier::ext_equal]
pub struct TypeDeclV {
    pub struct_name: Seq<char>,
    pub table: Option<Seq<char>>,
    pub fields: Seq<FieldDeclV>,
}

#[verifier::ext_equal]
pub struct ColumnRefV {
    pub source_name: Seq<char>,
    pub sql_name: Seq<char>,
    pub wire_type: WireType,
}

#[verifier::ext_equal]
pub struct TypeDescriptorV {
    pub table_name: Seq<char>,
    pub primary_key: ColumnRefV,
    pub columns: Seq<ColumnRefV>,
    pub all_columns: Seq<ColumnRefV>,
    pub argument_count: nat,
}

#[verifier::ext_equal]
pub enum SynthesisErrorV {
    MissingPrimaryKey { struct_name: Seq<char> },
    UnsupportedType { struct_name: Seq<char>, field_name: Seq<char> },
    UnsupportedShape { struct_name: Seq<char> },
    DuplicateColumnName { struct_name: Seq<char>, sql_name: Seq<char> },
}

impl View for FieldDecl {
    type V = FieldDeclV;

    open spec fn view(&self) -> FieldDeclV {
        FieldDeclV {
            name: match self.name {
                Some(n) => Some(n@),
                None => None,
            },
            rust_type: self.rust_type@,
            nullable: self.nullable,
            primary_key: self.primary_key,
            rename: match self.rename {
                Some(n) => Some(n@),
                None => None,
            },
        }
    }
}

impl View for TypeDecl {
    type V = TypeDeclV;

    open spec fn view(&self) -> TypeDeclV {
        TypeDeclV {
            struct_name: self.struct_name@,
            table: match self.table {
                Some(t) => Some(t@),
                None => None,
            },
            fields: Seq::new(self.fields@.len(), |i: int| self.fields@[i]@),
        }
    }
}

impl View for ColumnRef {
    type V = ColumnRefV;

    open spec fn view(&self) -> ColumnRefV {
        ColumnRefV {
            source_name: self.source_name@,
            sql_name: self.sql_name@,
            wire_type: self.wire_type,
        }
    }
}

impl View for TypeDescriptor {
    type V = TypeDescriptorV;

    open spec fn view(&self) -> TypeDescriptorV {
        TypeDescriptorV {
            table_name: self.table_name@,
            primary_key: self.primary_key@,
            columns: Seq::new(self.columns@.len(), |i: int| self.columns@[i]@),
            all_columns: Seq::new(self.all_columns@.len(), |i: int| self.all_columns@[i]@),
            argument_count: self.argument_count as nat,
        }
    }
}

impl View for SynthesisError {
    type V = SynthesisErrorV;

    open spec fn view(&self) -> SynthesisErrorV {
        match self {
            SynthesisError::MissingPrimaryKey { struct_name } => SynthesisErrorV::MissingPrimaryKey {
                struct_name: struct_name@,
            },
            SynthesisError::UnsupportedType { struct_name, field_name } => {
                SynthesisErrorV::UnsupportedType {
                    struct_name: struct_name@,
                    field_name: field_name@,
                }
            },
            SynthesisError::UnsupportedShape { struct_name } => SynthesisErrorV::UnsupportedShape {
                struct_name: struct_name@,
            },
            SynthesisError::DuplicateColumnName { struct_name, sql_name } => {
                SynthesisErrorV::DuplicateColumnName {
                    struct_name: struct_name@,
                    sql_name: sql_name@,
                }
            },
        }
    }
}

impl Clone for ColumnRef {
    fn clone(&self) -> (res: Self)
        ensures
            res == *self,
    {
        ColumnRef {
            source_name: self.source_name.clone(),
            sql_name: self.sql_name.clone(),
            wire_type: self.wire_type,
        }
    }
}

/// The index of the first element of `s` satisfying `p`, if any.
pub open spec fn first_where<A>(s: Seq<A>, p: spec_fn(A) -> bool) -> Option<int>
    decreases s.len(),
{
    if s.len() == 0 {
        None
    } else if p(s[0]) {
        Some(0)
    } else {
        match first_where(s.drop_first(), p) {
            Some(i) => Some(i + 1),
            None => None,
        }
    }
}

pub proof fn lemma_first_where_some<A>(s: Seq<A>, p: spec_fn(A) -> bool, i: int)
    requires
        0 <= i < s.len(),
        p(s[i]),
        forall|j: int| 0 <= j < i ==> !p(#[trigger] s[j]),
    ensures
        first_where(s, p) == Some(i),
    decreases i,
{
    if i > 0 {
        assert(!p(s[0]));
        assert(s.drop_first()[i - 1] == s[i]);
        assert(forall|j: int| 0 <= j < i - 1 ==> !p(#[trigger] s.drop_first()[j]));
        lemma_first_where_some(s.drop_first(), p, i - 1);
    }
}

pub proof fn lemma_first_where_bounds<A>(s: Seq<A>, p: spec_fn(A) -> bool)
    ensures
        match first_where(s, p) {
            Some(i) => 0 <= i < s.len() && p(s[i]),
            None => true,
        },
    decreases s.len(),
{
    if s.len() > 0 && !p(s[0]) {
        lemma_first_where_bounds(s.drop_first(), p);
    }
}

pub proof fn lemma_first_where_none<A>(s: Seq<A>, p: spec_fn(A) -> bool)
    requires
        forall|j: int| 0 <= j < s.len() ==> !p(#[trigger] s[j]),
    ensures
        first_where(s, p) is None,
    decreases s.len(),
{
    if s.len() > 0 {
        assert(forall|j: int| 0 <= j < s.len() - 1 ==> !p(#[trigger] s.drop_first()[j]));
        lemma_first_where_none(s.drop_first(), p);
    }
}

/// A field that synthesis must reject: an unnamed (positional) field or
/// one whose host type is outside the supported scalar table.
pub open spec fn is_problem(f: FieldDeclV) -> bool {
    f.name is None || wire_type_of(f.rust_type) is None
}

pub open spec fn problem_pred() -> spec_fn(FieldDeclV) -> bool {
    |f: FieldDeclV| is_problem(f)
}

pub open spec fn is_annotated(f: FieldDeclV) -> bool {
    f.primary_key
}

pub open spec fn annotated_pred() -> spec_fn(FieldDeclV) -> bool {
    |f: FieldDeclV| is_annotated(f)
}

/// A primary-key candidate under the fallback rule: a named field whose
/// name contains the substring `id`.
pub open spec fn is_candidate(f: FieldDeclV) -> bool {
    match f.name {
        Some(n) => contains_id(n),
        None => false,
    }
}

pub open spec fn candidate_pred() -> spec_fn(FieldDeclV) -> bool {
    |f: FieldDeclV| is_candidate(f)
}

/// The primary-key column index: the first field annotated
/// `primary_key`, or — when no field is — the first fallback candidate.
pub open spec fn pk_index(fs: Seq<FieldDeclV>) -> Option<int> {
    match first_where(fs, annotated_pred()) {
        Some(i) => Some(i),
        None => first_where(fs, candidate_pred()),
    }
}

pub open spec fn opt_name(o: Option<Seq<char>>) -> Seq<char> {
    match o {
        Some(n) => n,
        None => Seq::empty(),
    }
}

/// The column name a field maps to: its `name = "..."` annotation if
/// present, else its declared name.
pub open spec fn sql_name_of(f: FieldDeclV) -> Seq<char> {
    match f.rename {
        Some(n) => n,
        None => opt_name(f.name),
    }
}

pub open spec fn wire_of(f: FieldDeclV) -> WireType {
    match wire_type_of(f.rust_type) {
        Some(w) => w,
        None => WireType::Bool,
    }
}

pub open spec fn column_of(f: FieldDeclV) -> ColumnRefV {
    ColumnRefV { source_name: opt_name(f.name), sql_name: sql_name_of(f), wire_type: wire_of(f) }
}

/// All fields' column names, in declaration order.
pub open spec fn names_of(fs: Seq<FieldDeclV>) -> Seq<Seq<char>> {
    Seq::new(fs.len(), |i: int| sql_name_of(fs[i]))
}

/// Whether `names[j]` repeats an earlier name.
pub open spec fn has_dup_at(names: Seq<Seq<char>>, j: int) -> bool {
    exists|i: int| 0 <= i < j && #[trigger] names[i] == names[j]
}

pub open spec fn first_dup_from(names: Seq<Seq<char>>, j: nat) -> Option<int>
    decreases names.len() - j,
{
    if j >= names.len() {
        None
    } else if has_dup_at(names, j as int) {
        Some(j as int)
    } else {
        first_dup_from(names, j + 1)
    }
}

pub proof fn lemma_first_dup_from_some(names: Seq<Seq<char>>, start: nat, j: int)
    requires
        start <= j < names.len(),
        has_dup_at(names, j),
        forall|k: int| start <= k < j ==> !has_dup_at(names, k),
    ensures
        first_dup_from(names, start) == Some(j),
    decreases j - start,
{
    if start < j {
        lemma_first_dup_from_some(names, start + 1, j);
    }
}

pub proof fn lemma_first_dup_from_none(names: Seq<Seq<char>>, start: nat)
    requires
        forall|k: int| start <= k < names.len() ==> !has_dup_at(names, k),
    ensures
        first_dup_from(names, start) is None,
    decreases names.len() - start,
{
    if start < names.len() {
        lemma_first_dup_from_none(names, start + 1);
    }
}

/// The error for the first rejected field.
pub open spec fn problem_error(d: TypeDeclV, i: int) -> SynthesisErrorV {
    if d.fields[i].name is None {
        SynthesisErrorV::UnsupportedShape { struct_name: d.struct_name }
    } else {
        SynthesisErrorV::UnsupportedType {
            struct_name: d.struct_name,
            field_name: opt_name(d.fields[i].name),
        }
    }
}

/// The table name: the `table = "..."` annotation if present, else the
/// type's declared name.
pub open spec fn spec_table_name(d: TypeDeclV) -> Seq<char> {
    match d.table {
        Some(t) => t,
        None => d.struct_name,
    }
}

/// The non-key columns, in declaration order, with the primary key (at
/// index `i`) removed.
pub open spec fn columns_of(fs: Seq<FieldDeclV>, i: int) -> Seq<ColumnRefV> {
    Seq::new(
        (fs.len() - 1) as nat,
        |k: int|
            if k < i {
                column_of(fs[k])
            } else {
                column_of(fs[k + 1])
            },
    )
}

/// The descriptor a well-formed declaration synthesizes to, with the
/// primary key at field index `i`.
pub open spec fn spec_descriptor(d: TypeDeclV, i: int) -> TypeDescriptorV {
    TypeDescriptorV {
        table_name: spec_table_name(d),
        primary_key: column_of(d.fields[i]),
        columns: columns_of(d.fields, i),
        all_columns: seq![column_of(d.fields[i])] + columns_of(d.fields, i),
        argument_count: (d.fields.len() - 1) as nat,
    }
}

/// What synthesis produces for a declaration: the first rejected field's
/// error, else a missing-primary-key error, else the first duplicated
/// column name's error, else the descriptor.
pub open spec fn spec_synthesize(d: TypeDeclV) -> Result<TypeDescriptorV, SynthesisErrorV> {
    match first_where(d.fields, problem_pred()) {
        Some(i) => Err(problem_error(d, i)),
        None => match pk_index(d.fields) {
            None => Err(SynthesisErrorV::MissingPrimaryKey { struct_name: d.struct_name }),
            Some(i) => match first_dup_from(names_of(d.fields), 0) {
                Some(j) => Err(
                    SynthesisErrorV::DuplicateColumnName {
                        struct_name: d.struct_name,
                        sql_name: names_of(d.fields)[j],
                    },
                ),
                None => Ok(spec_descriptor(d, i)),
            },
        },
    }
}

impl TypeDescriptorV {
    /// Well-formedness: the all-column list is the primary key followed
    /// by the non-key columns, the argument count matches, and column
    /// names are unique within the descriptor.
    pub open spec fn wf(self) -> bool {
        &&& self.all_columns == seq![self.primary_key] + self.columns
        &&& self.argument_count == self.columns.len()
        &&& forall|p: int, q: int|
            0 <= p < q < self.all_columns.len() ==> (#[trigger] self.all_columns[p]).sql_name != (
            #[trigger] self.all_columns[q]).sql_name
    }
}

/// Looks every field's host type up in the scalar table, or reports the
/// first rejected field.
fn check_fields(decl: &TypeDecl) -> (r: Result<Vec<WireType>, SynthesisError>)
    ensures
        match first_where(decl@.fields, problem_pred()) {
            Some(i) => r matches Err(e) && e@ == problem_error(decl@, i),
            None => r matches Ok(ws) && ws@.len() == decl@.fields.len() && forall|j: int|
                0 <= j < decl@.fields.len() ==> ws@[j] == wire_of(#[trigger] decl@.fields[j]),
        },
{
    let ghost fs = decl@.fields;
    let mut ws: Vec<WireType> = Vec::new();
    let n = decl.fields.len();
    let mut i: usize = 0;
    while i < n
        invariant
            n == fs.len(),
            fs == decl@.fields,
            i <= n,
            ws@.len() == i,
            forall|j: int| 0 <= j < i ==> !is_problem(#[trigger] fs[j]),
            forall|j: int| 0 <= j < i ==> ws@[j] == wire_of(#[trigger] fs[j]),
        decreases n - i,
    {
        let field = &decl.fields[i];
        proof {
            assert(field@ == fs[i as int]);
        }
        if field.name.is_none() {
            proof {
                assert(is_problem(fs[i as int]));
                lemma_first_where_some(fs, problem_pred(), i as int);
            }
            return Err(SynthesisError::UnsupportedShape { struct_name: decl.struct_name.clone() });
        }
        match wire_type_of_name(field.rust_type.as_str()) {
            None => {
                let field_name = match &field.name {
                    Some(nm) => nm.clone(),
                    None => String::new(),
                };
                proof {
                    assert(is_problem(fs[i as int]));
                    lemma_first_where_some(fs, problem_pred(), i as int);
                }
                return Err(
                    SynthesisError::UnsupportedType {
                        struct_name: decl.struct_name.clone(),
                        field_name,
                    },
                );
            },
            Some(w) => {
                ws.push(w);
            },
        }
        i = i + 1;
    }
    proof {
        lemma_first_where_none(fs, problem_pred());
    }
    Ok(ws)
}

/// Resolves the primary-key field index: the first `primary_key`-annotated
/// field, else the first field whose name contains `id`.
fn find_pk_index(decl: &TypeDecl) -> (r: Option<usize>)
    ensures
        match r {
            Some(u) => (u as int) < decl@.fields.len() && pk_index(decl@.fields) == Some(u as int),
            None => pk_index(decl@.fields) is None,
        },
{
    let ghost fs = decl@.fields;
    let n = decl.fields.len();
    let mut i: usize = 0;
    while i < n
        invariant
            n == fs.len(),
            fs == decl@.fields,
            i <= n,
            forall|j: int| 0 <= j < i ==> !is_annotated(#[trigger] fs[j]),
        decreases n - i,
    {
        if decl.fields[i].primary_key {
            proof {
                assert(decl.fields@[i as int]@ == fs[i as int]);
                lemma_first_where_some(fs, annotated_pred(), i as int);
            }
            return Some(i);
        }
        i = i + 1;
    }
    proof {
        lemma_first_where_none(fs, annotated_pred());
    }
    let mut i: usize = 0;
    while i < n
        invariant
            n == fs.len(),
            fs == decl@.fields,
            i <= n,
            first_where(fs, annotated_pred()) is None,
            forall|j: int| 0 <= j < i ==> !is_candidate(#[trigger] fs[j]),
        decreases n - i,
    {
        let candidate = match &decl.fields[i].name {
            Some(nm) => has_id_substring(nm.as_str()),
            None => false,
        };
        proof {
            assert(decl.fields@[i as int]@ == fs[i as int]);
        }
        if candidate {
            proof {
                lemma_first_where_some(fs, candidate_pred(), i as int);
            }
            return Some(i);
        }
        i = i + 1;
    }
    proof {
        lemma_first_where_none(fs, candidate_pred());
    }
    None
}

/// The column name of every field, in declaration order.
fn sql_names(decl: &TypeDecl) -> (r: Vec<String>)
    ensures
        r@.len() == decl@.fields.len(),
        forall|j: int| 0 <= j < r@.len() ==> (#[trigger] r@[j])@ == names_of(decl@.fields)[j],
{
    let ghost fs = decl@.fields;
    let mut names: Vec<String> = Vec::new();
    let n = decl.fields.len();
    let mut i: usize = 0;
    while i < n
        invariant
            n == fs.len(),
            fs == decl@.fields,
            i <= n,
            names@.len() == i,
            forall|j: int| 0 <= j < i ==> (#[trigger] names@[j])@ == names_of(fs)[j],
        decreases n - i,
    {
        let field = &decl.fields[i];
        proof {
            assert(field@ == fs[i as int]);
        }
        let name = match &field.rename {
            Some(nm) => nm.clone(),
            None => match &field.name {
                Some(nm) => nm.clone(),
                None => String::new(),
            },
        };
        names.push(name);
        i = i + 1;
    }
    names
}

/// The first index whose column name repeats an earlier one, if any.
fn check_duplicates(names: &Vec<String>) -> (r: Option<usize>)
    ensures
        ({
            let nseq = Seq::new(names@.len(), |i: int| names@[i]@);
            match r {
                Some(u) => (u as int) < nseq.len() && first_dup_from(nseq, 0) == Some(u as int),
                None => first_dup_from(nseq, 0) is None,
            }
        }),
{
    let ghost nseq = Seq::new(names@.len(), |i: int| names@[i]@);
    let n = names.len();
    let mut j: usize = 1;
    while j < n
        invariant
            n == nseq.len(),
            nseq == Seq::new(names@.len(), |i: int| names@[i]@),
            n == names@.len(),
            1 <= j || n == 0,
            j <= n || (n == 0 && j == 1),
            forall|k: int| 0 <= k < j && k < n ==> !has_dup_at(nseq, k),
        decreases n - j,
    {
        let mut i: usize = 0;
        while i < j
            invariant
                n == nseq.len(),
                nseq == Seq::new(names@.len(), |i: int| names@[i]@),
                n == names@.len(),
                i <= j < n,
                forall|k: int| 0 <= k < j ==> !has_dup_at(nseq, k),
                forall|k: int| 0 <= k < i ==> nseq[k] != nseq[j as int],
            decreases j - i,
        {
            if names[i] == names[j] {
                proof {
                    assert(nseq[i as int] == nseq[j as int]);
                    assert(has_dup_at(nseq, j as int));
                    lemma_first_dup_from_some(nseq, 0, j as int);
                }
                return Some(j);
            }
            i = i + 1;
        }
        proof {
            assert(!has_dup_at(nseq, j as int));
        }
        j = j + 1;
    }
    proof {
        assert(forall|k: int| 0 <= k < nseq.len() ==> !has_dup_at(nseq, k));
        lemma_first_dup_from_none(nseq, 0);
    }
    None
}

/// Synthesizes the descriptor for a record type declaration, or reports
/// the first failure: an unnamed field (`UnsupportedShape`), a host type
/// outside the scalar table (`UnsupportedType`), no resolvable primary
/// key (`MissingPrimaryKey`), or a repeated column name
/// (`DuplicateColumnName`).  Never panics.
pub fn synthesize(decl: &TypeDecl) -> (r: Result<TypeDescriptor, SynthesisError>)
    ensures
        match spec_synthesize(decl@) {
            Ok(dv) => r matches Ok(desc) && desc@ == dv,
            Err(ev) => r matches Err(e) && e@ == ev,
        },
{
    let ghost fs = decl@.fields;
    let ws = match check_fields(decl) {
        Ok(ws) => ws,
        Err(e) => {
            return Err(e);
        },
    };
    let pk_i = match find_pk_index(decl) {
        Some(i) => i,
        None => {
            return Err(SynthesisError::MissingPrimaryKey { struct_name: decl.struct_name.clone() });
        },
    };
    let names = sql_names(decl);
    proof {
        assert(Seq::new(names@.len(), |i: int| names@[i]@) =~= names_of(fs));
    }
    match check_duplicates(&names) {
        Some(j) => {
            return Err(
                SynthesisError::DuplicateColumnName {
                    struct_name: decl.struct_name.clone(),
                    sql_name: names[j].clone(),
                },
            );
        },
        None => {},
    }
    let table_name = match &decl.table {
        Some(t) => t.clone(),
        None => decl.struct_name.clone(),
    };
    let pk_field = &decl.fields[pk_i];
    proof {
        assert(pk_field@ == fs[pk_i as int]);
    }
    let pk_source = match &pk_field.name {
        Some(nm) => nm.clone(),
        None => String::new(),
    };
    let primary_key = ColumnRef {
        source_name: pk_source,
        sql_name: names[pk_i].clone(),
        wire_type: ws[pk_i],
    };
    proof {
        assert(primary_key@ == column_of(fs[pk_i as int]));
    }
    let n = decl.fields.len();
    let mut columns: Vec<ColumnRef> = Vec::new();
    let mut j: usize = 0;
    while j < pk_i
        invariant
            n == fs.len(),
            fs == decl@.fields,
            pk_i < n,
            first_where(fs, problem_pred()) is None,
            ws@.len() == n,
            forall|k: int| 0 <= k < n ==> ws@[k] == wire_of(#[trigger] fs[k]),
            names@.len() == n,
            forall|k: int| 0 <= k < n ==> (#[trigger] names@[k])@ == names_of(fs)[k],
            j <= pk_i,
            columns@.len() == j,
            forall|k: int| 0 <= k < j ==> (#[trigger] columns@[k])@ == columns_of(fs, pk_i as int)[k],
        decreases pk_i - j,
    {
        let field = &decl.fields[j];
        proof {
            assert(field@ == fs[j as int]);
        }
        let source_name = match &field.name {
            Some(nm) => nm.clone(),
            None => String::new(),
        };
        columns.push(
            ColumnRef { source_name, sql_name: names[j].clone(), wire_type: ws[j] },
        );
        j = j + 1;
    }
    let mut j: usize = pk_i + 1;
    while j < n
        invariant
            n == fs.len(),
            fs == decl@.fields,
            pk_i < n,
            first_where(fs, problem_pred()) is None,
            ws@.len() == n,
            forall|k: int| 0 <= k < n ==> ws@[k] == wire_of(#[trigger] fs[k]),
            names@.len() == n,
            forall|k: int| 0 <= k < n ==> (#[trigger] names@[k])@ == names_of(fs)[k],
            pk_i < j <= n,
            columns@.len() == j - 1,
            forall|k: int| 0 <= k < j - 1 ==> (#[trigger] columns@[k])@ == columns_of(
                fs,
                pk_i as int,
            )[k],
        decreases n - j,
    {
        let field = &decl.fields[j];
        proof {
            assert(field@ == fs[j as int]);
        }
        let source_name = match &field.name {
            Some(nm) => nm.clone(),
            None => String::new(),
        };
        columns.push(
            ColumnRef { source_name, sql_name: names[j].clone(), wire_type: ws[j] },
        );
        j = j + 1;
    }
    let argument_count = columns.len();
    let mut all_columns: Vec<ColumnRef> = Vec::new();
    all_columns.push(primary_key.clone());
    let mut k: usize = 0;
    while k < argument_count
        invariant
            argument_count == columns@.len(),
            k <= argument_count,
            all_columns@.len() == k + 1,
            all_columns@[0] == primary_key,
            forall|t: int| 0 <= t < k ==> all_columns@[t + 1] == columns@[t],
        decreases argument_count - k,
    {
        all_columns.push(columns[k].clone());
        k = k + 1;
    }
    let desc = TypeDescriptor { table_name, primary_key, columns, all_columns, argument_count };
    proof {
        assert(desc@.columns =~= columns_of(fs, pk_i as int));
        assert(desc@.all_columns =~= seq![column_of(fs[pk_i as int])] + columns_of(
            fs,
            pk_i as int,
        ));
        assert(desc@ =~= spec_descriptor(decl@, pk_i as int));
    }
    Ok(desc)
}

/// A successfully synthesized descriptor is well-formed: the all-column
/// list is the primary key followed by the non-key columns in declaration
/// order, the argument count is the non-key column count, and no two
/// columns share a name.
pub proof fn lemma_synthesize_wf(d: TypeDeclV)
    requires
        spec_synthesize(d) is Ok,
    ensures
        spec_synthesize(d)->Ok_0.wf(),
{
    let fs = d.fields;
    let i = pk_index(fs).unwrap();
    let desc = spec_synthesize(d)->Ok_0;
    lemma_first_where_bounds(fs, annotated_pred());
    lemma_first_where_bounds(fs, candidate_pred());
    assert(0 <= i < fs.len());
    assert(first_dup_from(names_of(fs), 0) is None);
    lemma_first_dup_from_none_converse(names_of(fs), 0);
    assert(desc.all_columns =~= seq![desc.primary_key] + desc.columns);
    assert forall|p: int, q: int| 0 <= p < q < desc.all_columns.len() implies (
    #[trigger] desc.all_columns[p]).sql_name != (#[trigger] desc.all_columns[q]).sql_name by {
        let names = names_of(fs);
        let op = if p == 0 {
            i
        } else if p - 1 < i {
            p - 1
        } else {
            p
        };
        let oq = if q == 0 {
            i
        } else if q - 1 < i {
            q - 1
        } else {
            q
        };
        assert(desc.all_columns[p].sql_name == names[op]);
        assert(desc.all_columns[q].sql_name == names[oq]);
        assert(op != oq);
        if op < oq {
            assert(!has_dup_at(names, oq));
            assert(names[op] != names[oq]);
        } else {
            assert(!has_dup_at(names, op));
            assert(names[oq] != names[op]);
        }
    }
}

proof fn lemma_first_dup_from_none_converse(names: Seq<Seq<char>>, start: nat)
    requires
        first_dup_from(names, start) is None,
    ensures
        forall|k: int| start <= k < names.len() ==> !has_dup_at(names, k),
    decreases names.len() - start,
{
    if start < names.len() {
        lemma_first_dup_from_none_converse(names, start + 1);
    }
}

/// With no `primary_key`-annotated field anywhere, synthesis falls back
/// to the first field, in declaration order, whose name contains the
/// substring `id`.
pub proof fn lemma_fallback_selects_first_id_field(fs: Seq<FieldDeclV>, i: int)
    requires
        forall|j: int| 0 <= j < fs.len() ==> !is_annotated(#[trigger] fs[j]),
        0 <= i < fs.len(),
        is_candidate(fs[i]),
        forall|j: int| 0 <= j < i ==> !is_candidate(#[trigger] fs[j]),
    ensures
        pk_index(fs) == Some(i),
{
    lemma_first_where_none(fs, annotated_pred());
    lemma_first_where_some(fs, candidate_pred(), i);
}

/// Synthesis is a function of the declaration alone: two syntheses of
/// equal declarations yield field-for-field identical descriptors (and
/// identical errors).  Together with [`synthesize`]'s postcondition this
/// makes repeated synthesis of one type idempotent.
pub proof fn lemma_synthesis_deterministic(d1: TypeDeclV, d2: TypeDeclV)
    requires
        d1 == d2,
    ensures
        spec_synthesize(d1) == spec_synthesize(d2),
{
}

} // verus!
