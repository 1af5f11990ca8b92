//! Statement building: renders descriptor-derived identifier lists and
//! combines them with the placeholder algebra into the final SQL text of
//! each operation.  Identifiers are always emitted double-quoted; values
//! never appear in the text, only numbered placeholders.

use crate::descriptor::ColumnRefV;
use crate::descriptor::TypeDescriptor;
use crate::descriptor::TypeDescriptorV;
use crate::placeholders::generate_argument_list;
use crate::placeholders::generate_argument_list_with_types;
use crate::placeholders::generate_prepared_arguments_list;
use crate::placeholders::generate_prepared_arguments_list_with_types;
use crate::placeholders::generate_single_prepared_arguments_list;
use crate::placeholders::spec_arg_range;
use crate::placeholders::spec_groups;
use crate::placeholders::spec_typed_args;
use crate::placeholders::spec_typed_groups;
use crate::text::quote_ident;
use crate::text::quoted;
use crate::wire::WireType;
use vstd::prelude::*;
use vstd::string::StrSliceExecFns;
use vstd::string::StringExecFns;

verus! {

/// A name as it appears in a column list: left alone when it already
/// starts with a double quote, else wrapped in double quotes.
pub open spec fn quote_if_needed(s: Seq<char>) -> Seq<char> {
    if s.len() > 0 && s[0] == '"' {
        s
    } else {
        quoted(s)
    }
}

/// The comma-separated, quoted rendering of a name list.
pub open spec fn spec_field_list(names: Seq<Seq<char>>) -> Seq<char>
    decreases names.len(),
{
    if names.len() == 0 {
        Seq::empty()
    } else if names.len() == 1 {
        quote_if_needed(names[0])
    } else {
        spec_field_list(names.drop_last()) + ","@ + quote_if_needed(names.last())
    }
}

/// Renders one identifier, double-quoting it unless it is already
/// quoted.
fn quote_name(name: &str) -> (r: String)
    ensures
        r@ == quote_if_needed(name@),
{
    let already_quoted = name.unicode_len() > 0 && name.get_char(0) == '"';
    if already_quoted {
        String::from_str(name)
    } else {
        quote_ident(name)
    }
}

/// Renders a comma-separated column list, double-quoting every name that
/// is not already quoted.
pub fn generate_field_list(field_list: &Vec<String>) -> (r: String)
    ensures
        r@ == spec_field_list(Seq::new(field_list@.len(), |i: int| field_list@[i]@)),
{
    let ghost nseq = Seq::new(field_list@.len(), |i: int| field_list@[i]@);
    let mut s = String::new();
    let n = field_list.len();
    let mut i: usize = 0;
    while i < n
        invariant
            n == nseq.len(),
            nseq == Seq::new(field_list@.len(), |i: int| field_list@[i]@),
            n == field_list@.len(),
            i <= n,
            s@ == spec_field_list(nseq.take(i as int)),
        decreases n - i,
    {
        if i > 0 {
            s.append(",");
        }
        let name = quote_name(field_list[i].as_str());
        s.append(name.as_str());
        proof {
            assert(nseq.take(i + 1).drop_last() =~= nseq.take(i as int));
            assert(nseq.take(i + 1).last() == nseq[i as int]);
            assert(s@ =~= spec_field_list(nseq.take(i + 1)));
        }
        i = i + 1;
    }
    proof {
        assert(nseq.take(nseq.len() as int) =~= nseq);
    }
    s
}

/// The column names of a column sequence, in order.
pub open spec fn col_names(cols: Seq<ColumnRefV>) -> Seq<Seq<char>> {
    Seq::new(cols.len(), |i: int| cols[i].sql_name)
}

/// The wire types of a column sequence, in order.
pub open spec fn col_wire_types(cols: Seq<ColumnRefV>) -> Seq<WireType> {
    Seq::new(cols.len(), |i: int| cols[i].wire_type)
}

/// The rendered non-key column list of a descriptor.
pub open spec fn spec_fields_text(d: TypeDescriptorV) -> Seq<char> {
    spec_field_list(col_names(d.columns))
}

/// The rendered all-column list (primary key first) of a descriptor.
pub open spec fn spec_all_fields_text(d: TypeDescriptorV) -> Seq<char> {
    spec_field_list(col_names(d.all_columns))
}

impl TypeDescriptor {
    /// The table name, double-quoted.
    pub fn get_table_name(&self) -> (r: String)
        ensures
            r@ == quoted(self@.table_name),
    {
        quote_ident(self.table_name.as_str())
    }

    /// The primary-key column name, double-quoted.
    pub fn get_primary_key(&self) -> (r: String)
        ensures
            r@ == quote_if_needed(self@.primary_key.sql_name),
    {
        quote_name(self.primary_key.sql_name.as_str())
    }

    /// The comma-separated quoted names of the non-key columns, in
    /// declaration order.
    pub fn get_fields(&self) -> (r: String)
        ensures
            r@ == spec_fields_text(self@),
    {
        let mut names: Vec<String> = Vec::new();
        let n = self.columns.len();
        let mut i: usize = 0;
        while i < n
            invariant
                n == self.columns@.len(),
                i <= n,
                names@.len() == i,
                forall|k: int| 0 <= k < i ==> (#[trigger] names@[k])@ == self@.columns[k].sql_name,
            decreases n - i,
        {
            names.push(self.columns[i].sql_name.clone());
            i = i + 1;
        }
        let r = generate_field_list(&names);
        proof {
            assert(Seq::new(names@.len(), |i: int| names@[i]@) =~= col_names(self@.columns));
        }
        r
    }

    /// The comma-separated quoted names of all columns, primary key
    /// first.
    pub fn get_all_fields(&self) -> (r: String)
        ensures
            r@ == spec_all_fields_text(self@),
    {
        let mut names: Vec<String> = Vec::new();
        let n = self.all_columns.len();
        let mut i: usize = 0;
        while i < n
            invariant
                n == self.all_columns@.len(),
                i <= n,
                names@.len() == i,
                forall|k: int|
                    0 <= k < i ==> (#[trigger] names@[k])@ == self@.all_columns[k].sql_name,
            decreases n - i,
        {
            names.push(self.all_columns[i].sql_name.clone());
            i = i + 1;
        }
        let r = generate_field_list(&names);
        proof {
            assert(Seq::new(names@.len(), |i: int| names@[i]@) =~= col_names(self@.all_columns));
        }
        r
    }

    /// The wire types of all columns, primary key first.
    pub fn all_wire_types(&self) -> (r: Vec<WireType>)
        ensures
            r@ == col_wire_types(self@.all_columns),
    {
        let mut ws: Vec<WireType> = Vec::new();
        let n = self.all_columns.len();
        let mut i: usize = 0;
        while i < n
            invariant
                n == self.all_columns@.len(),
                i <= n,
                ws@.len() == i,
                forall|k: int| 0 <= k < i ==> ws@[k] == self@.all_columns[k].wire_type,
            decreases n - i,
        {
            ws.push(self.all_columns[i].wire_type);
            i = i + 1;
        }
        proof {
            assert(ws@ =~= col_wire_types(self@.all_columns));
        }
        ws
    }

    /// The number of non-key columns.
    pub fn get_argument_count(&self) -> (r: usize)
        ensures
            r == self@.argument_count,
    {
        self.argument_count
    }

    /// `$1,...,$argument_count`: one row's placeholders.
    pub fn get_prepared_arguments_list(&self) -> (r: String)
        requires
            self@.argument_count < usize::MAX,
        ensures
            r@ == spec_arg_range(1, self@.argument_count),
    {
        generate_argument_list(self.argument_count)
    }

    /// `$1::T1,$2::T2,...` over all columns, primary key first.
    pub fn get_prepared_arguments_list_with_types(&self) -> (r: String)
        requires
            self@.all_columns.len() < usize::MAX,
        ensures
            r@ == spec_typed_args(col_wire_types(self@.all_columns)),
    {
        let ws = self.all_wire_types();
        generate_argument_list_with_types(&ws)
    }
}

/// `INSERT INTO "T" (cols) VALUES ($1,..,$argc) RETURNING *`
pub open spec fn spec_create_sql(d: TypeDescriptorV) -> Seq<char> {
    "INSERT INTO "@ + quoted(d.table_name) + " ("@ + spec_fields_text(d) + ") VALUES ("@
        + spec_arg_range(1, d.argument_count) + ") RETURNING *"@
}

/// The single-row INSERT statement for a descriptor; binds the non-key
/// column values in declaration order.
pub fn create_sql(desc: &TypeDescriptor) -> (r: String)
    requires
        desc@.argument_count < usize::MAX,
    ensures
        r@ == spec_create_sql(desc@),
{
    let mut s = String::new();
    s.append("INSERT INTO ");
    let t = desc.get_table_name();
    s.append(t.as_str());
    s.append(" (");
    let f = desc.get_fields();
    s.append(f.as_str());
    s.append(") VALUES (");
    let a = generate_argument_list(desc.argument_count);
    s.append(a.as_str());
    s.append(") RETURNING *");
    proof {
        assert(s@ =~= spec_create_sql(desc@));
    }
    s
}

/// `INSERT INTO "T" (cols) VALUES ($1,..),($..,..),... RETURNING *`
pub open spec fn spec_create_multiple_sql(d: TypeDescriptorV, rows: nat) -> Seq<char> {
    "INSERT INTO "@ + quoted(d.table_name) + " ("@ + spec_fields_text(d) + ") VALUES "@
        + spec_groups(1, d.argument_count, rows) + " RETURNING *"@
}

/// The batch INSERT statement: one parenthesized group per row, numbered
/// sequentially across the whole batch; binds every row's non-key column
/// values flattened in record order.
pub fn create_multiple_sql(desc: &TypeDescriptor, no_of_items: usize) -> (r: String)
    requires
        desc@.argument_count >= 1,
        no_of_items >= 1,
        desc@.argument_count * no_of_items < usize::MAX,
    ensures
        r@ == spec_create_multiple_sql(desc@, no_of_items as nat),
{
    let mut s = String::new();
    s.append("INSERT INTO ");
    let t = desc.get_table_name();
    s.append(t.as_str());
    s.append(" (");
    let f = desc.get_fields();
    s.append(f.as_str());
    s.append(") VALUES ");
    let groups = generate_prepared_arguments_list(desc.argument_count, no_of_items);
    s.append(groups.as_str());
    s.append(" RETURNING *");
    proof {
        assert(s@ =~= spec_create_multiple_sql(desc@, no_of_items as nat));
    }
    s
}

/// `UPDATE "T" SET (cols) = ($2,..,$argc+1) WHERE "pk" = $1 RETURNING *`,
/// or the scalar `SET col = $2` form when there is exactly one non-key
/// column.  `$1` is bound to the record's current primary-key value, the
/// column values follow.
pub open spec fn spec_update_sql(d: TypeDescriptorV) -> Seq<char> {
    if d.argument_count == 1 {
        "UPDATE "@ + quoted(d.table_name) + " SET "@ + spec_fields_text(d) + " = "@
            + spec_arg_range(2, d.argument_count + 1) + " WHERE "@ + quote_if_needed(d.primary_key.sql_name)
            + " = $1 RETURNING *"@
    } else {
        "UPDATE "@ + quoted(d.table_name) + " SET ("@ + spec_fields_text(d) + ") = ("@
            + spec_arg_range(2, d.argument_count + 1) + ") WHERE "@ + quote_if_needed(
            d.primary_key.sql_name,
        ) + " = $1 RETURNING *"@
    }
}

/// The single-row UPDATE statement for a descriptor.
pub fn update_sql(desc: &TypeDescriptor) -> (r: String)
    requires
        desc@.argument_count + 1 < usize::MAX,
    ensures
        r@ == spec_update_sql(desc@),
{
    let mut s = String::new();
    s.append("UPDATE ");
    let t = desc.get_table_name();
    s.append(t.as_str());
    let scalar_form = desc.argument_count == 1;
    if scalar_form {
        s.append(" SET ");
    } else {
        s.append(" SET (");
    }
    let f = desc.get_fields();
    s.append(f.as_str());
    if scalar_form {
        s.append(" = ");
    } else {
        s.append(") = (");
    }
    let a = generate_single_prepared_arguments_list(2, desc.argument_count + 1);
    s.append(a.as_str());
    if scalar_form {
        s.append(" WHERE ");
    } else {
        s.append(") WHERE ");
    }
    let pk = desc.get_primary_key();
    s.append(pk.as_str());
    s.append(" = $1 RETURNING *");
    proof {
        assert(s@ =~= spec_update_sql(desc@));
    }
    s
}

/// Each non-key column name prefixed with the temp-table alias:
/// `temp_table."a",temp_table."b",...`.
pub open spec fn spec_inner_fields(names: Seq<Seq<char>>) -> Seq<char>
    decreases names.len(),
{
    if names.len() == 0 {
        Seq::empty()
    } else if names.len() == 1 {
        "temp_table."@ + quote_if_needed(names[0])
    } else {
        spec_inner_fields(names.drop_last()) + ","@ + "temp_table."@ + quote_if_needed(
            names.last(),
        )
    }
}

/// Renders the non-key column list with each name prefixed by the
/// temp-table alias.
fn inner_fields(desc: &TypeDescriptor) -> (r: String)
    ensures
        r@ == spec_inner_fields(col_names(desc@.columns)),
{
    let ghost nseq = col_names(desc@.columns);
    let mut s = String::new();
    let n = desc.columns.len();
    let mut i: usize = 0;
    while i < n
        invariant
            n == desc.columns@.len(),
            nseq == col_names(desc@.columns),
            n == nseq.len(),
            i <= n,
            s@ == spec_inner_fields(nseq.take(i as int)),
        decreases n - i,
    {
        if i > 0 {
            s.append(",");
        }
        s.append("temp_table.");
        let name = quote_name(desc.columns[i].sql_name.as_str());
        s.append(name.as_str());
        proof {
            assert(nseq.take(i + 1).drop_last() =~= nseq.take(i as int));
            assert(nseq.take(i + 1).last() == nseq[i as int]);
            assert(s@ =~= spec_inner_fields(nseq.take(i + 1)));
        }
        i = i + 1;
    }
    proof {
        assert(nseq.take(nseq.len() as int) =~= nseq);
    }
    s
}

/// `UPDATE "T" AS P SET (cols) = (temp_table.cols) FROM (VALUES
/// typed_groups) AS temp_table(all_cols) WHERE P."pk" = temp_table."pk"
/// RETURNING *`, with the scalar `SET` form when there is exactly one
/// non-key column.  Binds every row's values, primary key first,
/// flattened in record order.
pub open spec fn spec_update_multiple_sql(d: TypeDescriptorV, rows: nat) -> Seq<char> {
    let head = if d.argument_count == 1 {
        "UPDATE "@ + quoted(d.table_name) + " AS P SET "@ + spec_fields_text(d) + " = "@
            + spec_inner_fields(col_names(d.columns))
    } else {
        "UPDATE "@ + quoted(d.table_name) + " AS P SET ("@ + spec_fields_text(d) + ") = ("@
            + spec_inner_fields(col_names(d.columns)) + ")"@
    };
    head + " FROM (VALUES "@ + spec_typed_groups(col_wire_types(d.all_columns), rows)
        + ") AS temp_table("@ + spec_all_fields_text(d) + ") WHERE P."@ + quote_if_needed(
        d.primary_key.sql_name,
    ) + " = temp_table."@ + quote_if_needed(d.primary_key.sql_name) + " RETURNING *"@
}

/// The batch UPDATE statement: a literal row set joined against the
/// table by primary key.
pub fn update_multiple_sql(desc: &TypeDescriptor, no_of_items: usize) -> (r: String)
    requires
        desc@.all_columns.len() >= 1,
        no_of_items >= 1,
        desc@.all_columns.len() * no_of_items < usize::MAX,
    ensures
        r@ == spec_update_multiple_sql(desc@, no_of_items as nat),
{
    let mut s = String::new();
    s.append("UPDATE ");
    let t = desc.get_table_name();
    s.append(t.as_str());
    let scalar_form = desc.argument_count == 1;
    if scalar_form {
        s.append(" AS P SET ");
    } else {
        s.append(" AS P SET (");
    }
    let f = desc.get_fields();
    s.append(f.as_str());
    if scalar_form {
        s.append(" = ");
    } else {
        s.append(") = (");
    }
    let inner = inner_fields(desc);
    s.append(inner.as_str());
    if !scalar_form {
        s.append(")");
    }
    proof {
        let d = desc@;
        if d.argument_count == 1 {
            assert(s@ =~= "UPDATE "@ + quoted(d.table_name) + " AS P SET "@ + spec_fields_text(d)
                + " = "@ + spec_inner_fields(col_names(d.columns)));
        } else {
            assert(s@ =~= "UPDATE "@ + quoted(d.table_name) + " AS P SET ("@ + spec_fields_text(d)
                + ") = ("@ + spec_inner_fields(col_names(d.columns)) + ")"@);
        }
    }
    let ghost head_snap = s@;
    s.append(" FROM (VALUES ");
    let ws = desc.all_wire_types();
    let groups = generate_prepared_arguments_list_with_types(&ws, no_of_items);
    s.append(groups.as_str());
    s.append(") AS temp_table(");
    let all_fields = desc.get_all_fields();
    s.append(all_fields.as_str());
    s.append(") WHERE P.");
    let pk = desc.get_primary_key();
    s.append(pk.as_str());
    s.append(" = temp_table.");
    s.append(pk.as_str());
    s.append(" RETURNING *");
    proof {
        let d = desc@;
        assert(s@ =~= head_snap + " FROM (VALUES "@ + spec_typed_groups(
            col_wire_types(d.all_columns),
            no_of_items as nat,
        ) + ") AS temp_table("@ + spec_all_fields_text(d) + ") WHERE P."@ + quote_if_needed(
            d.primary_key.sql_name,
        ) + " = temp_table."@ + quote_if_needed(d.primary_key.sql_name) + " RETURNING *"@);
        assert(s@ =~= spec_update_multiple_sql(d, no_of_items as nat));
    }
    s
}

/// `DELETE FROM "T" WHERE "pk" IN ($1) RETURNING *`
pub open spec fn spec_delete_sql(d: TypeDescriptorV) -> Seq<char> {
    "DELETE FROM "@ + quoted(d.table_name) + " WHERE "@ + quote_if_needed(d.primary_key.sql_name)
        + " IN ($1) RETURNING *"@
}

/// The single-row DELETE statement; binds the record's primary-key value.
pub fn delete_sql(desc: &TypeDescriptor) -> (r: String)
    ensures
        r@ == spec_delete_sql(desc@),
{
    let mut s = String::new();
    s.append("DELETE FROM ");
    let t = desc.get_table_name();
    s.append(t.as_str());
    s.append(" WHERE ");
    let pk = desc.get_primary_key();
    s.append(pk.as_str());
    s.append(" IN ($1) RETURNING *");
    proof {
        assert(s@ =~= spec_delete_sql(desc@));
    }
    s
}

/// `DELETE FROM "T" WHERE "pk" IN ($1,..,$n) RETURNING *`
pub open spec fn spec_delete_multiple_sql(d: TypeDescriptorV, rows: nat) -> Seq<char> {
    "DELETE FROM "@ + quoted(d.table_name) + " WHERE "@ + quote_if_needed(d.primary_key.sql_name) + " IN ("@
        + spec_arg_range(1, rows) + ") RETURNING *"@
}

/// The batch DELETE statement; binds the records' primary-key values in
/// input order.
pub fn delete_multiple_sql(desc: &TypeDescriptor, no_of_items: usize) -> (r: String)
    requires
        no_of_items < usize::MAX,
    ensures
        r@ == spec_delete_multiple_sql(desc@, no_of_items as nat),
{
    let mut s = String::new();
    s.append("DELETE FROM ");
    let t = desc.get_table_name();
    s.append(t.as_str());
    s.append(" WHERE ");
    let pk = desc.get_primary_key();
    s.append(pk.as_str());
    s.append(" IN (");
    let a = generate_single_prepared_arguments_list(1, no_of_items);
    s.append(a.as_str());
    s.append(") RETURNING *");
    proof {
        assert(s@ =~= spec_delete_multiple_sql(desc@, no_of_items as nat));
    }
    s
}

} // verus!
