//! Placeholder algebra: pure functions from column counts and row counts
//! to positional bound-parameter text (`$1,$2`, `($1,$2),($3,$4)`,
//! `$1::INT,$2::VARCHAR`).  Parameter numbering is 1-based and contiguous
//! within one statement.

use crate::text::count_char;
use crate::text::dec_str;
use crate::text::digit_char;
use crate::text::digit_val;
use crate::text::is_digit_char;
use crate::text::lemma_count_char_append;
use crate::text::lemma_count_char_zero;
use crate::text::lemma_dec_str_digits;
use crate::text::usize_to_string;
use crate::wire::wire_sql_name;
use crate::wire::wire_sql_str;
use crate::wire::WireType;
use vstd::arithmetic::div_mod::lemma_fundamental_div_mod;
use vstd::arithmetic::div_mod::lemma_fundamental_div_mod_converse;
use vstd::prelude::*;
use vstd::string::StringExecFns;

verus! {

/// `$start,$start+1,...,$end`; empty when `start > end`.
pub open spec fn spec_arg_range(start: nat, end: nat) -> Seq<char>
    decreases end - start,
{
    if start > end {
        Seq::empty()
    } else if start == end {
        "$"@ + dec_str(start)
    } else {
        "$"@ + dec_str(start) + ","@ + spec_arg_range(start + 1, end)
    }
}

/// Peels the last element off an argument range of two or more elements.
pub proof fn lemma_arg_range_snoc(start: nat, end: nat)
    requires
        start < end,
    ensures
        spec_arg_range(start, end) == spec_arg_range(start, (end - 1) as nat) + ","@ + "$"@
            + dec_str(end),
    decreases end - start,
{
    if start + 1 < end {
        lemma_arg_range_snoc(start + 1, end);
        assert(spec_arg_range(start, (end - 1) as nat) == "$"@ + dec_str(start) + ","@
            + spec_arg_range(start + 1, (end - 1) as nat));
        assert(spec_arg_range(start, end) =~= spec_arg_range(start, (end - 1) as nat) + ","@ + "$"@
            + dec_str(end));
    } else {
        assert(spec_arg_range(start, end) == "$"@ + dec_str(start) + ","@ + spec_arg_range(
            end,
            end,
        ));
        assert(spec_arg_range(start, end) =~= spec_arg_range(start, (end - 1) as nat) + ","@ + "$"@
            + dec_str(end));
    }
}

/// The comma-separated run `$start_num,...,$end_num` of prepared-statement
/// placeholders; empty when the range is.
pub fn generate_single_prepared_arguments_list(start_num: usize, end_num: usize) -> (r: String)
    requires
        end_num < usize::MAX,
    ensures
        r@ == spec_arg_range(start_num as nat, end_num as nat),
{
    let mut s = String::new();
    if start_num > end_num {
        return s;
    }
    s.append("$");
    let num = usize_to_string(start_num);
    s.append(num.as_str());
    proof {
        assert(s@ =~= spec_arg_range(start_num as nat, start_num as nat));
    }
    let mut i: usize = start_num;
    while i < end_num
        invariant
            start_num <= i <= end_num,
            end_num < usize::MAX,
            s@ == spec_arg_range(start_num as nat, i as nat),
        decreases end_num - i,
    {
        i = i + 1;
        s.append(",");
        s.append("$");
        let num = usize_to_string(i);
        s.append(num.as_str());
        proof {
            lemma_arg_range_snoc(start_num as nat, i as nat);
            assert(s@ =~= spec_arg_range(start_num as nat, i as nat));
        }
    }
    s
}

/// `$1,$2,...,$length`: the placeholder list for one row's worth of
/// non-key columns.
pub fn generate_argument_list(length: usize) -> (r: String)
    requires
        length < usize::MAX,
    ensures
        r@ == spec_arg_range(1, length as nat),
{
    generate_single_prepared_arguments_list(1, length)
}

/// One parenthesized row group whose `len` parameters start at `first`.
pub open spec fn spec_group(first: nat, len: nat) -> Seq<char> {
    "("@ + spec_arg_range(first, (first + len - 1) as nat) + ")"@
}

/// `rows` parenthesized groups of `len` parameters each, numbered
/// sequentially from `first`, separated by commas.
pub open spec fn spec_groups(first: nat, len: nat, rows: nat) -> Seq<char>
    decreases rows,
{
    if rows == 0 {
        Seq::empty()
    } else if rows == 1 {
        spec_group(first, len)
    } else {
        spec_group(first, len) + ","@ + spec_groups(first + len, len, (rows - 1) as nat)
    }
}

/// Peels the last group off a run of two or more groups.
pub proof fn lemma_groups_snoc(first: nat, len: nat, rows: nat)
    requires
        rows >= 2,
    ensures
        spec_groups(first, len, rows) == spec_groups(first, len, (rows - 1) as nat) + ","@
            + spec_group((first + (rows - 1) * len) as nat, len),
    decreases rows,
{
    if rows == 2 {
        assert((1 as int) * len == len) by (nonlinear_arith);
        assert(spec_groups(first, len, rows) == spec_group(first, len) + ","@ + spec_groups(
            first + len,
            len,
            1,
        ));
        assert(spec_groups(first + len, len, 1) == spec_group(first + len, len));
        assert(spec_groups(first, len, 1) == spec_group(first, len));
        assert(spec_groups(first, len, rows) =~= spec_groups(first, len, 1) + ","@ + spec_group(
            (first + len) as nat,
            len,
        ));
    } else {
        lemma_groups_snoc(first + len, len, (rows - 1) as nat);
        assert(first + len + (rows - 2) * len == first + (rows - 1) * len) by (nonlinear_arith);
        assert(spec_groups(first, len, (rows - 1) as nat) == spec_group(first, len) + ","@
            + spec_groups(first + len, len, (rows - 2) as nat));
        assert(spec_groups(first, len, rows) =~= spec_groups(first, len, (rows - 1) as nat) + ","@
            + spec_group((first + (rows - 1) * len) as nat, len));
    }
}

/// Appends one parenthesized group covering parameters
/// `first..=first+item_length-1`.
fn append_group(arguments_list: &mut String, first: usize, item_length: usize)
    requires
        item_length >= 1,
        first + item_length <= usize::MAX,
    ensures
        final(arguments_list)@ == old(arguments_list)@ + spec_group(
            first as nat,
            item_length as nat,
        ),
{
    arguments_list.append("(");
    let inner = generate_single_prepared_arguments_list(first, first + (item_length - 1));
    arguments_list.append(inner.as_str());
    arguments_list.append(")");
    proof {
        assert(final(arguments_list)@ =~= old(arguments_list)@ + spec_group(
            first as nat,
            item_length as nat,
        ));
    }
}

/// Appends the row groups covering parameter numbers
/// `range_start..range_end` (end exclusive), `item_length` parameters per
/// group.
pub fn complete_prepared_arguments_list(
    arguments_list: &mut String,
    range_start: usize,
    range_end: usize,
    item_length: usize,
)
    requires
        item_length >= 1,
        range_start < range_end,
        (range_end - range_start) % (item_length as int) == 0,
    ensures
        final(arguments_list)@ == old(arguments_list)@ + spec_groups(
            range_start as nat,
            item_length as nat,
            ((range_end - range_start) / (item_length as int)) as nat,
        ),
{
    let rows: usize = (range_end - range_start) / item_length;
    let ghost base = old(arguments_list)@;
    proof {
        lemma_fundamental_div_mod(range_end - range_start, item_length as int);
        assert(range_end - range_start == (item_length as int) * (rows as int));
        assert(rows >= 1 && (rows as int) * (item_length as int) == (item_length as int) * (
        rows as int)) by (nonlinear_arith)
            requires
                range_end - range_start == (item_length as int) * (rows as int),
                range_end - range_start >= 1,
                item_length >= 1,
                rows >= 0,
        ;
        assert(range_start + item_length <= range_end) by (nonlinear_arith)
            requires
                range_end - range_start == (item_length as int) * (rows as int),
                item_length >= 1,
                rows >= 1,
        ;
    }
    append_group(arguments_list, range_start, item_length);
    let mut first: usize = range_start + item_length;
    let mut row: usize = 1;
    while row < rows
        invariant
            item_length >= 1,
            range_start < range_end <= usize::MAX,
            range_end - range_start == (item_length as int) * (rows as int),
            1 <= row <= rows,
            first == range_start + row * item_length,
            arguments_list@ == base + spec_groups(
                range_start as nat,
                item_length as nat,
                row as nat,
            ),
        decreases rows - row,
    {
        proof {
            assert(range_start + row * item_length + item_length <= range_end) by (
            nonlinear_arith)
                requires
                    row < rows,
                    item_length >= 1,
                    range_end - range_start == (item_length as int) * (rows as int),
            ;
        }
        arguments_list.append(",");
        append_group(arguments_list, first, item_length);
        proof {
            lemma_groups_snoc(range_start as nat, item_length as nat, (row + 1) as nat);
            assert(arguments_list@ =~= base + spec_groups(
                range_start as nat,
                item_length as nat,
                (row + 1) as nat,
            ));
            assert((row + 1) * item_length == row * item_length + item_length) by (
            nonlinear_arith);
        }
        first = first + item_length;
        row = row + 1;
    }
}

/// The row-grouped VALUES placeholder text for `no_of_items` rows of
/// `item_length` columns: `($1,..,$L),($L+1,..,$2L),...`, numbered
/// sequentially and globally across all rows — row `r`'s `c`-th column is
/// parameter number `(r-1)*item_length + c`.
pub fn generate_prepared_arguments_list(item_length: usize, no_of_items: usize) -> (r: String)
    requires
        item_length >= 1,
        no_of_items >= 1,
        item_length * no_of_items < usize::MAX,
    ensures
        r@ == spec_groups(1, item_length as nat, no_of_items as nat),
{
    let mut arguments_list = String::new();
    proof {
        assert((item_length as int) * (no_of_items as int) == (no_of_items as int) * (
        item_length as int) && (item_length as int) * (no_of_items as int) >= 1) by (
        nonlinear_arith)
            requires
                item_length >= 1,
                no_of_items >= 1,
        ;
        lemma_fundamental_div_mod_converse(
            (item_length as int) * (no_of_items as int),
            item_length as int,
            no_of_items as int,
            0,
        );
    }
    let range_end = item_length * no_of_items + 1;
    complete_prepared_arguments_list(&mut arguments_list, 1, range_end, item_length);
    arguments_list
}

/// `$1::T1,$2::T2,...` over the given wire types, in order.
pub open spec fn spec_typed_args(ws: Seq<WireType>) -> Seq<char>
    decreases ws.len(),
{
    if ws.len() == 0 {
        Seq::empty()
    } else if ws.len() == 1 {
        "$"@ + dec_str(1) + "::"@ + wire_sql_name(ws[0])
    } else {
        spec_typed_args(ws.drop_last()) + ","@ + "$"@ + dec_str(ws.len() as nat) + "::"@
            + wire_sql_name(ws.last())
    }
}

/// One row's placeholder list with a `::TYPE` cast on each parameter,
/// numbered from 1 in the order of `types`.
pub fn generate_argument_list_with_types(types: &Vec<WireType>) -> (r: String)
    requires
        types@.len() < usize::MAX,
    ensures
        r@ == spec_typed_args(types@),
{
    let mut s = String::new();
    let mut i: usize = 0;
    while i < types.len()
        invariant
            i <= types@.len() < usize::MAX,
            s@ == spec_typed_args(types@.take(i as int)),
        decreases types@.len() - i,
    {
        if i > 0 {
            s.append(",");
        }
        s.append("$");
        let num = usize_to_string(i + 1);
        s.append(num.as_str());
        s.append("::");
        s.append(wire_sql_str(types[i]));
        proof {
            assert(types@.take(i + 1).drop_last() =~= types@.take(i as int));
            assert(types@.take(i + 1).last() == types@[i as int]);
            assert(s@ =~= spec_typed_args(types@.take(i + 1)));
        }
        i = i + 1;
    }
    proof {
        assert(types@.take(types@.len() as int) =~= types@);
    }
    s
}

/// The typed row-constructor text for a batch UPDATE: the first row's
/// parameters carry `::TYPE` casts, later rows are plain groups, all
/// numbered sequentially.
pub open spec fn spec_typed_groups(ws: Seq<WireType>, rows: nat) -> Seq<char> {
    if rows == 1 {
        "("@ + spec_typed_args(ws) + ")"@
    } else {
        "("@ + spec_typed_args(ws) + ")"@ + ","@ + spec_groups(
            ws.len() + 1,
            ws.len(),
            (rows - 1) as nat,
        )
    }
}

pub fn generate_prepared_arguments_list_with_types(
    types: &Vec<WireType>,
    no_of_items: usize,
) -> (r: String)
    requires
        types@.len() >= 1,
        no_of_items >= 1,
        types@.len() * no_of_items < usize::MAX,
    ensures
        r@ == spec_typed_groups(types@, no_of_items as nat),
{
    let item_length = types.len();
    proof {
        assert((item_length as int) * (no_of_items as int) >= item_length as int) by (
        nonlinear_arith)
            requires
                no_of_items >= 1,
                item_length >= 0,
        ;
    }
    let mut arguments_list = String::new();
    arguments_list.append("(");
    let typed = generate_argument_list_with_types(types);
    arguments_list.append(typed.as_str());
    arguments_list.append(")");
    if no_of_items == 1 {
        proof {
            assert(arguments_list@ =~= spec_typed_groups(types@, no_of_items as nat));
        }
        return arguments_list;
    }
    proof {
        assert((item_length as int) * (no_of_items as int) - item_length == (no_of_items - 1) * (
        item_length as int)) by (nonlinear_arith);
        lemma_fundamental_div_mod_converse(
            (item_length as int) * (no_of_items as int) - item_length,
            item_length as int,
            no_of_items - 1,
            0,
        );
    }
    let range_end = item_length * no_of_items + 1;
    arguments_list.append(",");
    complete_prepared_arguments_list(&mut arguments_list, item_length + 1, range_end, item_length);
    proof {
        assert(arguments_list@ =~= spec_typed_groups(types@, no_of_items as nat));
    }
    arguments_list
}

// A spec-level scanner that reads the placeholder numbers back out of
// generated text.  It models a reader of the SQL: a `$` starts a number,
// following digits extend it, any other character ends it.  The shape
// laws below say that the generated lists parse back to exactly the
// contiguous numbering they promise.

/// The number being read, emitted once the run of digits ends.
pub open spec fn flush(cur: Option<nat>) -> Seq<nat> {
    match cur {
        Some(n) => seq![n],
        None => Seq::empty(),
    }
}

/// The placeholder numbers completed while scanning `s`, starting in
/// state `cur` (a partially read number, if any).
pub open spec fn emitted(s: Seq<char>, cur: Option<nat>) -> Seq<nat>
    decreases s.len(),
{
    if s.len() == 0 {
        Seq::empty()
    } else if s[0] == '$' {
        flush(cur) + emitted(s.drop_first(), Some(0))
    } else if is_digit_char(s[0]) && cur is Some {
        emitted(s.drop_first(), Some(cur.unwrap() * 10 + digit_val(s[0])))
    } else {
        flush(cur) + emitted(s.drop_first(), None)
    }
}

/// The scanner state after reading `s` from state `cur`.
pub open spec fn state_after(s: Seq<char>, cur: Option<nat>) -> Option<nat>
    decreases s.len(),
{
    if s.len() == 0 {
        cur
    } else if s[0] == '$' {
        state_after(s.drop_first(), Some(0))
    } else if is_digit_char(s[0]) && cur is Some {
        state_after(s.drop_first(), Some(cur.unwrap() * 10 + digit_val(s[0])))
    } else {
        state_after(s.drop_first(), None)
    }
}

/// The placeholder numbers `$n` occurring in `s`, in order.
pub open spec fn placeholder_numbers(s: Seq<char>) -> Seq<nat> {
    emitted(s, None) + flush(state_after(s, None))
}

/// Scanning distributes over concatenation.
proof fn lemma_scan_append(a: Seq<char>, b: Seq<char>, cur: Option<nat>)
    ensures
        emitted(a + b, cur) == emitted(a, cur) + emitted(b, state_after(a, cur)),
        state_after(a + b, cur) == state_after(b, state_after(a, cur)),
    decreases a.len(),
{
    reveal_with_fuel(emitted, 3);
    reveal_with_fuel(state_after, 3);
    if a.len() == 0 {
        assert(a + b =~= b);
        assert(emitted(a + b, cur) =~= emitted(a, cur) + emitted(b, state_after(a, cur)));
    } else {
        assert((a + b).drop_first() =~= a.drop_first() + b);
        if a[0] == '$' {
            lemma_scan_append(a.drop_first(), b, Some(0));
        } else if is_digit_char(a[0]) && cur is Some {
            lemma_scan_append(a.drop_first(), b, Some(cur.unwrap() * 10 + digit_val(a[0])));
        } else {
            lemma_scan_append(a.drop_first(), b, None);
        }
        assert(emitted(a + b, cur) =~= emitted(a, cur) + emitted(b, state_after(a, cur)));
    }
}

/// Reading the decimal rendering of `n` from a freshly started number
/// accumulates exactly `n`.
proof fn lemma_scan_dec(n: nat)
    ensures
        emitted(dec_str(n), Some(0)) == Seq::<nat>::empty(),
        state_after(dec_str(n), Some(0)) == Some(n),
    decreases n,
{
    reveal_with_fuel(emitted, 3);
    reveal_with_fuel(state_after, 3);
    lemma_dec_str_digits(n);
    if n < 10 {
        assert(dec_str(n) == seq![digit_char(n)]);
        assert(digit_char(n) != '$');
        assert(digit_val(digit_char(n)) == n);
        assert(emitted(dec_str(n), Some(0)) =~= Seq::<nat>::empty());
    } else {
        lemma_scan_dec(n / 10);
        assert(dec_str(n) =~= dec_str(n / 10) + seq![digit_char(n % 10)]);
        lemma_scan_append(dec_str(n / 10), seq![digit_char(n % 10)], Some(0));
        let last = seq![digit_char(n % 10)];
        assert(is_digit_char(last[0]) && last[0] != '$');
        assert(digit_val(digit_char(n % 10)) == n % 10);
        assert(state_after(last, Some(n / 10)) == Some((n / 10) * 10 + n % 10));
        assert((n / 10) * 10 + n % 10 == n) by {
            lemma_fundamental_div_mod(n as int, 10);
        }
        assert(emitted(dec_str(n), Some(0)) =~= Seq::<nat>::empty());
    }
}

/// Scanning `$n` from an idle state emits nothing and leaves `n` read.
proof fn lemma_scan_one_arg(n: nat)
    ensures
        emitted("$"@ + dec_str(n), None) == Seq::<nat>::empty(),
        state_after("$"@ + dec_str(n), None) == Some(n),
{
    reveal_with_fuel(emitted, 3);
    reveal_with_fuel(state_after, 3);
    reveal_strlit("$");
    assert(("$"@)[0] == '$');
    assert(state_after("$"@, None) == Some(0nat));
    assert(emitted("$"@, None) =~= Seq::<nat>::empty());
    lemma_scan_append("$"@, dec_str(n), None);
    lemma_scan_dec(n);
    assert(emitted("$"@ + dec_str(n), None) =~= Seq::<nat>::empty());
}

/// Scanning an argument range emits its numbers but `end`, which is
/// still being read at the end of the text.
proof fn lemma_scan_arg_range(start: nat, end: nat)
    requires
        start <= end,
    ensures
        emitted(spec_arg_range(start, end), None) == Seq::new(
            (end - start) as nat,
            |i: int| (start + i) as nat,
        ),
        state_after(spec_arg_range(start, end), None) == Some(end),
    decreases end - start,
{
    reveal_with_fuel(emitted, 3);
    reveal_with_fuel(state_after, 3);
    reveal_strlit(",");
    if start == end {
        lemma_scan_one_arg(start);
        assert(spec_arg_range(start, end) == "$"@ + dec_str(start));
        assert(emitted(spec_arg_range(start, end), None) =~= Seq::new(
            (end - start) as nat,
            |i: int| (start + i) as nat,
        ));
    } else {
        lemma_scan_arg_range(start + 1, end);
        let head = "$"@ + dec_str(start);
        let sep = ","@;
        let rest = spec_arg_range(start + 1, end);
        assert(spec_arg_range(start, end) =~= (head + sep) + rest);
        lemma_scan_one_arg(start);
        lemma_scan_append(head, sep, None);
        assert(sep[0] == ',' && !is_digit_char(',') && ',' != '$');
        assert(state_after(head + sep, None) is None);
        assert(emitted(head + sep, None) =~= seq![start]);
        lemma_scan_append(head + sep, rest, None);
        assert(emitted(spec_arg_range(start, end), None) =~= Seq::new(
            (end - start) as nat,
            |i: int| (start + i) as nat,
        ));
    }
}

/// Re-parsing law for the plain argument list: `$1,...,$k` parses back
/// to exactly the numbers `1..k`, in order.
pub proof fn lemma_single_arg_list_reparses(k: nat)
    ensures
        placeholder_numbers(spec_arg_range(1, k)) == Seq::new(k, |i: int| (1 + i) as nat),
{
    if k == 0 {
        reveal_with_fuel(emitted, 2);
        reveal_with_fuel(state_after, 2);
        assert(spec_arg_range(1, 0) =~= Seq::<char>::empty());
    } else {
        lemma_scan_arg_range(1, k);
    }
    assert(placeholder_numbers(spec_arg_range(1, k)) =~= Seq::new(k, |i: int| (1 + i) as nat));
}

/// Scanning one parenthesized group emits its `len` consecutive numbers
/// and ends idle.
proof fn lemma_scan_group(first: nat, len: nat)
    requires
        len >= 1,
    ensures
        emitted(spec_group(first, len), None) == Seq::new(len, |i: int| (first + i) as nat),
        state_after(spec_group(first, len), None) is None,
{
    reveal_with_fuel(emitted, 3);
    reveal_with_fuel(state_after, 3);
    reveal_strlit("(");
    reveal_strlit(")");
    let open = "("@;
    let close = ")"@;
    let inner = spec_arg_range(first, (first + len - 1) as nat);
    assert(open[0] == '(' && !is_digit_char('(') && '(' != '$');
    assert(close[0] == ')' && !is_digit_char(')') && ')' != '$');
    assert(state_after(open, None) is None);
    assert(emitted(open, None) =~= Seq::<nat>::empty());
    lemma_scan_arg_range(first, (first + len - 1) as nat);
    lemma_scan_append(open, inner, None);
    assert(emitted(open + inner, None) =~= Seq::new(
        (len - 1) as nat,
        |i: int| (first + i) as nat,
    ));
    assert(state_after(open + inner, None) == Some((first + len - 1) as nat));
    lemma_scan_append(open + inner, close, None);
    assert(spec_group(first, len) =~= (open + inner) + close);
    assert(emitted(spec_group(first, len), None) =~= Seq::new(
        len,
        |i: int| (first + i) as nat,
    ));
}

/// Scanning a run of groups emits `len * rows` consecutive numbers and
/// ends idle.
proof fn lemma_scan_groups(first: nat, len: nat, rows: nat)
    requires
        len >= 1,
        rows >= 1,
    ensures
        emitted(spec_groups(first, len, rows), None) == Seq::new(
            len * rows,
            |i: int| (first + i) as nat,
        ),
        state_after(spec_groups(first, len, rows), None) is None,
    decreases rows,
{
    reveal_with_fuel(emitted, 3);
    reveal_with_fuel(state_after, 3);
    reveal_strlit(",");
    if rows == 1 {
        lemma_scan_group(first, len);
        assert(len * 1 == len) by (nonlinear_arith);
        assert(emitted(spec_groups(first, len, rows), None) =~= Seq::new(
            len * rows,
            |i: int| (first + i) as nat,
        ));
    } else {
        lemma_scan_groups(first + len, len, (rows - 1) as nat);
        lemma_scan_group(first, len);
        let g = spec_group(first, len);
        let sep = ","@;
        let rest = spec_groups(first + len, len, (rows - 1) as nat);
        assert(spec_groups(first, len, rows) =~= (g + sep) + rest);
        lemma_scan_append(g, sep, None);
        assert(sep[0] == ',' && !is_digit_char(',') && ',' != '$');
        assert(emitted(g + sep, None) =~= Seq::new(len, |i: int| (first + i) as nat));
        assert(state_after(g + sep, None) is None);
        lemma_scan_append(g + sep, rest, None);
        assert(len * rows == len + len * (rows - 1)) by (nonlinear_arith);
        assert(emitted(spec_groups(first, len, rows), None) =~= Seq::new(
            len * rows,
            |i: int| (first + i) as nat,
        ));
    }
}

/// Counts one character in a single-character sequence.
proof fn lemma_count_single(s: Seq<char>, c: char)
    requires
        s.len() == 1,
    ensures
        count_char(s, c) == (if s[0] == c {
            1nat
        } else {
            0nat
        }),
{
    reveal_with_fuel(count_char, 3);
    assert(s.drop_first() =~= Seq::<char>::empty());
}

/// A non-digit character does not occur in a decimal rendering.
proof fn lemma_digits_count_zero(n: nat, c: char)
    requires
        !is_digit_char(c),
    ensures
        count_char(dec_str(n), c) == 0,
{
    lemma_dec_str_digits(n);
    assert forall|i: int| 0 <= i < dec_str(n).len() implies #[trigger] dec_str(n)[i] != c by {
        assert(is_digit_char(dec_str(n)[i]));
    }
    lemma_count_char_zero(dec_str(n), c);
}

/// A character that is neither `$` nor `,` nor a digit does not occur in
/// an argument range.
proof fn lemma_arg_range_count_zero(start: nat, end: nat, c: char)
    requires
        c != '$',
        c != ',',
        !is_digit_char(c),
    ensures
        count_char(spec_arg_range(start, end), c) == 0,
    decreases end - start,
{
    reveal_with_fuel(count_char, 3);
    reveal_strlit("$");
    reveal_strlit(",");
    lemma_digits_count_zero(start, c);
    if start > end {
    } else if start == end {
        lemma_count_single("$"@, c);
        lemma_count_char_append("$"@, dec_str(start), c);
    } else {
        lemma_arg_range_count_zero(start + 1, end, c);
        lemma_count_single("$"@, c);
        lemma_count_single(","@, c);
        lemma_count_char_append("$"@, dec_str(start), c);
        lemma_count_char_append("$"@ + dec_str(start), ","@, c);
        lemma_count_char_append("$"@ + dec_str(start) + ","@, spec_arg_range(start + 1, end), c);
    }
}

/// Shape law for the row-grouped list: `rows` groups are opened and
/// closed, and the text parses back to the contiguous numbering
/// `first..first+len*rows-1` with no gap and no reuse.  Together with
/// [`lemma_scan_group`]'s count, each group carries exactly `len`
/// parameters.
pub proof fn lemma_row_grouped_shape(item_length: nat, rows: nat)
    requires
        item_length >= 1,
        rows >= 1,
    ensures
        count_char(spec_groups(1, item_length, rows), '(') == rows,
        count_char(spec_groups(1, item_length, rows), ')') == rows,
        placeholder_numbers(spec_groups(1, item_length, rows)) == Seq::new(
            item_length * rows,
            |i: int| (1 + i) as nat,
        ),
{
    lemma_scan_groups(1, item_length, rows);
    assert(placeholder_numbers(spec_groups(1, item_length, rows)) =~= Seq::new(
        item_length * rows,
        |i: int| (1 + i) as nat,
    ));
    lemma_group_paren_count(1, item_length, rows);
}

/// One parenthesized group holds one `(` and one `)`.
proof fn lemma_one_group_paren_count(first: nat, len: nat)
    ensures
        count_char(spec_group(first, len), '(') == 1,
        count_char(spec_group(first, len), ')') == 1,
{
    reveal_strlit("(");
    reveal_strlit(")");
    let open = "("@;
    let close = ")"@;
    let inner = spec_arg_range(first, (first + len - 1) as nat);
    assert(!is_digit_char('(') && !is_digit_char(')'));
    lemma_arg_range_count_zero(first, (first + len - 1) as nat, '(');
    lemma_arg_range_count_zero(first, (first + len - 1) as nat, ')');
    lemma_count_char_append(open, inner, '(');
    lemma_count_char_append(open + inner, close, '(');
    lemma_count_char_append(open, inner, ')');
    lemma_count_char_append(open + inner, close, ')');
    lemma_count_single(open, '(');
    lemma_count_single(open, ')');
    lemma_count_single(close, '(');
    lemma_count_single(close, ')');
    assert(spec_group(first, len) =~= (open + inner) + close);
}

proof fn lemma_group_paren_count(first: nat, len: nat, rows: nat)
    requires
        rows >= 1,
    ensures
        count_char(spec_groups(first, len, rows), '(') == rows,
        count_char(spec_groups(first, len, rows), ')') == rows,
    decreases rows,
{
    reveal_strlit(",");
    lemma_one_group_paren_count(first, len);
    if rows > 1 {
        lemma_group_paren_count(first + len, len, (rows - 1) as nat);
        let g = spec_group(first, len);
        let sep = ","@;
        let rest = spec_groups(first + len, len, (rows - 1) as nat);
        lemma_count_single(sep, '(');
        lemma_count_single(sep, ')');
        lemma_count_char_append(g, sep, '(');
        lemma_count_char_append(g + sep, rest, '(');
        lemma_count_char_append(g, sep, ')');
        lemma_count_char_append(g + sep, rest, ')');
        assert(spec_groups(first, len, rows) =~= (g + sep) + rest);
    }
}

} // verus!
