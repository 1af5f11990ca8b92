use sprattus::placeholders::generate_argument_list;
use sprattus::placeholders::generate_argument_list_with_types;
use sprattus::placeholders::generate_prepared_arguments_list;
use sprattus::placeholders::generate_prepared_arguments_list_with_types;
use sprattus::placeholders::complete_prepared_arguments_list;
use sprattus::placeholders::generate_single_prepared_arguments_list;
use sprattus::text::usize_to_string;
use sprattus::wire::WireType;

/// Reads the `$n` placeholder numbers back out of generated text, the
/// way the re-parsing law describes them.
fn parse_placeholders(s: &str) -> Vec<u64> {
    let mut numbers = Vec::new();
    let mut current: Option<u64> = None;
    for c in s.chars() {
        if c == '$' {
            if let Some(n) = current.take() {
                numbers.push(n);
            }
            current = Some(0);
        } else if c.is_ascii_digit() && current.is_some() {
            current = Some(current.unwrap() * 10 + (c as u64 - '0' as u64));
        } else {
            if let Some(n) = current.take() {
                numbers.push(n);
            }
        }
    }
    if let Some(n) = current {
        numbers.push(n);
    }
    numbers
}

#[test]
fn argument_list_small() {
    assert_eq!(generate_argument_list(0), "");
    assert_eq!(generate_argument_list(1), "$1");
    assert_eq!(generate_argument_list(3), "$1,$2,$3");
}

#[test]
fn argument_list_two_digit_numbers() {
    assert_eq!(
        generate_argument_list(12),
        "$1,$2,$3,$4,$5,$6,$7,$8,$9,$10,$11,$12"
    );
}

#[test]
fn argument_list_reparses_in_order() {
    for k in 1..40usize {
        let s = generate_argument_list(k);
        let parsed = parse_placeholders(&s);
        let expected: Vec<u64> = (1..=k as u64).collect();
        assert_eq!(parsed, expected);
    }
}

#[test]
fn single_list_with_leading_fixed_parameters() {
    assert_eq!(generate_single_prepared_arguments_list(2, 4), "$2,$3,$4");
    assert_eq!(generate_single_prepared_arguments_list(5, 5), "$5");
    assert_eq!(generate_single_prepared_arguments_list(3, 2), "");
}

#[test]
fn row_grouped_list() {
    assert_eq!(generate_prepared_arguments_list(2, 3), "($1,$2),($3,$4),($5,$6)");
    assert_eq!(generate_prepared_arguments_list(1, 3), "($1),($2),($3)");
    assert_eq!(generate_prepared_arguments_list(3, 1), "($1,$2,$3)");
}

#[test]
fn row_grouped_list_shape() {
    for item_length in 1..6usize {
        for rows in 1..6usize {
            let s = generate_prepared_arguments_list(item_length, rows);
            let opens = s.chars().filter(|c| *c == '(').count();
            let closes = s.chars().filter(|c| *c == ')').count();
            assert_eq!(opens, rows);
            assert_eq!(closes, rows);
            let parsed = parse_placeholders(&s);
            let expected: Vec<u64> = (1..=(item_length * rows) as u64).collect();
            assert_eq!(parsed, expected);
            for (r, group) in s.split("),(").enumerate() {
                let in_group = parse_placeholders(group);
                assert_eq!(in_group.len(), item_length);
                assert_eq!(in_group[0], (r * item_length + 1) as u64);
            }
        }
    }
}

#[test]
fn completing_appends_groups_for_a_parameter_range() {
    let mut s = String::from("VALUES ");
    complete_prepared_arguments_list(&mut s, 3, 7, 2);
    assert_eq!(s, "VALUES ($3,$4),($5,$6)");
}

#[test]
fn typed_argument_list() {
    let types = vec![WireType::Int, WireType::Varchar];
    assert_eq!(generate_argument_list_with_types(&types), "$1::INT,$2::VARCHAR");
}

#[test]
fn typed_row_grouped_list_single_row() {
    let types = vec![WireType::Int, WireType::Varchar];
    assert_eq!(
        generate_prepared_arguments_list_with_types(&types, 1),
        "($1::INT,$2::VARCHAR)"
    );
}

#[test]
fn typed_row_grouped_list_many_rows() {
    let types = vec![WireType::Int, WireType::Varchar];
    assert_eq!(
        generate_prepared_arguments_list_with_types(&types, 3),
        "($1::INT,$2::VARCHAR),($3,$4),($5,$6)"
    );
}

#[test]
fn decimal_rendering() {
    assert_eq!(usize_to_string(0), "0");
    assert_eq!(usize_to_string(7), "7");
    assert_eq!(usize_to_string(10), "10");
    assert_eq!(usize_to_string(90217), "90217");
}
