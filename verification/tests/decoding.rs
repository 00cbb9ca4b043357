use movie_stats::parsing::{
    convert_json_to_set, ids_of_members, normalize_quotes, number_id, within_parser_reach,
    MAX_DIGIT_RUN,
};
use std::collections::HashSet;

#[test]
fn json_to_set() {
    assert_eq!(convert_json_to_set(""), HashSet::new());
    assert_eq!(convert_json_to_set("[]"), HashSet::new());
    let invalid_json = r#"[{"a": 2}, {"a": 3}]"#;
    assert_eq!(convert_json_to_set(invalid_json), HashSet::new());
    let json_single_quotes = "[{'id': 28, 'name': 'Action'}, {'id': 12, 'name': 'Adventure'}, {'id': 878, 'name': 'Science Fiction'}, {'id': 53, 'name': 'Thriller'}]";
    let json = json_single_quotes.replace("'", "\"");
    let expected = HashSet::from([28, 12, 878, 53]);
    assert_eq!(convert_json_to_set(&json), expected);
    assert_eq!(convert_json_to_set(&json_single_quotes), expected);
}

#[test]
fn one_genre_decodes_to_its_id() {
    assert_eq!(convert_json_to_set("[{'id': 28, 'name': 'Action'}]"), HashSet::from([28]));
}

#[test]
fn malformed_text_decodes_to_nothing() {
    assert_eq!(convert_json_to_set("[{'id': 28, 'name': 'Action'}"), HashSet::new());
    assert_eq!(convert_json_to_set("not json"), HashSet::new());
    assert_eq!(convert_json_to_set("[{'id': 1, 'name': 'Bob's'}]"), HashSet::new());
    assert_eq!(convert_json_to_set("{"), HashSet::new());
}

#[test]
fn what_is_no_list_of_objects_decodes_to_nothing() {
    assert_eq!(convert_json_to_set("{'id': 28}"), HashSet::new());
    assert_eq!(convert_json_to_set("28"), HashSet::new());
    assert_eq!(convert_json_to_set("null"), HashSet::new());
    assert_eq!(convert_json_to_set("[28, 12]"), HashSet::new());
    assert_eq!(convert_json_to_set("['id']"), HashSet::new());
}

#[test]
fn members_without_an_integer_id_are_passed_over() {
    assert_eq!(
        convert_json_to_set("[{'id': 1}, {'name': 'x'}, {'id': 'seven'}, {'id': 2.5}, {'id': 3}]"),
        HashSet::from([1, 3])
    );
    assert_eq!(convert_json_to_set("[{'id': null}, {'id': true}]"), HashSet::new());
}

#[test]
fn ids_are_read_as_32_bit_integers() {
    assert_eq!(
        convert_json_to_set("[{'id': 2147483647}, {'id': 2147483648}, {'id': -2147483648}]"),
        HashSet::from([2147483647, -2147483648])
    );
    assert_eq!(convert_json_to_set("[{'id': -7}, {'id': 0}]"), HashSet::from([-7, 0]));
}

#[test]
fn an_id_named_twice_counts_once() {
    assert_eq!(convert_json_to_set("[{'id': 5}, {'id': 5}, {'id': 6}]"), HashSet::from([5, 6]));
}

#[test]
fn normalize_quotes_turns_single_into_double() {
    assert_eq!(normalize_quotes("[{'id': 28}]"), "[{\"id\": 28}]");
    assert_eq!(normalize_quotes(""), "");
    assert_eq!(normalize_quotes("plain"), "plain");
    assert_eq!(normalize_quotes("''"), "\"\"");
    assert_eq!(normalize_quotes("\"kept\""), "\"kept\"");
    assert_eq!(normalize_quotes("é'ü"), "é\"ü");
}

#[test]
fn ids_of_members_collects_what_is_there() {
    assert_eq!(ids_of_members(&None), HashSet::new());
    assert_eq!(ids_of_members(&Some(vec![])), HashSet::new());
    assert_eq!(ids_of_members(&Some(vec![None, None])), HashSet::new());
    assert_eq!(
        ids_of_members(&Some(vec![
            Some((true, 28, 0)),
            None,
            Some((true, 12, 0)),
            Some((true, 28, 0)),
            Some((false, 2147483648, 0)),
            Some((true, 7, 1)),
            Some((true, 2147483648, 0)),
        ])),
        HashSet::from([28, 12, -2147483648])
    );
}

#[test]
fn number_id_reads_plain_32_bit_integers() {
    assert_eq!(number_id(&(true, 0, 0)), Some(0));
    assert_eq!(number_id(&(false, 0, 0)), Some(0));
    assert_eq!(number_id(&(true, 28, 0)), Some(28));
    assert_eq!(number_id(&(false, 28, 0)), Some(-28));
    assert_eq!(number_id(&(true, 2147483647, 0)), Some(2147483647));
    assert_eq!(number_id(&(true, 2147483648, 0)), None);
    assert_eq!(number_id(&(false, 2147483648, 0)), Some(-2147483648));
    assert_eq!(number_id(&(false, 2147483649, 0)), None);
    assert_eq!(number_id(&(true, u64::MAX, 0)), None);
    assert_eq!(number_id(&(false, u64::MAX, 0)), None);
    assert_eq!(number_id(&(false, 1 << 63, 0)), None);
    // 28.0 and 28e1 are written with an exponent.
    assert_eq!(number_id(&(true, 280, -1)), None);
    assert_eq!(number_id(&(true, 28, 1)), None);
    assert_eq!(number_id(&(true, 0, i16::MIN)), None);
}

#[test]
fn ids_beyond_64_bits_are_passed_over() {
    assert_eq!(
        convert_json_to_set("[{'id': -9223372036854775808}, {'id': 4}]"),
        HashSet::from([4])
    );
    assert_eq!(
        convert_json_to_set("[{'id': 9223372036854775808}, {'id': 18446744073709551615}]"),
        HashSet::new()
    );
    assert_eq!(convert_json_to_set("[{'id': -922337203685477580.8e1}]"), HashSet::new());
    assert_eq!(
        convert_json_to_set("[{'id': 123456789012345678901234567890}, {'id': 5}]"),
        HashSet::from([5])
    );
}

#[test]
fn ids_written_with_fraction_or_exponent_are_passed_over() {
    assert_eq!(
        convert_json_to_set("[{'id': 28.0}, {'id': 1e1}, {'id': 0.5}, {'id': 6}]"),
        HashSet::from([6])
    );
}

#[test]
fn long_runs_of_digits_are_not_parsed() {
    let zeros = "0".repeat(40000);
    let fraction = format!("[{{'id': 5, 'share': 0.{}}}]", zeros);
    assert!(!within_parser_reach(&fraction));
    assert_eq!(convert_json_to_set(&fraction), HashSet::new());
    let name = format!("[{{'id': 5, 'name': '{}'}}]", zeros);
    assert_eq!(convert_json_to_set(&name), HashSet::new());
}

#[test]
fn runs_of_digits_up_to_the_limit_are_parsed() {
    let zeros = "0".repeat(MAX_DIGIT_RUN);
    let fraction = format!("[{{'id': 5, 'share': 0.{}}}]", zeros);
    assert!(within_parser_reach(&fraction));
    assert_eq!(convert_json_to_set(&fraction), HashSet::from([5]));
    let longer = format!("[{{'id': 5, 'share': 0.{}0}}]", zeros);
    assert!(!within_parser_reach(&longer));
    assert_eq!(convert_json_to_set(&longer), HashSet::new());
}

#[test]
fn within_parser_reach_counts_each_run_by_itself() {
    assert_eq!(MAX_DIGIT_RUN, 32767);
    assert!(within_parser_reach(""));
    assert!(within_parser_reach("no digits"));
    assert!(within_parser_reach("[{'id': 28, 'name': 'Action'}]"));
    let run = "7".repeat(MAX_DIGIT_RUN);
    assert!(within_parser_reach(&run));
    assert!(within_parser_reach(&format!("{}.{}", run, run)));
    assert!(within_parser_reach(&format!("{}é{}", run, run)));
    assert!(!within_parser_reach(&format!("{}{}", run, 1)));
    assert!(!within_parser_reach(&format!("x{}8y", run)));
}
