use finvoroo_print_agent::text::decimal_string;

#[test]
fn decimal_strings_match_format() {
    for n in [0u64, 7, 10, 99, 100, 1_700_000_000, u64::MAX] {
        assert_eq!(decimal_string(n), format!("{n}"));
    }
}
