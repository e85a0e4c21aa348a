use range_proxy::range_header::rewrite;

#[test]
fn large_range_is_capped() {
    let out = rewrite(b"bytes=0-999999999", 1000);
    assert_eq!(out, Some(b"bytes=0-1000".to_vec()));
}

#[test]
fn open_ended_range_is_closed() {
    let out = rewrite(b"bytes=500-", 2048);
    assert_eq!(out, Some(b"bytes=500-2548".to_vec()));
}

#[test]
fn wrong_unit_is_left_alone() {
    assert_eq!(rewrite(b"items=0-10", 1000), None);
}

#[test]
fn missing_prefix_is_left_alone() {
    assert_eq!(rewrite(b"", 1000), None);
    assert_eq!(rewrite(b"bytes", 1000), None);
    assert_eq!(rewrite(b"BYTES=0-10", 1000), None);
    assert_eq!(rewrite(b" bytes=0-10", 1000), None);
}

#[test]
fn non_numeric_start_is_left_alone() {
    assert_eq!(rewrite(b"bytes=abc-10", 1000), None);
    assert_eq!(rewrite(b"bytes=1x-10", 1000), None);
    assert_eq!(rewrite(b"bytes= 5-10", 1000), None);
}

#[test]
fn empty_start_is_left_alone() {
    assert_eq!(rewrite(b"bytes=-5", 1000), None);
}

#[test]
fn missing_dash_is_left_alone() {
    assert_eq!(rewrite(b"bytes=5", 1000), None);
}

#[test]
fn plus_signed_start_parses() {
    assert_eq!(rewrite(b"bytes=+5-10", 10), Some(b"bytes=5-15".to_vec()));
    assert_eq!(rewrite(b"bytes=+-10", 10), None);
    assert_eq!(rewrite(b"bytes=++5-10", 10), None);
}

#[test]
fn end_of_range_is_discarded_whatever_it_holds() {
    assert_eq!(rewrite(b"bytes=7-whatever-more", 3), Some(b"bytes=7-10".to_vec()));
    assert_eq!(rewrite(b"bytes=7-999", 3), Some(b"bytes=7-10".to_vec()));
    assert_eq!(rewrite(b"bytes=7-", 3), Some(b"bytes=7-10".to_vec()));
}

#[test]
fn only_first_range_of_a_multi_range_value_is_honored() {
    assert_eq!(rewrite(b"bytes=0-50,100-150", 10), Some(b"bytes=0-10".to_vec()));
}

#[test]
fn leading_zeros_parse_and_render_canonically() {
    assert_eq!(rewrite(b"bytes=007-x", 3), Some(b"bytes=7-10".to_vec()));
    assert_eq!(rewrite(b"bytes=0-0", 5), Some(b"bytes=0-5".to_vec()));
}

#[test]
fn start_too_large_for_u64_is_left_alone() {
    assert_eq!(rewrite(b"bytes=18446744073709551616-0", 1), None);
}

#[test]
fn capped_end_past_u64_is_left_alone() {
    assert_eq!(rewrite(b"bytes=18446744073709551615-", 1), None);
}

#[test]
fn largest_fitting_range_is_rewritten() {
    assert_eq!(
        rewrite(b"bytes=18446744073709551614-", 1),
        Some(b"bytes=18446744073709551614-18446744073709551615".to_vec())
    );
}

#[test]
fn rewriting_its_own_output_is_a_fixed_point() {
    let first = rewrite(b"bytes=0-10485760", 10485760).unwrap();
    assert_eq!(first, b"bytes=0-10485760".to_vec());
    let second = rewrite(&first, 10485760).unwrap();
    assert_eq!(second, first);
}

#[test]
fn zero_chunk_size_yields_degenerate_range() {
    assert_eq!(rewrite(b"bytes=9-100", 0), Some(b"bytes=9-9".to_vec()));
}
