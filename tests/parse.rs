use weight_reader::{parse_scale_data, scan_frame, FrameScan};

const FRAME_24: &str = "  Date:   09.07.06\n  Time:   01:13:39\n  Gross       24kg\n";

#[test]
fn test_parse_scale_data() {
    assert_eq!(None, parse_scale_data(""));
    assert_eq!(None, parse_scale_data(r#"  Date:   09.07.06
  Time:   01:13:39
"#));
    assert_eq!(Some((24, 0)), parse_scale_data(r#"  Date:   09.07.06
  Time:   01:13:39
  Gross       24kg
"#));
    assert_eq!(Some((0, 0)), parse_scale_data(r#"  Date:   09.07.13
  Time:   07:54:36
  Gross        0kg

"#));
}

#[test]
fn empty_and_partial_buffers_give_nothing() {
    assert_eq!(parse_scale_data(""), None);
    assert_eq!(parse_scale_data("  Date:   09.07.06\n"), None);
    assert_eq!(parse_scale_data("  Date:   09.07.06\n  Time:   01:13:39\n"), None);
    assert_eq!(parse_scale_data("  Date:   09.07.06\n  Time:   01:13:39\n  Gross       24"), None);
    assert_eq!(parse_scale_data("  Date:   09.07.06\n  Time:   01:13:39\n  Gross       24k"), None);
    assert_eq!(scan_frame("  Date:   09.07.06\n  Time:   01:13:39\n"), FrameScan::NotFound);
}

#[test]
fn frame_with_surrounding_text() {
    let buf = format!("noise line\nmore: 12.34\n{}trailing 99kg\n", FRAME_24);
    assert_eq!(parse_scale_data(&buf), Some((24, 0)));
    assert_eq!(parse_scale_data("  Date:   09.07.06\n  Time:   01:13:39\n  Gross       24kg"), Some((24, 0)));
}

#[test]
fn zero_weight_is_a_weight() {
    let buf = "  Date:   09.07.13\n  Time:   07:54:36\n  Gross        0kg\n\n";
    assert_eq!(scan_frame(buf), FrameScan::Weight(0));
    assert_eq!(parse_scale_data(buf), Some((0, 0)));
}

#[test]
fn whitespace_amount_does_not_matter() {
    assert_eq!(parse_scale_data(" Date: 09.07.06\n Time: 01:13:39\n Gross 24kg"), Some((24, 0)));
    assert_eq!(
        parse_scale_data("\t\t Date:\t \t09.07.06\n\n   Time:        01:13:39\n \r\n Gross\t\t\t\t1234kg"),
        Some((1234, 0))
    );
    assert_eq!(parse_scale_data("\u{a0}Date:\u{3000}09.07.06\n\u{2003}Time: 01:13:39\n Gross 7kg"), Some((7, 0)));
}

#[test]
fn whitespace_is_required_between_tokens() {
    assert_eq!(parse_scale_data("Date:   09.07.06\n  Time:   01:13:39\n  Gross 24kg"), None);
    assert_eq!(parse_scale_data("  Date:09.07.06\n  Time:   01:13:39\n  Gross 24kg"), None);
    assert_eq!(parse_scale_data("  Date:   09.07.06\nTime:   01:13:39\n  Gross 24kg"), None);
    assert_eq!(parse_scale_data("  Date:   09.07.06\n  Time:   01:13:39\n  Gross24kg"), None);
    assert_eq!(parse_scale_data("  Date:   09.07.06\n  Time:   01:13:39\n  Gross 24 kg"), None);
}

#[test]
fn date_and_time_fields_need_two_digits() {
    assert_eq!(parse_scale_data("  Date:   09.07.06\n  Time:   1:13:39\n  Gross 24kg"), None);
    assert_eq!(parse_scale_data("  Date:   9.07.06\n  Time:   01:13:39\n  Gross 24kg"), None);
    assert_eq!(parse_scale_data("  Date:   09.07.2006\n  Time:   01:13:39\n  Gross 24kg"), None);
    assert_eq!(parse_scale_data("  Date:   09.07.06\n  Time:   01:13:390\n  Gross 24kg"), None);
    assert_eq!(parse_scale_data("  Date:   09/07/06\n  Time:   01:13:39\n  Gross 24kg"), None);
    assert_eq!(parse_scale_data("  Date:   09.07.06\n  Time:   01.13.39\n  Gross 24kg"), None);
}

#[test]
fn lines_out_of_order_do_not_match() {
    assert_eq!(parse_scale_data("  Time:   01:13:39\n  Date:   09.07.06\n  Gross 24kg"), None);
    assert_eq!(parse_scale_data("  Gross 24kg\n  Date:   09.07.06\n  Time:   01:13:39\n"), None);
}

#[test]
fn parsing_twice_gives_the_same() {
    assert_eq!(parse_scale_data(FRAME_24), parse_scale_data(FRAME_24));
    let partial = "  Date:   09.07.06\n";
    assert_eq!(parse_scale_data(partial), parse_scale_data(partial));
}

#[test]
fn appending_keeps_the_frame() {
    let mut buf = String::from(FRAME_24);
    assert_eq!(parse_scale_data(&buf), Some((24, 0)));
    buf.push_str("  Date:   10.07.06\n  Time:   01:14:00\n  Gross       31kg\n");
    assert_eq!(parse_scale_data(&buf), Some((24, 0)));
    buf.push_str("garbage");
    assert_eq!(parse_scale_data(&buf), Some((24, 0)));
}

#[test]
fn first_of_two_frames_wins() {
    let buf = " Date: 01.01.01\n Time: 00:00:00\n Gross 5kg\n Date: 02.02.02\n Time: 00:00:01\n Gross 6kg\n";
    assert_eq!(parse_scale_data(buf), Some((5, 0)));
}

#[test]
fn largest_weight_and_overflow() {
    assert_eq!(
        parse_scale_data(" Date: 01.01.01\n Time: 00:00:00\n Gross 4294967295kg"),
        Some((4294967295, 0))
    );
    assert_eq!(
        parse_scale_data(" Date: 01.01.01\n Time: 00:00:00\n Gross 000000000000042kg"),
        Some((42, 0))
    );
    let big = " Date: 01.01.01\n Time: 00:00:00\n Gross 4294967296kg";
    assert_eq!(scan_frame(big), FrameScan::Overflow);
    assert_eq!(parse_scale_data(big), None);
    let huge = " Date: 01.01.01\n Time: 00:00:00\n Gross 99999999999999999999999kg";
    assert_eq!(scan_frame(huge), FrameScan::Overflow);
}
