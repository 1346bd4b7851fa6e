use weight_reader::{read_failure_message, LineReader, ReadStep};

#[test]
fn stream_of_three_lines_yields_weight() {
    let mut reader = LineReader::new();
    assert_eq!(reader.push_line("  Date:   09.07.06"), ReadStep::More);
    assert_eq!(reader.push_line("  Time:   01:13:39"), ReadStep::More);
    assert_eq!(reader.push_line("  Gross       24kg"), ReadStep::Done(24));
    assert_eq!(
        reader.buffer(),
        "  Date:   09.07.06\n  Time:   01:13:39\n  Gross       24kg\n"
    );
}

#[test]
fn stream_that_ends_early_fails_naming_device() {
    let mut reader = LineReader::new();
    assert_eq!(reader.push_line("  Date:   09.07.06"), ReadStep::More);
    assert_eq!(reader.push_line("  Time:   01:13:39"), ReadStep::More);
    assert_eq!(read_failure_message("/dev/ttyUSB0"), "Unable to read from device /dev/ttyUSB0");
    assert_eq!(read_failure_message("COM4"), "Unable to read from device COM4");
}

#[test]
fn noise_before_frame_is_kept_and_skipped() {
    let mut reader = LineReader::new();
    assert_eq!(reader.push_line(""), ReadStep::More);
    assert_eq!(reader.push_line("ST,GS"), ReadStep::More);
    assert_eq!(reader.push_line("  Date:   09.07.13"), ReadStep::More);
    assert_eq!(reader.push_line("  Time:   07:54:36"), ReadStep::More);
    assert_eq!(reader.push_line("  Gross        0kg"), ReadStep::Done(0));
    assert_eq!(reader.buffer(), "\nST,GS\n  Date:   09.07.13\n  Time:   07:54:36\n  Gross        0kg\n");
}

#[test]
fn oversized_weight_fails_the_session() {
    let mut reader = LineReader::new();
    reader.push_line(" Date: 01.01.01");
    reader.push_line(" Time: 00:00:00");
    assert_eq!(reader.push_line(" Gross 5000000000kg"), ReadStep::Fail);
}

#[test]
fn new_reader_is_empty() {
    assert_eq!(LineReader::new().buffer(), "");
}
