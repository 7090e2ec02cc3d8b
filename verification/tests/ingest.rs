use sensor_bridge::ingest::{connection_step, parse_line, ConnectionStep};
use sensor_bridge::sample::Sample;

fn number(token: &str) -> Option<f64> {
    token.parse::<f64>().ok()
}

#[test]
fn line_with_trailing_flags_keeps_first_seven() {
    let sample = parse_line("1,2,3,4,5,6,7,X,Y", number);
    assert_eq!(sample, Some(Sample { readings: [1.0, 2.0, 3.0, 4.0, 5.0, 6.0, 7.0] }));
}

#[test]
fn line_of_three_fields_yields_nothing() {
    assert_eq!(parse_line("9,9,9", number), None);
}

#[test]
fn unparseable_fields_are_dropped_one_by_one() {
    let sample = parse_line("x,1,2,,3,4,5,y,6,7.5,8\n", number);
    assert_eq!(sample, Some(Sample { readings: [1.0, 2.0, 3.0, 4.0, 5.0, 6.0, 7.5] }));
}

#[test]
fn six_numbers_among_many_fields_yield_nothing() {
    assert_eq!(parse_line("1,2,3,a,b,c,4,5,6,d", number), None);
}

#[test]
fn field_with_inner_space_does_not_parse() {
    assert_eq!(parse_line("1, 2,3,4,5,6,7", number), None);
    let sample = parse_line("1, 2,3,4,5,6,7,8", number);
    assert_eq!(sample, Some(Sample { readings: [1.0, 3.0, 4.0, 5.0, 6.0, 7.0, 8.0] }));
}

#[test]
fn carriage_return_before_line_feed_is_no_part_of_the_last_field() {
    let sample = parse_line("1,2,3,4,5,6,7\r\n", number);
    assert_eq!(sample, Some(Sample { readings: [1.0, 2.0, 3.0, 4.0, 5.0, 6.0, 7.0] }));
}

#[test]
fn the_parser_decides_what_a_reading_is() {
    let length = |token: &str| if token.is_empty() { None } else { Some(token.len()) };
    let sample = parse_line("a,bb,,ccc,dddd,e,ff,ggg,h", length);
    assert_eq!(sample, Some(Sample { readings: [1, 2, 3, 4, 1, 2, 3] }));
}

#[test]
fn end_of_stream_closes() {
    let read: Result<usize, ()> = Ok(0);
    let step: ConnectionStep<f64> = connection_step(&read, "", number);
    assert!(matches!(step, ConnectionStep::Close));
}

#[test]
fn end_of_stream_closes_whatever_the_buffer_holds() {
    let read: Result<usize, ()> = Ok(0);
    let step: ConnectionStep<f64> = connection_step(&read, "1,2,3,4,5,6,7", number);
    assert!(matches!(step, ConnectionStep::Close));
}

#[test]
fn failed_read_closes() {
    let read: Result<usize, String> = Err(String::from("reset by peer"));
    let step: ConnectionStep<f64> = connection_step(&read, "1,2,3,4,5,6,7\n", number);
    assert!(matches!(step, ConnectionStep::Close));
}

#[test]
fn full_record_is_committed() {
    let read: Result<usize, ()> = Ok(14);
    let step = connection_step(&read, "1,2,3,4,5,6,7\n", number);
    match step {
        ConnectionStep::Commit(sample) => {
            assert_eq!(sample.readings, [1.0, 2.0, 3.0, 4.0, 5.0, 6.0, 7.0])
        }
        _ => panic!("the record yields a sample"),
    }
}

#[test]
fn short_record_is_skipped() {
    let read: Result<usize, ()> = Ok(6);
    let step = connection_step(&read, "9,9,9\n", number);
    assert!(matches!(step, ConnectionStep::Skip));
}

#[test]
fn blank_line_is_skipped() {
    let read: Result<usize, ()> = Ok(1);
    let step = connection_step(&read, "\n", number);
    assert!(matches!(step, ConnectionStep::Skip));
}
