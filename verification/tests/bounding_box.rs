use arnis_args::bbox::{validate_bounding_box, BoundingBox, BoundingBoxError};

#[test]
fn accepts_a_box_around_the_origin() {
    assert!(validate_bounding_box("-1,-1,1,1"));
}

#[test]
fn rejects_a_longitude_out_of_range() {
    assert!(!validate_bounding_box("200,-1,1,1"));
    assert!(!validate_bounding_box("-1,-1,200,1"));
    assert!(!validate_bounding_box("-180.5,-1,1,1"));
}

#[test]
fn rejects_a_latitude_out_of_range() {
    assert!(!validate_bounding_box("-1,-91,1,1"));
    assert!(!validate_bounding_box("-1,-1,1,90.001"));
}

#[test]
fn rejects_minimum_not_below_maximum() {
    assert!(!validate_bounding_box("1,1,-1,-1"));
    assert!(!validate_bounding_box("1,0,1,1"));
    assert!(!validate_bounding_box("0,1,1,1"));
    assert!(!validate_bounding_box("2,0,1,1"));
    assert!(!validate_bounding_box("0,2,1,1"));
}

#[test]
fn rejects_a_wrong_number_of_fields() {
    assert!(!validate_bounding_box(""));
    assert!(!validate_bounding_box("1"));
    assert!(!validate_bounding_box("1,2,3"));
    assert!(!validate_bounding_box("1,2,3,4,5"));
    assert!(!validate_bounding_box("1,2,3,4,"));
    assert!(!validate_bounding_box(",1,2,3,4"));
}

#[test]
fn accepts_the_whole_globe() {
    assert!(validate_bounding_box("-180,-90,180,90"));
    assert!(validate_bounding_box("-180.000,-90.0,180.0,90.000"));
    assert!(validate_bounding_box("-1.8e2,-9e1,18e1,0.9E2"));
}

#[test]
fn rejects_the_smallest_step_over_a_bound() {
    assert!(!validate_bounding_box("-180,-90,180.000000000000000000000000000001,90"));
    assert!(!validate_bounding_box("-180,-90.000000000000000000000000000001,180,90"));
    assert!(!validate_bounding_box("-180,-90,180,90000000000000000000000000000000001e-33"));
}

#[test]
fn orders_numbers_exactly() {
    assert!(validate_bounding_box("1,1,1.000000000000000000000000000001,2"));
    assert!(!validate_bounding_box("1.000000000000000000000000000001,1,1,2"));
    assert!(validate_bounding_box("0.1,0.25,0.10000000000000000000000001,0.250000000000000000001"));
    assert!(!validate_bounding_box("10,0,9.999,1"));
    assert!(validate_bounding_box("9.999,0,10,1"));
    assert!(validate_bounding_box("99.5,0,100,1"));
    assert!(!validate_bounding_box("100,0,99.5,1"));
}

#[test]
fn orders_negative_numbers() {
    assert!(validate_bounding_box("-2,-2,-1,-1"));
    assert!(!validate_bounding_box("-1,-2,-2,-1"));
    assert!(validate_bounding_box("-0.5,-0.25,0,0"));
    assert!(!validate_bounding_box("-0,0,0,1"));
    assert!(!validate_bounding_box("0,0,-0.0,1"));
    assert!(validate_bounding_box("-0.001,-1e-9,+0,0e5"));
}

#[test]
fn reads_exponents_of_any_size() {
    assert!(validate_bounding_box("1e1,0,1.5e1,1"));
    assert!(validate_bounding_box("100e-1,0,0.0015e+4,1"));
    assert!(!validate_bounding_box("1e3,0,2e3,1"));
    assert!(validate_bounding_box("1e-400,0,2e-400,1"));
    assert!(!validate_bounding_box("2e-400,0,1e-400,1"));
    assert!(validate_bounding_box(
        "1e-99999999999999999999999999999999999999,0,2e-99999999999999999999999999999999999999,1"
    ));
    assert!(validate_bounding_box(
        "10e-100000000000000000000000000000000000000,0,2e-99999999999999999999999999999999999999,1"
    ));
    assert!(!validate_bounding_box(
        "20e-100000000000000000000000000000000000000,0,2e-99999999999999999999999999999999999999,1"
    ));
    assert!(!validate_bounding_box("0,0,1e99999999999999999999999999999999999999,1"));
    assert!(validate_bounding_box("0e99999999999999999999999999999999999999,0,1,1"));
    assert!(validate_bounding_box("0,0,1e0000000000000000000000000000000000000002,1"));
}

#[test]
fn rejects_what_is_not_finite() {
    assert!(!validate_bounding_box("-inf,0,1,1"));
    assert!(!validate_bounding_box("0,0,inf,1"));
    assert!(!validate_bounding_box("0,0,Infinity,1"));
    assert!(!validate_bounding_box("nan,0,1,1"));
    assert!(!validate_bounding_box("0,NaN,1,1"));
    assert!(!validate_bounding_box("0,0,1,+INF"));
}

#[test]
fn counts_a_field_outside_the_grammar_as_zero() {
    assert!(validate_bounding_box("abc,1,2,3"));
    assert!(validate_bounding_box("-1,x,1,1"));
    assert!(!validate_bounding_box("1,1,abc,2"));
    assert!(!validate_bounding_box(",,,"));
    assert!(validate_bounding_box(" -5,0,1,1"));
    assert!(validate_bounding_box(" 5,0,1,1"));
    assert!(!validate_bounding_box("5,0, 1,1"));
    assert!(validate_bounding_box("-5,0,1 ,1"));
    assert!(validate_bounding_box("1e,0,2,1"));
    assert!(validate_bounding_box(".,0,2,1"));
    assert!(validate_bounding_box("-,0,2,1"));
    assert!(validate_bounding_box("1_0,0,2,1"));
    assert!(validate_bounding_box("\u{0661}\u{0662},0,2,1"));
}

#[test]
fn reads_the_forms_of_the_grammar() {
    assert!(validate_bounding_box(".5,.25,1.,2."));
    assert!(validate_bounding_box("+1,+1,+2,+2"));
    assert!(validate_bounding_box("001,01,0002,2"));
    assert!(validate_bounding_box("1.e0,1e+0,2.0E0,2e-0"));
}

#[test]
fn parse_keeps_the_four_texts() {
    let b = BoundingBox::parse("-1.50,-2,3e1,4.").unwrap();
    assert_eq!(b.min_lng(), "-1.50");
    assert_eq!(b.min_lat(), "-2");
    assert_eq!(b.max_lng(), "3e1");
    assert_eq!(b.max_lat(), "4.");
}

#[test]
fn parse_keeps_zero_for_a_field_outside_the_grammar() {
    let e = BoundingBox::parse("abc,1,2,?").unwrap_err();
    assert_eq!(e, BoundingBoxError::NotOrdered);
    let b = BoundingBox::parse("abc,-1,2,1 ").unwrap();
    assert_eq!(b.min_lng(), "0");
    assert_eq!(b.min_lat(), "-1");
    assert_eq!(b.max_lng(), "2");
    assert_eq!(b.max_lat(), "0");
}

#[test]
fn parse_names_the_rule_that_is_broken() {
    assert_eq!(BoundingBox::parse("1,2,3").unwrap_err(), BoundingBoxError::FieldCount);
    assert_eq!(BoundingBox::parse("1,2,3,4,5").unwrap_err(), BoundingBoxError::FieldCount);
    assert_eq!(
        BoundingBox::parse("200,-1,1,1").unwrap_err(),
        BoundingBoxError::LongitudeOutOfRange
    );
    assert_eq!(
        BoundingBox::parse("200,-100,1,1").unwrap_err(),
        BoundingBoxError::LongitudeOutOfRange
    );
    assert_eq!(
        BoundingBox::parse("-1,-1,1,100").unwrap_err(),
        BoundingBoxError::LatitudeOutOfRange
    );
    assert_eq!(BoundingBox::parse("2,-100,1,1").unwrap_err(), BoundingBoxError::LatitudeOutOfRange);
    assert_eq!(BoundingBox::parse("1,1,-1,-1").unwrap_err(), BoundingBoxError::NotOrdered);
}

#[test]
fn a_box_that_was_read_reads_back_the_same() {
    let first = BoundingBox::parse("abc,-1e0,+2.5,1").unwrap();
    let text = format!(
        "{},{},{},{}",
        first.min_lng(),
        first.min_lat(),
        first.max_lng(),
        first.max_lat()
    );
    assert_eq!(text, "0,-1e0,+2.5,1");
    assert!(validate_bounding_box(&text));
    let second = BoundingBox::parse(&text).unwrap();
    assert_eq!(second.min_lng(), first.min_lng());
    assert_eq!(second.min_lat(), first.min_lat());
    assert_eq!(second.max_lng(), first.max_lng());
    assert_eq!(second.max_lat(), first.max_lat());
}

#[test]
fn validating_twice_gives_the_same_verdict() {
    for text in ["-1,-1,1,1", "200,-1,1,1", "1,2,3", "abc,1,2,3"] {
        assert_eq!(validate_bounding_box(text), validate_bounding_box(text));
    }
}
