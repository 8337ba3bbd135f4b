use influxdb2_client::{
    DataPoint, DataPointError, EscapedFieldValueString, EscapedMeasurement, EscapedTagKey,
    FieldValue,
};

#[test]
fn plain_text_is_not_changed_by_escaping() {
    let raw = "cpu_load-1.5/host:a";
    assert_eq!(EscapedMeasurement::from(raw).to_string(), raw);
    assert_eq!(EscapedTagKey::from(raw).to_string(), raw);
    assert_eq!(EscapedFieldValueString::from(raw).to_string(), raw);
}

#[test]
fn backslash_is_not_escaped() {
    let raw = r"a\b";
    assert_eq!(EscapedTagKey::from(raw).to_string(), r"a\b");
    assert_eq!(EscapedFieldValueString::from(raw).to_string(), r"a\b");
}

#[test]
fn empty_string_escapes_to_empty() {
    assert_eq!(EscapedMeasurement::from("").to_string(), "");
    assert_eq!(EscapedTagKey::from(String::new()).to_string(), "");
}

#[test]
fn only_delimiters_are_all_escaped() {
    assert_eq!(EscapedTagKey::from(", =").to_string(), r"\,\ \=");
    assert_eq!(EscapedMeasurement::from(", ").to_string(), r"\,\ ");
    assert_eq!(EscapedFieldValueString::from("\"\"").to_string(), r#"\"\""#);
}

#[test]
fn non_ascii_text_passes_through() {
    assert_eq!(EscapedTagKey::from("température=é").to_string(), r"température\=é");
}

#[test]
fn tags_and_fields_come_out_in_key_order() -> Result<(), DataPointError> {
    let first = DataPoint::builder("m".into())
        .tag("b".into(), "2".into())
        .tag("a".into(), "1".into())
        .tag("c".into(), "3".into())
        .field("z".into(), 1_i64.into())
        .field("y".into(), true.into())
        .build()?;
    let second = DataPoint::builder("m".into())
        .field("y".into(), true.into())
        .tag("c".into(), "3".into())
        .field("z".into(), 1_i64.into())
        .tag("a".into(), "1".into())
        .tag("b".into(), "2".into())
        .build()?;
    assert_eq!(first.line_protocol(), "m,a=1,b=2,c=3 y=t,z=1i");
    assert_eq!(second.line_protocol(), first.line_protocol());
    Ok(())
}

#[test]
fn key_order_is_by_code_point() -> Result<(), DataPointError> {
    let point = DataPoint::builder("m".into())
        .tag("ab".into(), "x".into())
        .tag("a".into(), "y".into())
        .tag("B".into(), "z".into())
        .field("f".into(), 0_i64.into())
        .build()?;
    assert_eq!(point.line_protocol(), "m,B=z,a=y,ab=x f=0i");
    Ok(())
}

#[test]
fn setting_a_key_again_replaces_it() -> Result<(), DataPointError> {
    let point = DataPoint::builder("m".into())
        .tag("host".into(), "old".into())
        .tag("host".into(), "new".into())
        .field("v".into(), 1_i64.into())
        .field("v".into(), "text".into())
        .timestamp(5)
        .timestamp(6)
        .build()?;
    assert_eq!(point.line_protocol(), r#"m,host=new v="text" 6"#);
    Ok(())
}

#[test]
fn every_position_is_escaped_in_a_line() -> Result<(), DataPointError> {
    let point = DataPoint::builder("my cpu,1".into())
        .tag("host name".into(), "a=b".into())
        .field("the,value".into(), FieldValue::from(r#"say "hi", ok"#))
        .build()?;
    assert_eq!(
        point.line_protocol(),
        r#"my\ cpu\,1,host\ name=a\=b the\,value="say \"hi\", ok""#
    );
    Ok(())
}

#[test]
fn negative_and_extreme_integers() -> Result<(), DataPointError> {
    assert_eq!(FieldValue::from(0_i64).to_string(), "0i");
    assert_eq!(FieldValue::from(-7_i64).to_string(), "-7i");
    assert_eq!(FieldValue::from(i64::MIN).to_string(), "-9223372036854775808i");
    assert_eq!(FieldValue::from(i64::MAX).to_string(), "9223372036854775807i");
    let point = DataPoint::builder("m".into())
        .field("f".into(), false.into())
        .timestamp(-1_000)
        .build()?;
    assert_eq!(point.line_protocol(), "m f=f -1000");
    Ok(())
}

#[test]
fn float_text_is_written_as_given() {
    assert_eq!(FieldValue::F64(0.5_f64.to_string()).to_string(), "0.5");
    assert_eq!(FieldValue::F64((-2.25_f64).to_string()).to_string(), "-2.25");
}

#[test]
fn failed_build_returns_the_builder() {
    let result = DataPoint::builder("m0".into())
        .tag("t".into(), "v".into())
        .timestamp(3)
        .build();
    match result {
        Err(DataPointError::AtLeastOneFieldRequired { data_point_builder }) => {
            let point = data_point_builder
                .field("f".into(), 1_i64.into())
                .build()
                .unwrap();
            assert_eq!(point.line_protocol(), "m0,t=v f=1i 3");
        },
        Ok(_) => panic!("a builder without fields must not build"),
    }
}

#[test]
fn one_field_is_enough_to_build() {
    assert!(DataPoint::builder("m".into())
        .field("f".into(), true.into())
        .build()
        .is_ok());
}

#[test]
fn escaped_strings_compare_by_raw_text() {
    let a = EscapedTagKey::from("a,b");
    let b = EscapedTagKey::from(String::from("a,b"));
    let c = EscapedTagKey::from("a,c");
    assert!(a == b);
    assert!(a != c);
    assert!(a < c);
    assert!(c > b);
    assert_eq!(a.clone().to_string(), r"a\,b");
}
