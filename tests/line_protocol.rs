use influxdb2_client::{
    DataPoint, DataPointError, EscapedFieldKey, EscapedFieldValueString, EscapedMeasurement,
    EscapedTagKey, EscapedTagValue, FieldValue,
};

const ALL_THE_DELIMITERS: &str = r#"alpha,beta=delta gamma"epsilon"#;

#[test]
fn point_builder_allows_setting_tags_and_fields() -> Result<(), DataPointError> {
    let point = DataPoint::builder("swap".into())
        .tag("host".into(), "server01".into())
        .tag("name".into(), "disk0".into())
        .field("in".into(), 3_i64.into())
        .field("out".into(), 4_i64.into())
        .timestamp(1)
        .build()?;

    assert_eq!(
        point.line_protocol().to_string(),
        "swap,host=server01,name=disk0 in=3i,out=4i 1",
    );

    Ok(())
}

#[test]
fn no_tags_or_timestamp() -> Result<(), DataPointError> {
    let point = DataPoint::builder("m0".into())
        .field("f0".into(), FieldValue::F64(1.0_f64.to_string()))
        .field("f1".into(), 2_i64.into())
        .build()?;

    assert_eq!(point.line_protocol().to_string(), "m0 f0=1,f1=2i");

    Ok(())
}

#[test]
fn no_timestamp() -> Result<(), DataPointError> {
    let point = DataPoint::builder("m0".into())
        .tag("t0".into(), "v0".into())
        .tag("t1".into(), "v1".into())
        .field("f1".into(), 2_i64.into())
        .build()?;

    assert_eq!(point.line_protocol().to_string(), "m0,t0=v0,t1=v1 f1=2i");

    Ok(())
}

#[test]
fn no_field() {
    let point_result = DataPoint::builder("m0".into()).build();

    assert!(point_result.is_err());
}

#[test]
fn special_characters_are_escaped_in_measurements() {
    let e = EscapedMeasurement::from(ALL_THE_DELIMITERS);
    assert_eq!(e.to_string(), r#"alpha\,beta=delta\ gamma"epsilon"#);
}

#[test]
fn special_characters_are_escaped_in_tag_keys() {
    let e = EscapedTagKey::from(ALL_THE_DELIMITERS);
    assert_eq!(e.to_string(), r#"alpha\,beta\=delta\ gamma"epsilon"#);
}

#[test]
fn special_characters_are_escaped_in_tag_values() {
    let e = EscapedTagValue::from(ALL_THE_DELIMITERS);
    assert_eq!(e.to_string(), r#"alpha\,beta\=delta\ gamma"epsilon"#);
}

#[test]
fn special_characters_are_escaped_in_field_keys() {
    let e = EscapedFieldKey::from(ALL_THE_DELIMITERS);
    assert_eq!(e.to_string(), r#"alpha\,beta\=delta\ gamma"epsilon"#);
}

#[test]
fn special_characters_are_escaped_in_field_values_of_strings() {
    let e = EscapedFieldValueString::from(ALL_THE_DELIMITERS);
    assert_eq!(e.to_string(), r#"alpha,beta=delta gamma\"epsilon"#);
}

#[test]
fn field_value_of_bool() {
    let e = FieldValue::from(true);
    assert_eq!(e.to_string(), "t");

    let e = FieldValue::from(false);
    assert_eq!(e.to_string(), "f");
}

#[test]
fn field_value_of_float() {
    let e = FieldValue::F64(42_f64.to_string());
    assert_eq!(e.to_string(), "42");
}

#[test]
fn field_value_of_integer() {
    let e = FieldValue::from(42_i64);
    assert_eq!(e.to_string(), "42i");
}

#[test]
fn field_value_of_string() {
    let e = FieldValue::from("hello");
    assert_eq!(e.to_string(), r#""hello""#);
}
