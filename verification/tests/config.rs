use omnifs_sdk::config::{JsonShape, NoConfig};

#[test]
fn no_config_accepts_empty_mount_config() {
    assert_eq!(NoConfig::from_json("{}").unwrap(), NoConfig);
}

#[test]
fn no_config_accepts_null_for_json_absence() {
    assert_eq!(NoConfig::from_json("null").unwrap(), NoConfig);
}

#[test]
fn no_config_rejects_provider_specific_keys() {
    let err = NoConfig::from_json(r#"{"endpoint":"x"}"#).unwrap_err();
    assert!(
        err.to_string().contains("empty provider config object"),
        "{err}"
    );
}

#[test]
fn malformed_json_is_an_error() {
    assert!(NoConfig::from_json("{").is_err());
    assert!(NoConfig::from_json("").is_err());
    assert!(NoConfig::from_json("[]").is_err());
    assert!(NoConfig::from_json("0").is_err());
    assert!(NoConfig::from_json(" { } ").is_ok());
}

#[test]
fn a_filled_config_is_reported_before_what_follows_it() {
    let message = |text: &str| NoConfig::from_json(text).unwrap_err();
    let filled = "expected empty provider config object";
    assert_eq!(message(r#"{"endpoint":"x"} trailing"#), filled);
    assert_eq!(message("[1] 2"), filled);
    assert_eq!(message("{} x"), "trailing characters at line 1 column 4");
    assert_eq!(message("null null"), "trailing characters at line 1 column 6");
    assert_eq!(
        message(""),
        "EOF while parsing a value at line 1 column 0"
    );
}

#[test]
fn readings_decide_in_order() {
    let whole = || Err("behind".to_string());
    assert_eq!(
        NoConfig::from_reading(Err("front".to_string()), whole()),
        Err("front".to_string())
    );
    assert_eq!(
        NoConfig::from_reading(Ok(JsonShape::Other), whole()),
        Err("expected empty provider config object".to_string())
    );
    assert_eq!(
        NoConfig::from_reading(Ok(JsonShape::Null), whole()),
        Err("behind".to_string())
    );
    assert_eq!(
        NoConfig::from_reading(Ok(JsonShape::Object(0)), Ok(())),
        Ok(NoConfig)
    );
}

#[test]
fn only_empty_shapes_are_accepted() {
    assert!(NoConfig::from_shape(JsonShape::Null).is_ok());
    assert!(NoConfig::from_shape(JsonShape::Object(0)).is_ok());
    assert_eq!(
        NoConfig::from_shape(JsonShape::Object(1)),
        Err("expected empty provider config object".to_string())
    );
    assert_eq!(
        NoConfig::from_shape(JsonShape::Other),
        Err("expected empty provider config object".to_string())
    );
}
