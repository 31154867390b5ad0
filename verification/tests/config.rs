use jackfield::config::{parse_dimensions, DimSpec, DimensionsError};
use jackfield::dims::{LabelMatcher, Matcher};
use jackfield::json::{parse_json, Json};

fn strs(v: &[&str]) -> Vec<String> {
    v.iter().map(|s| s.to_string()).collect()
}

#[test]
fn empty_configuration_has_no_dims() {
    assert!(parse_dimensions("").unwrap().is_empty());
    assert!(parse_dimensions("{}").unwrap().is_empty());
    assert!(parse_dimensions("[1, 2]").unwrap().is_empty());
}

#[test]
fn invalid_json_is_refused() {
    let err = parse_dimensions("{labels").err().unwrap();
    match &err {
        DimensionsError::InvalidJson(text) => assert!(!text.is_empty()),
        other => panic!("unexpected error {:?}", other),
    }
    assert!(err.message().starts_with("dimensions_json: "));
    assert_eq!(
        DimensionsError::InvalidJson("bad".to_string()).message(),
        "dimensions_json: bad"
    );
}

#[test]
fn labels_any_of_parsed() {
    let d = parse_dimensions(r#"{"labels": {"any_of": ["telemetry"]}}"#).unwrap();
    assert_eq!(d.len(), 1);
    match &d[0] {
        DimSpec::Labels(l) => match &l.0 {
            LabelMatcher::AnyOf(v) => assert_eq!(v, &strs(&["telemetry"])),
            _ => panic!("wrong matcher"),
        },
        _ => panic!("wrong dimension"),
    }
}

#[test]
fn all_sections_in_order() {
    let d = parse_dimensions(
        r#"{"size": {"between": [2, 8]}, "producer": {"only": "sensor"}, "labels": {"all_of": ["a", 3, "b"]}}"#,
    )
    .unwrap();
    assert_eq!(d.len(), 3);
    match &d[0] {
        DimSpec::Labels(l) => match &l.0 {
            LabelMatcher::AllOf(v) => assert_eq!(v, &strs(&["a", "b"])),
            _ => panic!("wrong matcher"),
        },
        _ => panic!("labels first"),
    }
    match &d[1] {
        DimSpec::Producer(p) => match &p.0 {
            Matcher::AnyOf(v) => assert_eq!(v, &strs(&["sensor"])),
            _ => panic!("wrong matcher"),
        },
        _ => panic!("producer second"),
    }
    match &d[2] {
        DimSpec::Size(s) => assert_eq!((s.min, s.max), (Some(2), Some(8))),
        _ => panic!("size third"),
    }
}

#[test]
fn producer_only_not_a_string_falls_through() {
    let d = parse_dimensions(r#"{"producer": {"only": 5, "none_of": ["x"]}}"#).unwrap();
    match &d[0] {
        DimSpec::Producer(p) => match &p.0 {
            Matcher::NoneOf(v) => assert_eq!(v, &strs(&["x"])),
            _ => panic!("wrong matcher"),
        },
        _ => panic!("wrong dimension"),
    }
}

#[test]
fn malformed_sections_are_refused() {
    assert_eq!(parse_dimensions(r#"{"labels": {"some_of": []}}"#).err(), Some(DimensionsError::InvalidLabels));
    assert_eq!(parse_dimensions(r#"{"producer": 3}"#).err(), Some(DimensionsError::InvalidProducer));
    assert_eq!(parse_dimensions(r#"{"size": {"between": [1, "x"]}}"#).err(), Some(DimensionsError::InvalidSize));
    assert_eq!(parse_dimensions(r#"{"size": {"between": [1, 2, 3]}}"#).err(), Some(DimensionsError::InvalidSize));
    assert_eq!(parse_dimensions(r#"{"size": {"at_most": -1}}"#).err(), Some(DimensionsError::InvalidSize));
    // the first malformed section decides
    assert_eq!(
        parse_dimensions(r#"{"labels": 1, "producer": 2}"#).err(),
        Some(DimensionsError::InvalidLabels)
    );
    assert_eq!(DimensionsError::InvalidSize.message(), "invalid size dimension");
}

#[test]
fn size_at_most_and_at_least() {
    match &parse_dimensions(r#"{"size": {"at_most": 10}}"#).unwrap()[0] {
        DimSpec::Size(s) => assert_eq!((s.min, s.max), (None, Some(10))),
        _ => panic!(),
    }
    match &parse_dimensions(r#"{"size": {"at_least": 3, "at_most": "no"}}"#).unwrap()[0] {
        DimSpec::Size(s) => assert_eq!((s.min, s.max), (Some(3), None)),
        _ => panic!(),
    }
}

#[test]
fn json_model_of_a_document() {
    let v = parse_json(r#"{"a": [1, "x", null, true], "b": -2}"#).unwrap();
    match v.get("a") {
        Some(Json::Array(items)) => {
            assert_eq!(items.len(), 4);
            assert_eq!(items[0].as_u64(), Some(1));
            assert_eq!(items[1].as_str().map(|s| s.as_str()), Some("x"));
        },
        _ => panic!("a is an array"),
    }
    assert_eq!(v.get("b").unwrap().as_u64(), None);
    assert!(v.get("c").is_none());
    assert_eq!(v.get("a").unwrap().str_vec(), strs(&["x"]));
    assert!(parse_json("nope").is_err());
}

#[test]
fn requirements_are_all_hard() {
    let rs = jackfield::config::parse_requirements(r#"{"labels": {"any_of": ["a"]}, "size": {"at_most": 4}}"#).unwrap();
    assert_eq!(rs.len(), 2);
    assert!(rs.iter().all(|(_, required)| *required));
    assert!(matches!(rs[0].0, DimSpec::Labels(_)));
    assert!(matches!(rs[1].0, DimSpec::Size(_)));
    assert!(jackfield::config::parse_requirements("").unwrap().is_empty());
    assert_eq!(
        jackfield::config::parse_requirements(r#"{"producer": 3}"#).err(),
        Some(DimensionsError::InvalidProducer)
    );
}
