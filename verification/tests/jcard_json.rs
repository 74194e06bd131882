//! jCard read from and written to JSON text.

use jcard::{Error, JCard, JsonValue, ParamValue, Parsed, Property, PropertyValue, StructuredComponent};

fn tree_of(v: &serde_json::Value) -> JsonValue {
    match v {
        serde_json::Value::Null => JsonValue::Null,
        serde_json::Value::Bool(b) => JsonValue::Bool(*b),
        serde_json::Value::Number(n) => JsonValue::Number(n.to_string()),
        serde_json::Value::String(s) => JsonValue::String(s.clone()),
        serde_json::Value::Array(a) => JsonValue::Array(a.iter().map(tree_of).collect()),
        serde_json::Value::Object(m) => {
            JsonValue::Object(m.iter().map(|(k, v)| (k.clone(), tree_of(v))).collect())
        }
    }
}

fn serde_of(v: &JsonValue) -> serde_json::Value {
    match v {
        JsonValue::Null => serde_json::Value::Null,
        JsonValue::Bool(b) => serde_json::Value::Bool(*b),
        JsonValue::Number(t) => match t.parse::<serde_json::Number>() {
            Ok(n) => serde_json::Value::Number(n),
            Err(_) => serde_json::Value::Null,
        },
        JsonValue::String(s) => serde_json::Value::String(s.clone()),
        JsonValue::Array(a) => serde_json::Value::Array(a.iter().map(serde_of).collect()),
        JsonValue::Object(m) => {
            let mut map = serde_json::Map::new();
            for (k, v) in m {
                map.insert(k.clone(), serde_of(v));
            }
            serde_json::Value::Object(map)
        }
    }
}

fn from_json(json: &str) -> Result<Parsed<JCard>, Error> {
    JCard::from_json(json)
}

fn parse_card(json: &str) -> Result<JCard, Error> {
    from_json(json).map(|p| p.value)
}

fn to_json_string(card: &JCard) -> String {
    serde_json::to_string(&serde_of(&card.to_json())).unwrap()
}

fn raw(json: &str) -> serde_json::Value {
    serde_json::from_str(json).unwrap()
}

#[test]
fn builder_produces_valid_jcard() {
    let jcard = JCard::builder()
        .fn_("Jane Doe")
        .n("Doe", "Jane", "", "", "")
        .email("jane.doe@example.com")
        .build();

    assert_eq!(jcard.properties().len(), 4);
    assert_eq!(
        *jcard.get("version").unwrap().value(),
        PropertyValue::Text("4.0".to_string())
    );
    assert_eq!(
        *jcard.get("fn").unwrap().value(),
        PropertyValue::Text("Jane Doe".to_string())
    );
}

#[test]
fn serialize_roundtrip() {
    let jcard = JCard::builder()
        .fn_("Jane Doe")
        .n("Doe", "Jane", "", "", "")
        .email("jane.doe@example.com")
        .build();

    let json = to_json_string(&jcard);
    let parsed = parse_card(&json).unwrap();
    assert_eq!(jcard, parsed);
}

#[test]
fn serialize_format_matches_rfc7095() {
    let jcard = JCard::builder().fn_("Test User").build();

    let json = to_json_string(&jcard);
    let value = raw(&json);

    assert_eq!(value[0], "vcard");
    assert!(value[1].is_array());

    let version = &value[1][0];
    assert_eq!(version[0], "version");
    assert_eq!(version[1], serde_json::Value::Object(serde_json::Map::new()));
    assert_eq!(version[2], "text");
    assert_eq!(version[3], "4.0");

    let fn_prop = &value[1][1];
    assert_eq!(fn_prop[0], "fn");
    assert_eq!(fn_prop[2], "text");
    assert_eq!(fn_prop[3], "Test User");
}

#[test]
fn deserialize_rfc7095_example() {
    let json = r#"["vcard",[
        ["version",{},"text","4.0"],
        ["fn",{},"text","John Doe"],
        ["n",{},"text",["Doe","John","","",""]],
        ["bday",{},"date-and-or-time","--02-03"],
        ["gender",{},"text","M"],
        ["lang",{"pref":"1"},"language-tag","fr"],
        ["tel",{"type":["work","voice"],"pref":"1"},"uri","tel:+15551234567;ext=102"],
        ["email",{"type":"work"},"text","john.doe@example.com"]
    ]]"#;

    let jcard = parse_card(json).unwrap();
    assert_eq!(jcard.properties().len(), 8);
    assert_eq!(
        *jcard.get("fn").unwrap().value(),
        PropertyValue::Text("John Doe".to_string()),
    );
    assert_eq!(
        *jcard.get("n").unwrap().value(),
        PropertyValue::Structured(vec![
            StructuredComponent::Text("Doe".to_string()),
            StructuredComponent::Text("John".to_string()),
            StructuredComponent::Text(String::new()),
            StructuredComponent::Text(String::new()),
            StructuredComponent::Text(String::new()),
        ]),
    );

    let bday = jcard.get("bday").unwrap();
    assert_eq!(bday.value_type, "date-and-or-time");
    assert_eq!(
        *bday.value(),
        PropertyValue::DateAndOrTime("--02-03".to_string()),
    );

    let lang = jcard.get("lang").unwrap();
    assert_eq!(lang.value_type, "language-tag");
    assert_eq!(*lang.value(), PropertyValue::LanguageTag("fr".to_string()));

    let tel = jcard.get("tel").unwrap();
    assert_eq!(
        tel.parameters.get("type"),
        Some(&ParamValue::Multiple(vec![
            "work".to_string(),
            "voice".to_string(),
        ])),
    );
}

#[test]
fn display_and_fromstr() {
    let jcard = JCard::builder().fn_("Test").build();

    let display = to_json_string(&jcard);
    let parsed = parse_card(&display).unwrap();
    assert_eq!(jcard, parsed);
}

#[test]
fn tel_with_type_params() {
    let jcard = JCard::builder()
        .tel_with_type("tel:+15555550100", &["work", "voice"])
        .build();

    let tel = jcard.get("tel").unwrap();
    assert_eq!(
        *tel.value(),
        PropertyValue::Uri("tel:+15555550100".to_string())
    );
    assert!(tel.parameters.contains_key("type"));
}

#[test]
fn empty_jcard_has_version() {
    let jcard = JCard::new();
    assert_eq!(jcard.properties().len(), 1);
    assert_eq!(
        *jcard.get("version").unwrap().value(),
        PropertyValue::Text("4.0".to_string())
    );
}

#[test]
fn get_all_returns_multiple() {
    let jcard = JCard::builder()
        .email("a@example.com")
        .email("b@example.com")
        .build();

    assert_eq!(jcard.get_all("email").len(), 2);
}

#[test]
fn all_value_types_roundtrip() {
    let json = r#"["vcard",[
        ["version",{},"text","4.0"],
        ["fn",{},"text","Test"],
        ["bday",{},"date","1985-04-12"],
        ["x-time-example",{},"time","12:30:00"],
        ["anniversary",{},"date-time","2013-02-14T12:30:00"],
        ["bday",{},"date-and-or-time","--02-03"],
        ["rev",{},"timestamp","2013-02-14T12:30:00Z"],
        ["x-non-smoking",{},"boolean",true],
        ["x-karma-points",{},"integer",42],
        ["x-grade",{},"float",1.3],
        ["tz",{},"utc-offset","-05:00"],
        ["lang",{"pref":"1"},"language-tag","fr"],
        ["x-unknown-prop",{},"unknown","some;raw\\,data"]
    ]]"#;

    let jcard = parse_card(json).unwrap();
    let reserialized = to_json_string(&jcard);
    let reparsed = parse_card(&reserialized).unwrap();
    assert_eq!(jcard, reparsed);

    let bday_props = jcard.get_all("bday");
    assert_eq!(bday_props[0].value_type, "date");
    assert_eq!(bday_props[1].value_type, "date-and-or-time");

    let tz = jcard.get("tz").unwrap();
    assert_eq!(tz.value_type, "utc-offset");
    assert_eq!(*tz.value(), PropertyValue::UtcOffset("-05:00".to_string()));

    let unknown = jcard.get("x-unknown-prop").unwrap();
    assert_eq!(unknown.value_type, "unknown");
    assert_eq!(
        *unknown.value(),
        PropertyValue::Unknown("some;raw\\,data".to_string()),
    );
}

#[test]
fn structured_value_with_nested_arrays() {
    let json = r#"["vcard",[
        ["version",{},"text","4.0"],
        ["adr",{},"text",
            ["","",["123 Main St","Suite 100"],"Any Town","CA","91921","U.S.A."]
        ]
    ]]"#;

    let jcard = parse_card(json).unwrap();
    let adr = jcard.get("adr").unwrap();
    assert_eq!(
        *adr.value(),
        PropertyValue::Structured(vec![
            StructuredComponent::Text(String::new()),
            StructuredComponent::Text(String::new()),
            StructuredComponent::Multi(vec![
                "123 Main St".to_string(),
                "Suite 100".to_string(),
            ]),
            StructuredComponent::Text("Any Town".to_string()),
            StructuredComponent::Text("CA".to_string()),
            StructuredComponent::Text("91921".to_string()),
            StructuredComponent::Text("U.S.A.".to_string()),
        ]),
    );

    let json_out = to_json_string(&jcard);
    let reparsed = parse_card(&json_out).unwrap();
    assert_eq!(jcard, reparsed);
}

#[test]
fn group_parameter() {
    let json = r#"["vcard",[
        ["version",{},"text","4.0"],
        ["fn",{"group":"contact"},"text","Mr. John Q. Public, Esq."]
    ]]"#;

    let jcard = parse_card(json).unwrap();
    let fn_prop = jcard.get("fn").unwrap();
    assert_eq!(
        fn_prop.parameters.get("group"),
        Some(&ParamValue::Single("contact".to_string())),
    );

    let json_out = to_json_string(&jcard);
    let reparsed = parse_card(&json_out).unwrap();
    assert_eq!(jcard, reparsed);
}

#[test]
fn extension_type_preserved() {
    let json = r#"["vcard",[
        ["version",{},"text","4.0"],
        ["x-custom",{},"x-mytype","custom-value"]
    ]]"#;

    let jcard = parse_card(json).unwrap();
    let custom = jcard.get("x-custom").unwrap();
    assert_eq!(custom.value_type, "x-mytype");

    let json_out = to_json_string(&jcard);
    let reparsed = raw(&json_out);
    assert_eq!(reparsed[1][1][2], "x-mytype");
}

#[test]
fn multi_valued_property_roundtrip() {
    let json = r#"["vcard",[
        ["version",{},"text","4.0"],
        ["categories",{},"text","computers","cameras"]
    ]]"#;

    let jcard = parse_card(json).unwrap();
    let cat = jcard.get("categories").unwrap();
    assert_eq!(
        cat.values(),
        &[
            PropertyValue::Text("computers".to_string()),
            PropertyValue::Text("cameras".to_string()),
        ]
    );
    assert_eq!(*cat.value(), PropertyValue::Text("computers".to_string()));

    let json_out = to_json_string(&jcard);
    let reparsed = parse_card(&json_out).unwrap();
    assert_eq!(jcard, reparsed);

    let raw_out = raw(&json_out);
    assert_eq!(raw_out[1][1][3], "computers");
    assert_eq!(raw_out[1][1][4], "cameras");
}

#[test]
fn multi_valued_via_builder() {
    let jcard = JCard::builder()
        .property(
            Property::multi(
                "categories",
                vec![
                    PropertyValue::Text("computers".to_string()),
                    PropertyValue::Text("cameras".to_string()),
                ],
            )
            .unwrap(),
        )
        .build();

    let cat = jcard.get("categories").unwrap();
    assert_eq!(cat.values().len(), 2);

    let json = to_json_string(&jcard);
    let parsed = parse_card(&json).unwrap();
    assert_eq!(jcard, parsed);
}

#[test]
fn from_json_clean_input_no_warnings() {
    let parsed =
        from_json(r#"["vcard",[["version",{},"text","4.0"],["fn",{},"text","Test"]]]"#).unwrap();
    assert!(!parsed.has_warnings());
    assert_eq!(parsed.value.properties().len(), 2);
}

#[test]
fn from_json_short_tuple_warns_and_drops() {
    let json = r#"["vcard",[
        ["version",{},"text","4.0"],
        ["fn",{},"text"],
        ["email",{},"text","ok@example.com"]
    ]]"#;

    let parsed = from_json(json).unwrap();
    assert_eq!(parsed.warnings.len(), 1);
    assert!(parsed.warnings[0].message.contains("3 elements"));
    assert_eq!(parsed.value.properties().len(), 2);
}

#[test]
fn from_json_value_type_mismatch_warns_and_preserves() {
    let json = r#"["vcard",[
        ["version",{},"text","4.0"],
        ["fn",{},"text",42]
    ]]"#;

    let parsed = from_json(json).unwrap();
    assert_eq!(parsed.warnings.len(), 1);
    assert!(parsed.warnings[0].message.contains("expected text"));
    assert_eq!(parsed.value.properties().len(), 2);
    assert_eq!(
        *parsed.value.get("fn").unwrap().value(),
        PropertyValue::Text("42".to_string()),
    );
}

#[test]
fn from_json_bad_params_warns_and_preserves() {
    let json = r#"["vcard",[
        ["version",{},"text","4.0"],
        ["fn","not-an-object","text","Test"]
    ]]"#;

    let parsed = from_json(json).unwrap();
    assert_eq!(parsed.warnings.len(), 1);
    assert!(parsed.warnings[0]
        .message
        .contains("parameters is not an object"));
    let fn_prop = parsed.value.get("fn").unwrap();
    assert!(fn_prop.parameters.is_empty());
    assert_eq!(*fn_prop.value(), PropertyValue::Text("Test".to_string()));
}

#[test]
fn from_json_wrong_tag_is_error() {
    let result = from_json(r#"["vcalendar",[]]"#);
    assert!(result.is_err());
    let err = result.unwrap_err();
    assert!(matches!(err, Error::InvalidStructure(_)));
    assert!(err.display_string().contains("vcalendar"));
}

#[test]
fn from_json_invalid_json_is_error() {
    let result = from_json("{not json}");
    assert!(result.is_err());
    assert!(matches!(result.unwrap_err(), Error::InvalidJson(_)));
}

#[test]
fn from_json_missing_version_warns() {
    let json = r#"["vcard",[["fn",{},"text","Test"]]]"#;
    let parsed = from_json(json).unwrap();
    assert!(parsed.warnings.iter().any(|w| w.message.contains("version")));
}

#[test]
fn property_name_lowercased() {
    let prop = Property::new("FN", PropertyValue::Text("Test".to_string()));
    assert_eq!(prop.name, "fn");

    let prop =
        Property::multi("CATEGORIES", vec![PropertyValue::Text("a".to_string())]).unwrap();
    assert_eq!(prop.name, "categories");
}

#[test]
fn from_value_matches_from_json() {
    let json = r#"["vcard",[["version",{},"text","4.0"],["fn",{},"text","Test"]]]"#;
    let from_text = from_json(json).unwrap();

    let value = raw(json);
    let from_value = JCard::from_value(&tree_of(&value)).unwrap();

    assert_eq!(from_text.value, from_value.value);
    assert_eq!(from_text.warnings.len(), from_value.warnings.len());
}

#[test]
fn deserialize_returns_err_on_structural_error() {
    let result = parse_card(r#"["vcalendar",[]]"#);
    assert!(result.is_err());

    let result = parse_card(r#""just a string""#);
    assert!(result.is_err());
}

#[test]
fn tel_with_empty_types_omits_param() {
    let jcard = JCard::builder().tel_with_type("tel:+15555550100", &[]).build();

    let tel = jcard.get("tel").unwrap();
    assert!(tel.parameters.is_empty());
}

#[test]
fn multi_returns_none_on_empty() {
    assert!(Property::multi("categories", vec![]).is_none());
}

#[test]
fn from_json_rfc_appendix_b_no_warnings() {
    let json = r#"["vcard",[
        ["version",{},"text","4.0"],
        ["fn",{},"text","John Doe"],
        ["n",{},"text",["Doe","John","","",""]],
        ["bday",{},"date-and-or-time","--02-03"],
        ["gender",{},"text","M"],
        ["lang",{"pref":"1"},"language-tag","fr"],
        ["tel",{"type":["work","voice"],"pref":"1"},"uri","tel:+15551234567;ext=102"],
        ["email",{"type":"work"},"text","john.doe@example.com"]
    ]]"#;

    let parsed = from_json(json).unwrap();
    assert!(
        !parsed.has_warnings(),
        "unexpected warnings: {:?}",
        parsed.warnings
    );
}
