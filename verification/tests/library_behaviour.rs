//! Behaviour of the library's parts on concrete values: the laws on
//! examples, the edge cases, each error, and the text forms.

use jcard::error::Error;
use jcard::json::JsonValue;
use jcard::parameters::Parameters;
use jcard::property::{EmptyParamValue, ParamValue, Property, PropertyValue, StructuredComponent};
use jcard::text::{i64_text, is_float_text_exec, parse_i64, to_ascii_lowercase, trim_text};
use jcard::xcard::parse;
use jcard::xcard::tokens::resolve_reference_exec;
use jcard::{JCard, ParseWarning, Parsed, WarningKind};

fn s(t: &str) -> JsonValue {
    JsonValue::String(t.to_string())
}

fn obj(members: Vec<(&str, JsonValue)>) -> JsonValue {
    JsonValue::Object(members.into_iter().map(|(k, v)| (k.to_string(), v)).collect())
}

fn tuple(name: &str, params: JsonValue, ty: &str, value: JsonValue) -> JsonValue {
    JsonValue::Array(vec![s(name), params, s(ty), value])
}

fn card_tree(props: Vec<JsonValue>) -> JsonValue {
    JsonValue::Array(vec![s("vcard"), JsonValue::Array(props)])
}

// ----- ParamValue, components and value text ---------------------------------

#[test]
fn param_value_from_no_strings_is_an_error() {
    assert_eq!(ParamValue::try_from_values(vec![]), Err(EmptyParamValue));
}

#[test]
fn param_value_from_one_string_is_single() {
    assert_eq!(
        ParamValue::try_from_values(vec!["work".to_string()]),
        Ok(ParamValue::Single("work".to_string()))
    );
}

#[test]
fn param_value_from_several_strings_is_multiple() {
    assert_eq!(
        ParamValue::try_from_values(vec!["work".to_string(), "voice".to_string()]),
        Ok(ParamValue::Multiple(vec!["work".to_string(), "voice".to_string()]))
    );
}

#[test]
fn param_value_text_joins_with_commas() {
    let v = ParamValue::Multiple(vec!["work".into(), "voice".into()]);
    assert_eq!(v.display_string(), "work,voice");
    assert_eq!(ParamValue::Single("home".into()).display_string(), "home");
}

#[test]
fn structured_value_text_joins_components() {
    let v = PropertyValue::Structured(vec![
        StructuredComponent::Text("Doe".into()),
        StructuredComponent::Text("Jane".into()),
        StructuredComponent::Multi(vec!["ing. jr".into(), "M.Sc.".into()]),
        StructuredComponent::Text(String::new()),
    ]);
    assert_eq!(v.display_string(), "Doe;Jane;ing. jr,M.Sc.;");
}

#[test]
fn scalar_value_text() {
    assert_eq!(PropertyValue::Integer(-42).display_string(), "-42");
    assert_eq!(PropertyValue::Boolean(false).display_string(), "false");
    assert_eq!(PropertyValue::Float("1.5e3".into()).display_string(), "1.5e3");
    assert_eq!(PropertyValue::Uri("tel:+1".into()).display_string(), "tel:+1");
}

#[test]
fn default_type_of_each_kind() {
    assert_eq!(PropertyValue::Structured(vec![]).default_type(), "text");
    assert_eq!(PropertyValue::DateAndOrTime("--0203".into()).default_type(), "date-and-or-time");
    assert_eq!(PropertyValue::Integer(1).default_type(), "integer");
    assert_eq!(PropertyValue::Float("1".into()).default_type(), "float");
}

// ----- Values from JSON and from text ----------------------------------------

#[test]
fn extension_type_reads_numbers_as_integer_or_float() {
    assert_eq!(
        PropertyValue::from_json("x-mytype", &JsonValue::Number("3".into())),
        Some(PropertyValue::Integer(3))
    );
    assert_eq!(
        PropertyValue::from_json("x-mytype", &JsonValue::Number("3.5".into())),
        Some(PropertyValue::Float("3.5".into()))
    );
    assert_eq!(PropertyValue::from_json("x-mytype", &JsonValue::Null), None);
}

#[test]
fn typed_value_of_the_wrong_shape_is_none() {
    assert_eq!(PropertyValue::from_json("text", &JsonValue::Bool(true)), None);
    assert_eq!(PropertyValue::from_json("integer", &JsonValue::Number("1.5".into())), None);
    assert_eq!(PropertyValue::from_json("boolean", &s("true")), None);
}

#[test]
fn text_array_is_a_structured_value() {
    let arr = JsonValue::Array(vec![
        s("Doe"),
        JsonValue::Array(vec![s("ing. jr"), s("M.Sc.")]),
        JsonValue::Number("7".into()),
    ]);
    assert_eq!(
        PropertyValue::from_json("text", &arr),
        Some(PropertyValue::Structured(vec![
            StructuredComponent::Text("Doe".into()),
            StructuredComponent::Multi(vec!["ing. jr".into(), "M.Sc.".into()]),
            StructuredComponent::Text("7".into()),
        ]))
    );
}

#[test]
fn typed_text_reads_booleans_in_any_case() {
    assert_eq!(
        PropertyValue::from_typed_text("boolean", "TRUE"),
        Some(PropertyValue::Boolean(true))
    );
    assert_eq!(
        PropertyValue::from_typed_text("boolean", "False"),
        Some(PropertyValue::Boolean(false))
    );
    assert_eq!(PropertyValue::from_typed_text("boolean", "yes"), None);
}

#[test]
fn typed_text_reads_numbers() {
    assert_eq!(
        PropertyValue::from_typed_text("integer", "-17"),
        Some(PropertyValue::Integer(-17))
    );
    assert_eq!(PropertyValue::from_typed_text("integer", "lots"), None);
    assert_eq!(
        PropertyValue::from_typed_text("float", "1e5"),
        Some(PropertyValue::Float("1e5".into()))
    );
    assert_eq!(PropertyValue::from_typed_text("float", "1.2.3"), None);
    assert_eq!(
        PropertyValue::from_typed_text("x-thing", "abc"),
        Some(PropertyValue::Text("abc".into()))
    );
}

// ----- Decimal text, trimming, case ------------------------------------------

#[test]
fn i64_text_and_parse_agree_at_the_extremes() {
    assert_eq!(i64_text(i64::MIN), "-9223372036854775808");
    assert_eq!(i64_text(i64::MAX), "9223372036854775807");
    assert_eq!(i64_text(0), "0");
    assert_eq!(parse_i64("-9223372036854775808"), Some(i64::MIN));
    assert_eq!(parse_i64(&i64_text(-1234567)), Some(-1234567));
}

#[test]
fn parse_i64_rejects_what_i64_from_str_rejects() {
    assert_eq!(parse_i64("9223372036854775808"), None);
    assert_eq!(parse_i64(""), None);
    assert_eq!(parse_i64("-"), None);
    assert_eq!(parse_i64("12a"), None);
    assert_eq!(parse_i64("+5"), Some(5));
    assert_eq!(parse_i64("007"), Some(7));
}

#[test]
fn float_syntax_follows_f64_from_str() {
    for t in ["1.5", "-0.5e-3", ".5", "5.", "+inf", "NaN", "Infinity", "1E10"] {
        assert!(is_float_text_exec(t), "{t}");
        assert!(t.parse::<f64>().is_ok(), "{t}");
    }
    for t in ["", ".", "e5", "1e", "1.2.3", "abc", "--1"] {
        assert!(!is_float_text_exec(t), "{t}");
        assert!(t.parse::<f64>().is_err(), "{t}");
    }
}

#[test]
fn trim_removes_white_space_at_both_ends() {
    assert_eq!(trim_text("  Jane Doe \n\t"), "Jane Doe");
    assert_eq!(trim_text("   "), "");
    assert_eq!(trim_text("x"), "x");
}

#[test]
fn lowercasing_touches_ascii_letters_only() {
    assert_eq!(to_ascii_lowercase("CATEGORIES-Ä"), "categories-Ä");
}

// ----- JSON text ---------------------------------------------------------------

#[test]
fn json_kind_names_and_accessors() {
    assert_eq!(JsonValue::Null.kind_name(), "null");
    assert_eq!(obj(vec![]).kind_name(), "object");
    assert_eq!(s("x").as_str(), Some("x"));
    assert_eq!(JsonValue::Bool(true).as_str(), None);
    assert_eq!(JsonValue::Number("12".into()).as_i64(), Some(12));
    assert_eq!(JsonValue::Number("1.5".into()).as_i64(), None);
}

// ----- Parameters ----------------------------------------------------------------

#[test]
fn parameters_keep_keys_sorted_and_unique() {
    let mut p = Parameters::new();
    assert!(p.is_empty());
    assert_eq!(p.insert("type".into(), ParamValue::Single("work".into())), None);
    assert_eq!(p.insert("pref".into(), ParamValue::Single("1".into())), None);
    assert_eq!(p.insert("group".into(), ParamValue::Single("a".into())), None);
    assert_eq!(
        p.insert("pref".into(), ParamValue::Single("2".into())),
        Some(ParamValue::Single("1".into()))
    );
    assert_eq!(p.len(), 3);
    let keys: Vec<&str> = p.entries().iter().map(|(k, _)| k.as_str()).collect();
    assert_eq!(keys, ["group", "pref", "type"]);
    assert_eq!(p.get("pref"), Some(&ParamValue::Single("2".into())));
    assert!(p.contains_key("type"));
    assert!(!p.contains_key("label"));
}

// ----- Properties and cards --------------------------------------------------------

#[test]
fn property_names_are_lowercased() {
    let p = Property::new("EMAIL", PropertyValue::Text("a@example.com".into()));
    assert_eq!(p.name, "email");
    assert_eq!(p.value_type, "text");
    assert!(p.has_name("email"));
    let multi = Property::multi("CATEGORIES", vec![PropertyValue::Text("a".into())]).unwrap();
    assert_eq!(multi.name, "categories");
    assert_eq!(multi.values().len(), 1);
}

#[test]
fn new_card_holds_only_the_version() {
    let card = JCard::new();
    assert_eq!(card.properties().len(), 1);
    assert_eq!(card.properties()[0].name, "version");
    assert_eq!(*card.properties()[0].value(), PropertyValue::Text("4.0".into()));
    assert_eq!(JCard::default().properties().len(), 1);
}

#[test]
fn push_appends_and_get_finds_the_first() {
    let mut card = JCard::new();
    card.push(Property::new("note", PropertyValue::Text("one".into())));
    card.push(Property::new("note", PropertyValue::Text("two".into())));
    assert_eq!(*card.get("note").unwrap().value(), PropertyValue::Text("one".into()));
    assert_eq!(card.get_all("note").len(), 2);
    assert_eq!(card.get("note"), Some(card.get_all("note")[0]));
    assert!(card.get("tel").is_none());
    card.properties_mut().pop();
    assert_eq!(card.get_all("note").len(), 1);
}

#[test]
fn builder_email_with_type_and_org() {
    let card = JCard::builder()
        .email_with_type("a@example.com", "work")
        .org("EXAMPLE CO")
        .title("Engineer")
        .url("https://example.com")
        .note("hello")
        .rev("20240101T000000Z")
        .bday("--0203")
        .build();
    let email = card.get("email").unwrap();
    assert_eq!(email.parameters.get("type"), Some(&ParamValue::Single("work".into())));
    assert_eq!(card.get("url").unwrap().value_type, "uri");
    assert_eq!(card.get("rev").unwrap().value_type, "timestamp");
    assert_eq!(card.get("bday").unwrap().value_type, "date-and-or-time");
    assert_eq!(card.properties().len(), 8);
}

// ----- Reading a jCard tree ------------------------------------------------------------

#[test]
fn write_then_read_gives_the_card_back() {
    let card = JCard::builder()
        .fn_("Jane Doe")
        .n("Doe", "Jane", "", "", "")
        .tel_with_type("tel:+15555550100", &["work", "voice"])
        .property(Property::new("x-count", PropertyValue::Integer(-3)))
        .property(Property::new("x-ratio", PropertyValue::Float("0.25".into())))
        .property(Property::new("x-flag", PropertyValue::Boolean(true)))
        .build();
    let back = JCard::from_value(&card.to_json()).unwrap();
    assert!(!back.has_warnings());
    assert_eq!(back.value, card);
}

#[test]
fn a_tree_that_is_not_a_jcard_is_an_error() {
    let r = JCard::from_value(&s("just a string"));
    assert!(matches!(r, Err(Error::InvalidStructure(_))));
    let r = JCard::from_value(&JsonValue::Array(vec![s("vcard")]));
    assert!(matches!(r, Err(Error::InvalidStructure(_))));
    let r = JCard::from_value(&JsonValue::Array(vec![s("vcard"), obj(vec![])]));
    assert!(matches!(r, Err(Error::InvalidStructure(_))));
}

#[test]
fn each_dropped_tuple_is_reported_as_lost() {
    let tree = card_tree(vec![
        tuple("version", obj(vec![]), "text", s("4.0")),
        JsonValue::Array(vec![s("fn"), obj(vec![])]),
        s("not a tuple"),
        tuple("note", obj(vec![]), "text", s("kept")),
    ]);
    let parsed = JCard::from_value(&tree).unwrap();
    assert_eq!(parsed.value.properties().len(), 2);
    let lost: Vec<&ParseWarning> =
        parsed.warnings.iter().filter(|w| w.kind == WarningKind::Lost).collect();
    assert_eq!(lost.len(), 2);
    assert_eq!(lost[0].path, "properties[1]");
    assert_eq!(lost[0].raw_value.as_deref(), Some(r#"["fn",{}]"#));
    assert_eq!(lost[1].raw_value.as_deref(), Some(r#""not a tuple""#));
    assert_eq!(lost[1].path, "properties[2]");
}

#[test]
fn non_string_parameter_value_is_dropped_with_a_warning() {
    let tree = card_tree(vec![
        tuple("version", obj(vec![]), "text", s("4.0")),
        tuple(
            "tel",
            obj(vec![("pref", JsonValue::Number("1".into())), ("type", s("work"))]),
            "uri",
            s("tel:+1"),
        ),
    ]);
    let parsed = JCard::from_value(&tree).unwrap();
    let tel = parsed.value.get("tel").unwrap();
    assert_eq!(tel.parameters.get("type"), Some(&ParamValue::Single("work".into())));
    assert_eq!(parsed.warnings.len(), 1);
}

#[test]
fn warning_and_error_text() {
    let w = ParseWarning::recovered("properties[3]".into(), "bad".into(), Some("x".into()));
    assert_eq!(w.display_string(), "properties[3]: bad (raw: x)");
    let w = ParseWarning::lost("properties[1]".into(), "gone".into(), None);
    assert_eq!(w.display_string(), "properties[1]: gone");
    assert_eq!(w.kind, WarningKind::Lost);
    assert_eq!(Error::InvalidXml("eof".into()).display_string(), "invalid XML: eof");
    assert_eq!(
        Error::InvalidStructure("no <vcard> element".into()).display_string(),
        "invalid jCard structure: no <vcard> element"
    );
    let p = Parsed { value: 1, warnings: vec![] };
    assert!(!p.has_warnings());
}

// ----- xCard ---------------------------------------------------------------------------

#[test]
fn ill_formed_xml_is_an_xml_error() {
    assert!(matches!(parse("<vcards><vcard></vcards>"), Err(Error::InvalidXml(_))));
}

#[test]
fn well_formed_markup_without_a_card_names_the_missing_element() {
    match parse("<vcards/>") {
        Err(Error::InvalidStructure(m)) => assert_eq!(m, "no <vcard> element"),
        other => panic!("{other:?}"),
    }
}

#[test]
fn structured_property_has_one_component_per_name() {
    let parsed = parse("<vcards><vcard><n><given>Jane</given></n></vcard></vcards>").unwrap();
    let card = &parsed.value[0];
    assert_eq!(card.properties()[0].name, "version");
    assert_eq!(
        *card.get("n").unwrap().value(),
        PropertyValue::Structured(vec![
            StructuredComponent::Text(String::new()),
            StructuredComponent::Text("Jane".into()),
            StructuredComponent::Text(String::new()),
            StructuredComponent::Text(String::new()),
            StructuredComponent::Text(String::new()),
        ])
    );
}

#[test]
fn property_without_a_value_still_has_one() {
    let parsed = parse("<vcards><vcard><note></note></vcard></vcards>").unwrap();
    let note = parsed.value[0].get("note").unwrap();
    assert_eq!(note.values().len(), 1);
}

#[test]
fn references_resolve_to_their_characters() {
    assert_eq!(resolve_reference_exec("amp"), Some("&".to_string()));
    assert_eq!(resolve_reference_exec("quot"), Some("\"".to_string()));
    assert_eq!(resolve_reference_exec("#x41"), Some("A".to_string()));
    assert_eq!(resolve_reference_exec("#8212"), Some("\u{2014}".to_string()));
    assert_eq!(resolve_reference_exec("nbsp"), None);
    assert_eq!(resolve_reference_exec("#xD800"), None);
}

#[test]
fn unresolvable_reference_is_kept_as_written_with_a_warning() {
    let parsed = parse("<vcards><vcard><note><text>a &#xD800; b</text></note></vcard></vcards>")
        .unwrap();
    assert_eq!(
        *parsed.value[0].get("note").unwrap().value(),
        PropertyValue::Text("a &#xD800; b".into())
    );
    assert_eq!(parsed.warnings.len(), 1);
    assert_eq!(parsed.warnings[0].message, "unresolvable entity reference");
    assert_eq!(parsed.warnings[0].kind, WarningKind::Lost);
}

#[test]
fn bad_parameters_keep_the_rest_of_the_card() {
    let tree = card_tree(vec![
        tuple("version", obj(vec![]), "text", s("4.0")),
        tuple("fn", obj(vec![]), "text", s("Jane Doe")),
        tuple("email", s("bad-params"), "text", s("jane@example.com")),
    ]);
    let parsed = JCard::from_value(&tree).unwrap();
    assert_eq!(parsed.value.properties().len(), 3);
    let email = parsed.value.get("email").unwrap();
    assert!(email.parameters.is_empty());
    assert_eq!(*email.value(), PropertyValue::Text("jane@example.com".into()));
    assert_eq!(parsed.warnings.len(), 1);
    assert_eq!(parsed.warnings[0].kind, WarningKind::Lost);
}

#[test]
fn mismatched_values_are_kept_as_text_one_per_element() {
    let tree = card_tree(vec![
        tuple("version", obj(vec![]), "text", s("4.0")),
        JsonValue::Array(vec![
            s("X-Count"),
            obj(vec![]),
            JsonValue::Bool(false),
            JsonValue::Number("3".into()),
            s("three"),
        ]),
    ]);
    let parsed = JCard::from_value(&tree).unwrap();
    let p = parsed.value.get("x-count").unwrap();
    assert_eq!(p.value_type, "unknown");
    assert_eq!(
        p.values(),
        &[PropertyValue::Text("3".into()), PropertyValue::Unknown("three".into())]
    );
}

#[test]
fn a_card_inside_another_element_is_found() {
    let parsed = parse("<x><vcard><fn><text>Jane Doe</text></fn></vcard></x>").unwrap();
    assert_eq!(parsed.value.len(), 1);
    assert_eq!(
        *parsed.value[0].get("fn").unwrap().value(),
        PropertyValue::Text("Jane Doe".into())
    );
    assert_eq!(parsed.warnings.len(), 1);
    assert_eq!(parsed.warnings[0].message, "no <vcards> wrapper element");
}

#[test]
fn a_card_below_a_foreign_child_of_vcards_is_found_without_a_warning() {
    let parsed = parse(
        "<vcards><group-of-cards><vcard><fn><text>A</text></fn></vcard></group-of-cards>\
         <vcard><fn><text>B</text></fn></vcard></vcards>",
    )
    .unwrap();
    assert_eq!(parsed.value.len(), 2);
    assert!(parsed.warnings.is_empty(), "{:?}", parsed.warnings);
    assert_eq!(*parsed.value[1].get("fn").unwrap().value(), PropertyValue::Text("B".into()));
}

#[test]
fn json_text_reads_leniently_and_rejects_what_is_not_json() {
    let parsed = JCard::from_json(r#"["vcard",[["version",{},"text","4.0"],["fn",{},"text","Jane"]]]"#)
        .unwrap();
    assert!(!parsed.has_warnings());
    assert_eq!(*parsed.value.get("fn").unwrap().value(), PropertyValue::Text("Jane".into()));
    assert!(matches!(JCard::from_json("{not json}"), Err(Error::InvalidJson(_))));
    assert!(matches!(JCard::from_json(r#"["vcalendar",[]]"#), Err(Error::InvalidStructure(_))));
}

#[test]
fn values_are_never_empty() {
    let p = Property::new("note", PropertyValue::Text("x".into()));
    assert_eq!(p.values().len(), 1);
    assert_eq!(*p.value(), p.values()[0]);
    assert!(Property::multi("categories", vec![]).is_none());
}

#[test]
fn property_getters_read_the_fields() {
    let p = Property::new("TEL", PropertyValue::Uri("tel:+1".into()))
        .with_param("type", ParamValue::Single("work".into()));
    assert_eq!(p.name(), "tel");
    assert_eq!(p.value_type(), "uri");
    assert_eq!(p.parameters().get("type"), Some(&ParamValue::Single("work".into())));
}
