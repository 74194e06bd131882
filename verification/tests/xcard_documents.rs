//! xCard documents read into jCards.

use jcard::xcard::parse;
use jcard::{JCard, ParamValue, Parsed, PropertyValue, StructuredComponent, WarningKind};

const RFC6351_CARD: &str = r#"<?xml version="1.0" encoding="UTF-8"?>
<vcards xmlns="urn:ietf:params:xml:ns:vcard-4.0">
  <vcard>
    <fn><text>Jane Doe</text></fn>
    <n>
      <surname>Doe</surname>
      <given>Jane</given>
      <additional/>
      <prefix/>
      <suffix>ing. jr</suffix>
      <suffix>M.Sc.</suffix>
    </n>
    <bday><date>--0203</date></bday>
    <anniversary>
      <date-time>20090808T1430-0500</date-time>
    </anniversary>
    <gender><sex>F</sex></gender>
    <lang>
      <parameters><pref><integer>1</integer></pref></parameters>
      <language-tag>fr</language-tag>
    </lang>
    <lang>
      <parameters><pref><integer>2</integer></pref></parameters>
      <language-tag>en</language-tag>
    </lang>
    <org>
      <parameters><type><text>work</text></type></parameters>
      <text>EXAMPLE CO</text>
    </org>
    <adr>
      <parameters>
        <type><text>work</text></type>
      </parameters>
      <pobox/>
      <ext/>
      <street>123 Main Street</street>
      <locality>Any Town</locality>
      <region>QC</region>
      <code>G1V 2M2</code>
      <country>Canada</country>
    </adr>
    <tel>
      <parameters>
        <type>
          <text>work</text>
          <text>voice</text>
        </type>
      </parameters>
      <uri>tel:+15550101</uri>
    </tel>
    <email>
      <parameters><type><text>work</text></type></parameters>
      <text>jane.doe@example.com</text>
    </email>
    <categories><text>computers</text><text>cameras</text></categories>
    <tz><text>America/Montreal</text></tz>
  </vcard>
</vcards>"#;

fn only_card(xml: &str) -> Parsed<JCard> {
    let parsed = parse(xml).expect("parses");
    assert_eq!(parsed.value.len(), 1, "expected exactly one card");
    Parsed {
        value: parsed.value.into_iter().next().expect("one card"),
        warnings: parsed.warnings,
    }
}

#[test]
fn rfc6351_example_card() {
    let parsed = only_card(RFC6351_CARD);
    assert!(
        parsed
            .warnings
            .is_empty(),
        "{:?}",
        parsed.warnings
    );
    let card = parsed.value;

    // xCard has no version property; jCard requires one first.
    assert_eq!(card.properties()[0].name, "version");
    assert_eq!(
        *card.properties()[0].value(),
        PropertyValue::Text("4.0".into())
    );

    assert_eq!(
        *card
            .get("fn")
            .unwrap()
            .value(),
        PropertyValue::Text("Jane Doe".into())
    );

    // Named components are positional, and a repeated one is a nested list.
    assert_eq!(
        *card
            .get("n")
            .unwrap()
            .value(),
        PropertyValue::Structured(vec![
            StructuredComponent::Text("Doe".into()),
            StructuredComponent::Text("Jane".into()),
            StructuredComponent::Text(String::new()),
            StructuredComponent::Text(String::new()),
            StructuredComponent::Multi(vec!["ing. jr".into(), "M.Sc.".into()]),
        ])
    );

    assert_eq!(
        *card
            .get("adr")
            .unwrap()
            .value(),
        PropertyValue::Structured(vec![
            StructuredComponent::Text(String::new()),
            StructuredComponent::Text(String::new()),
            StructuredComponent::Text("123 Main Street".into()),
            StructuredComponent::Text("Any Town".into()),
            StructuredComponent::Text("QC".into()),
            StructuredComponent::Text("G1V 2M2".into()),
            StructuredComponent::Text("Canada".into()),
        ])
    );

    let langs = card.get_all("lang");
    assert_eq!(langs.len(), 2);
    assert_eq!(*langs[0].value(), PropertyValue::LanguageTag("fr".into()));
    assert_eq!(
        langs[0]
            .parameters
            .get("pref"),
        Some(&ParamValue::Single("1".into()))
    );
    assert_eq!(*langs[1].value(), PropertyValue::LanguageTag("en".into()));

    let tel = card
        .get("tel")
        .unwrap();
    assert_eq!(*tel.value(), PropertyValue::Uri("tel:+15550101".into()));
    assert_eq!(
        tel.parameters
            .get("type"),
        Some(&ParamValue::Multiple(vec!["work".into(), "voice".into()]))
    );

    // categories is multi-valued, org is a single structured value.
    assert_eq!(
        card.get("categories")
            .unwrap()
            .values(),
        &[
            PropertyValue::Text("computers".into()),
            PropertyValue::Text("cameras".into()),
        ]
    );
    assert_eq!(
        *card
            .get("org")
            .unwrap()
            .value(),
        PropertyValue::Text("EXAMPLE CO".into())
    );

    assert_eq!(
        *card
            .get("bday")
            .unwrap()
            .value(),
        PropertyValue::Date("--0203".into())
    );
    assert_eq!(
        *card
            .get("anniversary")
            .unwrap()
            .value(),
        PropertyValue::DateTime("20090808T1430-0500".into())
    );
    assert_eq!(
        *card
            .get("gender")
            .unwrap()
            .value(),
        PropertyValue::Structured(vec![
            StructuredComponent::Text("F".into()),
            StructuredComponent::Text(String::new()),
        ])
    );
}

#[test]
fn multi_component_org_is_one_structured_value() {
    let parsed = only_card(
        r#"<vcards><vcard><org><text>EXAMPLE CO</text><text>Field Ops</text></org></vcard></vcards>"#,
    );
    assert!(
        parsed
            .warnings
            .is_empty(),
        "{:?}",
        parsed.warnings
    );
    assert_eq!(
        *parsed
            .value
            .get("org")
            .unwrap()
            .value(),
        PropertyValue::Structured(vec![
            StructuredComponent::Text("EXAMPLE CO".into()),
            StructuredComponent::Text("Field Ops".into()),
        ])
    );
}

#[test]
fn fragment_without_wrapper_or_namespace_binding() {
    let parsed = parse(
        r#"<vcard:vcard>
             <vcard:fn><vcard:text>Jane Doe</vcard:text></vcard:fn>
             <vcard:lang><vcard:language-tag>FR</vcard:language-tag></vcard:lang>
           </vcard:vcard>"#,
    )
    .expect("parses");

    // The card came through whole, so the omission must not read as data
    // the reader lost.
    assert_eq!(
        parsed
            .warnings
            .iter()
            .map(|w| (
                w.kind,
                w.message
                    .as_str()
            ))
            .collect::<Vec<_>>(),
        [(WarningKind::Recovered, "no <vcards> wrapper element")]
    );
    let card = &parsed.value[0];
    assert_eq!(
        *card
            .get("fn")
            .unwrap()
            .value(),
        PropertyValue::Text("Jane Doe".into())
    );
    // The tag's case is what the sender wrote; BCP 47 comparison is the
    // consumer's job.
    assert_eq!(
        *card
            .get("lang")
            .unwrap()
            .value(),
        PropertyValue::LanguageTag("FR".into())
    );
}

#[test]
fn value_that_contradicts_its_declared_type_survives() {
    let parsed = only_card(
        r#"<vcards><vcard><x-count><integer>lots</integer></x-count></vcard></vcards>"#,
    );
    let property = parsed
        .value
        .get("x-count")
        .unwrap();
    assert_eq!(property.value_type, "integer");
    assert_eq!(*property.value(), PropertyValue::Unknown("lots".into()));
    assert_eq!(parsed.warnings[0].raw_value, Some("lots".into()));
}

#[test]
fn group_becomes_a_parameter() {
    let parsed = only_card(
        r#"<vcards><vcard>
             <group name="Contact"><fn><text>Jane Doe</text></fn></group>
             <categories><text>staff</text></categories>
           </vcard></vcards>"#,
    );
    assert!(
        parsed
            .warnings
            .is_empty(),
        "{:?}",
        parsed.warnings
    );
    assert_eq!(
        parsed
            .value
            .get("fn")
            .unwrap()
            .parameters
            .get("group"),
        Some(&ParamValue::Single("contact".into()))
    );
    assert!(parsed
        .value
        .get("categories")
        .unwrap()
        .parameters
        .is_empty());
}

#[test]
fn value_text_outside_a_value_element_is_recovered_and_reported() {
    let parsed = only_card(r#"<vcards><vcard><fn>Jane Doe</fn></vcard></vcards>"#);
    let property = parsed
        .value
        .get("fn")
        .unwrap();
    assert_eq!(*property.value(), PropertyValue::Unknown("Jane Doe".into()));
    assert_eq!(
        parsed.warnings[0].message,
        "value text is not wrapped in a value element"
    );
}

#[test]
fn markup_without_a_card_is_an_error() {
    assert!(parse("<SubscriberData>Jane Doe</SubscriberData>").is_err());
    assert!(parse("").is_err());
}

#[test]
fn several_cards_in_one_document() {
    let parsed = parse(
        r#"<vcards>
             <vcard><fn><text>Jane Doe</text></fn></vcard>
             <vcard><fn><text>John Doe</text></fn></vcard>
           </vcards>"#,
    )
    .expect("parses");
    assert_eq!(
        parsed
            .value
            .len(),
        2
    );
    assert!(
        parsed
            .warnings
            .is_empty(),
        "{:?}",
        parsed.warnings
    );
}

#[test]
fn entity_references_resolve_in_element_text() {
    let parsed = only_card(
        r#"<vcards><vcard><note><text>Doe &amp; Sons &#x2014; call &lt;first&gt;</text></note></vcard></vcards>"#,
    );
    assert_eq!(
        *parsed
            .value
            .get("note")
            .unwrap()
            .value(),
        PropertyValue::Text("Doe & Sons — call <first>".into())
    );
}
