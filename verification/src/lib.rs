//! RFC 7095 jCard — JSON representation of vCard — with a reader for the
//! RFC 6351 xCard XML representation.
//!
//! # Lenient parsing
//!
//! [`JCard::from_value`] returns [`Parsed<JCard>`]: the best-effort parse
//! result plus a [`ParseWarning`] for every malformed part. Calltakers see
//! all available data while discrepancy reports capture what went wrong.
//! `Err` is kept for input that is not a jCard at all.
//!
//! # Value types
//!
//! All RFC 7095 §3.5 value types are [`PropertyValue`] variants: text, uri,
//! date, time, date-time, date-and-or-time, timestamp, boolean, integer,
//! float, utc-offset, language-tag and unknown. Structured values (`N`,
//! `ADR`) use [`PropertyValue::Structured`] with [`StructuredComponent`]
//! elements, including nested arrays per §3.3.1.3.
//!
//! The type identifier is stored on [`Property::value_type`] separately from
//! the value, so that a card written out with [`JCard::to_json`] and read
//! back with [`JCard::from_value`] keeps every type identifier, extension
//! types included.

pub mod deserialize;
pub mod error;
pub mod json;
pub mod parameters;
pub mod property;
pub mod serialize;
pub mod text;
pub mod xcard;

use vstd::prelude::*;

pub use error::Error;
pub use json::JsonValue;
pub use parameters::Parameters;
pub use property::{EmptyParamValue, ParamValue, Property, PropertyValue, StructuredComponent};

use parameters::param_insert;
use property::{
    SpecComponent, SpecParamValue, SpecProperty, SpecValue, components_view, spec_default_type,
    strings_view,
};
use text::{owned, ascii_lower};

verus! {

/// How much of the input survived the problem a warning reports.
#[derive(Debug, Clone, Copy, PartialEq, Eq, Structural)]
pub enum WarningKind {
    /// Data was dropped: a property, a parameter, a type identifier.
    Lost,
    /// The input was not conformant, but its data came through.
    Recovered,
}

/// Warning emitted during lenient jCard parsing.
///
/// When a property can't be fully parsed, the parser preserves what it can
/// and emits a warning describing what went wrong. The raw unparsed value
/// is available in [`raw_value`](Self::raw_value) when applicable.
#[derive(Debug, Clone, PartialEq, Eq)]
pub struct ParseWarning {
    /// Path to the problematic element (e.g. `properties[3]`).
    pub path: String,
    /// Human-readable description of the problem.
    pub message: String,
    /// Unparsed source text, preserved for display.
    pub raw_value: Option<String>,
    /// Whether data was lost or came through.
    pub kind: WarningKind,
}

pub struct SpecWarning {
    pub path: Seq<char>,
    pub message: Seq<char>,
    pub raw_value: Option<Seq<char>>,
    pub kind: WarningKind,
}

pub open spec fn opt_string_view(o: Option<String>) -> Option<Seq<char>> {
    match o {
        Some(s) => Some(s@),
        None => None,
    }
}

impl View for ParseWarning {
    type V = SpecWarning;

    open spec fn view(&self) -> SpecWarning {
        SpecWarning {
            path: self.path@,
            message: self.message@,
            raw_value: opt_string_view(self.raw_value),
            kind: self.kind,
        }
    }
}

pub open spec fn warnings_view(w: Seq<ParseWarning>) -> Seq<SpecWarning> {
    w.map_values(|x: ParseWarning| x@)
}

/// The text of a warning: `path: message`, then ` (raw: ...)` when the raw
/// source text is known.
pub open spec fn spec_warning_display(w: SpecWarning) -> Seq<char> {
    match w.raw_value {
        Some(raw) => w.path + ": "@ + w.message + " (raw: "@ + raw + ")"@,
        None => w.path + ": "@ + w.message,
    }
}

impl ParseWarning {
    /// A warning for data that did not survive the problem.
    pub fn lost(path: String, message: String, raw_value: Option<String>) -> (r: Self)
        ensures
            r@ == (SpecWarning {
                path: path@,
                message: message@,
                raw_value: opt_string_view(raw_value),
                kind: WarningKind::Lost,
            }),
    {
        ParseWarning { path, message, raw_value, kind: WarningKind::Lost }
    }

    /// A warning for non-conformant input whose data came through intact.
    pub fn recovered(path: String, message: String, raw_value: Option<String>) -> (r: Self)
        ensures
            r@ == (SpecWarning {
                path: path@,
                message: message@,
                raw_value: opt_string_view(raw_value),
                kind: WarningKind::Recovered,
            }),
    {
        ParseWarning { path, message, raw_value, kind: WarningKind::Recovered }
    }

    /// The text of the warning: `path: message (raw: ...)`.
    pub fn display_string(&self) -> (r: String)
        ensures
            r@ == spec_warning_display(self@),
    {
        let mut r = owned(self.path.as_str());
        r.append(": ");
        r.append(self.message.as_str());
        match &self.raw_value {
            Some(raw) => {
                r.append(" (raw: ");
                r.append(raw.as_str());
                r.append(")");
            },
            None => {},
        }
        r
    }
}

/// Result of lenient jCard parsing: the parsed value plus any warnings.
///
/// Even when `warnings` is non-empty, `value` contains everything that
/// could be successfully parsed.
#[derive(Debug, Clone)]
pub struct Parsed<T> {
    /// Best-effort parse result.
    pub value: T,
    /// Problems encountered during parsing.
    pub warnings: Vec<ParseWarning>,
}

impl<T> Parsed<T> {
    /// Returns `true` if any warnings were collected during parsing.
    pub fn has_warnings(&self) -> (r: bool)
        ensures
            r == (self.warnings@.len() > 0),
    {
        !self.warnings.is_empty()
    }
}

pub open spec fn props_view(s: Seq<Property>) -> Seq<SpecProperty> {
    s.map_values(|p: Property| p@)
}

/// A property with no parameter and one value, typed after its variant.
pub open spec fn simple_property(name: Seq<char>, v: SpecValue) -> SpecProperty {
    SpecProperty { name, params: Seq::empty(), value_type: spec_default_type(v), values: seq![v] }
}

/// The mandatory `version` property, `4.0`.
pub open spec fn version_property() -> SpecProperty {
    simple_property("version"@, SpecValue::Text("4.0"@))
}

/// The index of the first property named `name`, or the length when none is.
pub open spec fn first_named(s: Seq<SpecProperty>, name: Seq<char>) -> int
    decreases s.len(),
{
    if s.len() == 0 {
        0
    } else if s[0].name == name {
        0
    } else {
        1 + first_named(s.drop_first(), name)
    }
}

/// What [`JCard::get`] finds is the first of what [`JCard::get_all`] lists:
/// there is a property of a name exactly when the list is not empty, and
/// then it is the list's first element.
pub proof fn law_get_is_first_of_get_all(s: Seq<SpecProperty>, name: Seq<char>)
    ensures
        0 <= first_named(s, name) <= s.len(),
        (first_named(s, name) < s.len()) == (s.filter(|p: SpecProperty| p.name == name).len() > 0),
        first_named(s, name) < s.len() ==> s[first_named(s, name)] == s.filter(
            |p: SpecProperty| p.name == name,
        )[0],
    decreases s.len(),
{
    let pred = |p: SpecProperty| p.name == name;
    if s.len() > 0 {
        let rest = s.drop_first();
        law_get_is_first_of_get_all(rest, name);
        assert(s =~= seq![s[0]] + rest);
        Seq::<SpecProperty>::filter_distributes_over_add(seq![s[0]], rest, pred);
        reveal_with_fuel(Seq::<_>::filter, 2);
        if s[0].name == name {
            assert(seq![s[0]].filter(pred) =~= seq![s[0]]);
        } else {
            assert(seq![s[0]].filter(pred) =~= Seq::<SpecProperty>::empty());
            assert(s.filter(pred) =~= rest.filter(pred));
            assert(first_named(s, name) == 1 + first_named(rest, name));
            if first_named(rest, name) < rest.len() {
                assert(s[first_named(s, name)] == rest[first_named(rest, name)]);
            }
        }
    }
}

/// A jCard document (RFC 7095).
///
/// Serializes to `["vcard", [...properties]]` per the RFC 7095 format.
/// A new `JCard` always includes the mandatory `version` property set to `"4.0"`.
#[derive(Debug, Clone, PartialEq)]
pub struct JCard {
    properties: Vec<Property>,
}

impl View for JCard {
    type V = Seq<SpecProperty>;

    closed spec fn view(&self) -> Seq<SpecProperty> {
        props_view(self.properties@)
    }
}

proof fn lemma_lower_literal(s: Seq<char>)
    requires
        forall|i: int| 0 <= i < s.len() ==> !('A' <= #[trigger] s[i] && s[i] <= 'Z'),
    ensures
        ascii_lower(s) == s,
{
    assert(ascii_lower(s) =~= s);
}

/// A property with no parameter and one value; `name` must already be
/// lowercase.
fn plain_property(name: &str, value: PropertyValue) -> (r: Property)
    requires
        forall|i: int| 0 <= i < name@.len() ==> !('A' <= #[trigger] name@[i] && name@[i] <= 'Z'),
    ensures
        r@ == simple_property(name@, value@),
{
    proof {
        lemma_lower_literal(name@);
    }
    Property::new(name, value)
}

/// The mandatory `version` property, `4.0`.
fn new_version_property() -> (r: Property)
    ensures
        r@ == version_property(),
{
    proof {
        reveal_strlit("version");
    }
    plain_property("version", PropertyValue::Text(owned("4.0")))
}

impl JCard {
    /// Creates a new jCard with only the mandatory `version` property.
    pub fn new() -> (r: Self)
        ensures
            r@ == seq![version_property()],
    {
        let p = new_version_property();
        let mut properties = Vec::new();
        properties.push(p);
        let r = JCard { properties };
        assert(r@ =~= seq![version_property()]);
        r
    }

    /// Returns a builder for ergonomic jCard construction.
    pub fn builder() -> (r: JCardBuilder)
        ensures
            r@ == seq![version_property()],
    {
        JCardBuilder { jcard: Self::new() }
    }

    /// Returns the properties in this jCard.
    pub fn properties(&self) -> (r: &[Property])
        ensures
            props_view(r@) == self@,
    {
        self.properties.as_slice()
    }

    /// Returns a mutable reference to the properties list.
    pub fn properties_mut(&mut self) -> (r: &mut Vec<Property>)
        ensures
            props_view(r@) == old(self)@,
            props_view(final(r)@) == final(self)@,
    {
        &mut self.properties
    }

    /// Appends a property to this jCard.
    pub fn push(&mut self, property: Property)
        ensures
            final(self)@ == old(self)@.push(property@),
    {
        self.properties.push(property);
        assert(final(self)@ =~= old(self)@.push(property@));
    }

    /// Returns the first property with the given name, or `None`.
    pub fn get(&self, name: &str) -> (r: Option<&Property>)
        ensures
            first_named(self@, name@) < self@.len() ==> r is Some && r.unwrap()@ == self@[first_named(
                self@,
                name@,
            )],
            first_named(self@, name@) >= self@.len() ==> r is None,
    {
        let ghost s = self@;
        let mut i: usize = 0;
        assert(s.skip(0) =~= s);
        while i < self.properties.len()
            invariant
                i <= self.properties@.len(),
                s == self@,
                s.len() == self.properties@.len(),
                forall|k: int| 0 <= k < s.len() ==> #[trigger] s[k] == self.properties@[k]@,
                first_named(s, name@) == i + first_named(s.skip(i as int), name@),
            decreases self.properties.len() - i,
        {
            let p = &self.properties[i];
            assert(s.skip(i as int)[0] == s[i as int]);
            if p.has_name(name) {
                return Some(p);
            }
            assert(s.skip(i as int).drop_first() =~= s.skip(i + 1));
            i = i + 1;
        }
        None
    }

    /// Returns all properties with the given name, in order.
    pub fn get_all(&self, name: &str) -> (r: Vec<&Property>)
        ensures
            r@.map_values(|p: &Property| p@) == self@.filter(|p: SpecProperty| p.name == name@),
    {
        let ghost s = self@;
        let ghost pred = |p: SpecProperty| p.name == name@;
        let mut r: Vec<&Property> = Vec::new();
        let mut i: usize = 0;
        while i < self.properties.len()
            invariant
                i <= self.properties@.len(),
                s == self@,
                pred == (|p: SpecProperty| p.name == name@),
                s.len() == self.properties@.len(),
                forall|k: int| 0 <= k < s.len() ==> #[trigger] s[k] == self.properties@[k]@,
                r@.map_values(|p: &Property| p@) == s.take(i as int).filter(pred),
            decreases self.properties.len() - i,
        {
            reveal_with_fuel(Seq::<_>::filter, 1);
            let p = &self.properties[i];
            let ghost before = r@;
            if p.has_name(name) {
                r.push(p);
            }
            assert(s.take(i + 1).drop_last() =~= s.take(i as int));
            assert(r@.map_values(|p: &Property| p@) =~= s.take(i + 1).filter(pred));
            i = i + 1;
        }
        assert(s.take(self.properties@.len() as int) =~= s);
        r
    }
}

impl Default for JCard {
    fn default() -> (r: Self)
        ensures
            r@ == seq![version_property()],
    {
        Self::new()
    }
}

/// Builder for constructing jCard documents with common properties.
pub struct JCardBuilder {
    jcard: JCard,
}

impl View for JCardBuilder {
    type V = Seq<SpecProperty>;

    closed spec fn view(&self) -> Seq<SpecProperty> {
        self.jcard@
    }
}

/// The structured value of `N`: five text components.
pub open spec fn spec_name_value(
    family: Seq<char>,
    given: Seq<char>,
    additional: Seq<char>,
    prefix: Seq<char>,
    suffix: Seq<char>,
) -> SpecValue {
    SpecValue::Structured(
        seq![
            SpecComponent::Text(family),
            SpecComponent::Text(given),
            SpecComponent::Text(additional),
            SpecComponent::Text(prefix),
            SpecComponent::Text(suffix),
        ],
    )
}

/// The `TYPE` parameter for a list of types: none for no type, a single
/// value for one, a list for more.
pub open spec fn spec_type_params(types: Seq<Seq<char>>) -> Seq<(Seq<char>, SpecParamValue)> {
    if types.len() == 0 {
        Seq::empty()
    } else if types.len() == 1 {
        seq![("type"@, SpecParamValue::Single(types[0]))]
    } else {
        seq![("type"@, SpecParamValue::Multiple(types))]
    }
}

pub open spec fn strs_view(s: Seq<&str>) -> Seq<Seq<char>> {
    s.map_values(|x: &str| x@)
}

impl JCardBuilder {
    /// Adds an arbitrary property.
    pub fn property(self, prop: Property) -> (r: Self)
        ensures
            r@ == self@.push(prop@),
    {
        let mut b = self;
        b.jcard.push(prop);
        b
    }

    fn add_simple(self, name: &str, value: PropertyValue) -> (r: Self)
        requires
            forall|i: int| 0 <= i < name@.len() ==> !('A' <= #[trigger] name@[i] && name@[i] <= 'Z'),
        ensures
            r@ == self@.push(simple_property(name@, value@)),
    {
        self.property(plain_property(name, value))
    }

    /// Adds an `FN` (formatted name) property.
    pub fn fn_(self, name: &str) -> (r: Self)
        ensures
            r@ == self@.push(simple_property("fn"@, SpecValue::Text(name@))),
    {
        proof {
            reveal_strlit("fn");
        }
        self.add_simple("fn", PropertyValue::Text(owned(name)))
    }

    /// Adds an `N` (structured name) property with five components per RFC 6350 §6.2.2.
    pub fn n(self, family: &str, given: &str, additional: &str, prefix: &str, suffix: &str) -> (r:
        Self)
        ensures
            r@ == self@.push(
                simple_property("n"@, spec_name_value(family@, given@, additional@, prefix@, suffix@)),
            ),
    {
        proof {
            reveal_strlit("n");
        }
        let mut c: Vec<StructuredComponent> = Vec::new();
        c.push(StructuredComponent::Text(owned(family)));
        c.push(StructuredComponent::Text(owned(given)));
        c.push(StructuredComponent::Text(owned(additional)));
        c.push(StructuredComponent::Text(owned(prefix)));
        c.push(StructuredComponent::Text(owned(suffix)));
        let v = PropertyValue::Structured(c);
        assert(v@ == spec_name_value(family@, given@, additional@, prefix@, suffix@)) by {
            assert(components_view(c@) =~= seq![
                SpecComponent::Text(family@),
                SpecComponent::Text(given@),
                SpecComponent::Text(additional@),
                SpecComponent::Text(prefix@),
                SpecComponent::Text(suffix@),
            ]);
        }
        self.add_simple("n", v)
    }

    /// Adds an `EMAIL` property.
    pub fn email(self, email: &str) -> (r: Self)
        ensures
            r@ == self@.push(simple_property("email"@, SpecValue::Text(email@))),
    {
        proof {
            reveal_strlit("email");
        }
        self.add_simple("email", PropertyValue::Text(owned(email)))
    }

    /// Adds an `EMAIL` property with a `TYPE` parameter.
    pub fn email_with_type(self, email: &str, type_: &str) -> (r: Self)
        ensures
            r@ == self@.push(
                SpecProperty {
                    params: seq![("type"@, SpecParamValue::Single(type_@))],
                    ..simple_property("email"@, SpecValue::Text(email@))
                },
            ),
    {
        proof {
            reveal_strlit("email");
        }
        let p = plain_property("email", PropertyValue::Text(owned(email)));
        let p = p.with_param("type", ParamValue::Single(owned(type_)));
        assert(param_insert(Seq::empty(), "type"@, SpecParamValue::Single(type_@)) =~= seq![
            ("type"@, SpecParamValue::Single(type_@)),
        ]);
        self.property(p)
    }

    /// Adds a `TEL` property with a URI value.
    pub fn tel(self, uri: &str) -> (r: Self)
        ensures
            r@ == self@.push(simple_property("tel"@, SpecValue::Uri(uri@))),
    {
        proof {
            reveal_strlit("tel");
        }
        self.add_simple("tel", PropertyValue::Uri(owned(uri)))
    }

    /// Adds a `TEL` property with a URI value and `TYPE` parameters.
    ///
    /// If `types` is empty, the property is added without a `TYPE` parameter.
    pub fn tel_with_type(self, uri: &str, types: &[&str]) -> (r: Self)
        ensures
            r@ == self@.push(
                SpecProperty {
                    params: spec_type_params(strs_view(types@)),
                    ..simple_property("tel"@, SpecValue::Uri(uri@))
                },
            ),
    {
        proof {
            reveal_strlit("tel");
        }
        let prop = plain_property("tel", PropertyValue::Uri(owned(uri)));
        if types.len() == 0 {
            assert(spec_type_params(strs_view(types@)) =~= Seq::<(Seq<char>, SpecParamValue)>::empty());
            return self.property(prop);
        }
        let param = if types.len() == 1 {
            ParamValue::Single(owned(types[0]))
        } else {
            let mut v: Vec<String> = Vec::new();
            let mut i: usize = 0;
            while i < types.len()
                invariant
                    i <= types@.len(),
                    v@.len() == i,
                    forall|k: int| 0 <= k < i ==> #[trigger] v@[k]@ == types@[k]@,
                decreases types.len() - i,
            {
                v.push(owned(types[i]));
                i = i + 1;
            }
            assert(strings_view(v@) =~= strs_view(types@));
            ParamValue::Multiple(v)
        };
        let ghost pv = param@;
        let prop = prop.with_param("type", param);
        assert(param_insert(Seq::empty(), "type"@, pv) =~= seq![("type"@, pv)]);
        assert(seq![("type"@, pv)] =~= spec_type_params(strs_view(types@)));
        self.property(prop)
    }

    /// Adds an `ORG` property.
    pub fn org(self, org: &str) -> (r: Self)
        ensures
            r@ == self@.push(simple_property("org"@, SpecValue::Text(org@))),
    {
        proof {
            reveal_strlit("org");
        }
        self.add_simple("org", PropertyValue::Text(owned(org)))
    }

    /// Adds a `TITLE` property.
    pub fn title(self, title: &str) -> (r: Self)
        ensures
            r@ == self@.push(simple_property("title"@, SpecValue::Text(title@))),
    {
        proof {
            reveal_strlit("title");
        }
        self.add_simple("title", PropertyValue::Text(owned(title)))
    }

    /// Adds an `ADR` (structured address) property per RFC 6350 §6.3.1.
    pub fn adr(self, components: Vec<StructuredComponent>) -> (r: Self)
        ensures
            r@ == self@.push(
                simple_property("adr"@, SpecValue::Structured(components_view(components@))),
            ),
    {
        proof {
            reveal_strlit("adr");
        }
        self.add_simple("adr", PropertyValue::Structured(components))
    }

    /// Adds a `BDAY` (birthday) property with a date-and-or-time value.
    pub fn bday(self, value: &str) -> (r: Self)
        ensures
            r@ == self@.push(simple_property("bday"@, SpecValue::DateAndOrTime(value@))),
    {
        proof {
            reveal_strlit("bday");
        }
        self.add_simple("bday", PropertyValue::DateAndOrTime(owned(value)))
    }

    /// Adds a `URL` property.
    pub fn url(self, uri: &str) -> (r: Self)
        ensures
            r@ == self@.push(simple_property("url"@, SpecValue::Uri(uri@))),
    {
        proof {
            reveal_strlit("url");
        }
        self.add_simple("url", PropertyValue::Uri(owned(uri)))
    }

    /// Adds a `NOTE` property.
    pub fn note(self, text: &str) -> (r: Self)
        ensures
            r@ == self@.push(simple_property("note"@, SpecValue::Text(text@))),
    {
        proof {
            reveal_strlit("note");
        }
        self.add_simple("note", PropertyValue::Text(owned(text)))
    }

    /// Adds a `REV` (revision) property with a timestamp value.
    pub fn rev(self, timestamp: &str) -> (r: Self)
        ensures
            r@ == self@.push(simple_property("rev"@, SpecValue::Timestamp(timestamp@))),
    {
        proof {
            reveal_strlit("rev");
        }
        self.add_simple("rev", PropertyValue::Timestamp(owned(timestamp)))
    }

    /// Consumes the builder and returns the constructed [`JCard`].
    pub fn build(self) -> (r: JCard)
        ensures
            r@ == self@,
    {
        self.jcard
    }
}

} // verus!
