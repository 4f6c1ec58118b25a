//! Type definitions common to all supported COLLADA specifications.

use crate::element::{
    choice_from, choice_of, copy_tokens, text_of, text_or_empty, text_or_empty_from, uri_from,
    uri_view, ColladaElement, DefaultElement,
};
use crate::error::{TimeError, TimeErrorKind};
use crate::node::{Node, NodeView};
use crate::schema::{
    container, declared_views, leaf, leaf_view, optional_attribute, optional_view,
    required_attribute, required_view, rule_views, ChildConfiguration, Content, ContentView,
    ElementConfiguration, ElementConfigurationView, TextOccurrences,
};
use crate::text::views;
use crate::token::{token_views, Token};
use crate::value::{ValueKind, ValueKindView};
use vstd::prelude::*;

verus! {

/// A URI in the COLLADA document.
#[derive(Debug, Clone, PartialEq, Eq)]
pub struct AnyUri(pub String);

impl AnyUri {
    /// Every text is taken as a URI, as it stands.
    pub fn from_str(string: &str) -> (r: AnyUri)
        ensures
            r.0@ == string@,
    {
        AnyUri(string.to_owned())
    }
}

impl From<String> for AnyUri {
    fn from(from: String) -> (r: AnyUri)
        ensures
            r.0 == from,
    {
        AnyUri(from)
    }
}

impl vstd::std_specs::convert::FromSpecImpl<String> for AnyUri {
    open spec fn obeys_from_spec() -> bool {
        true
    }

    open spec fn from_spec(from: String) -> AnyUri {
        AnyUri(from)
    }
}

/// A datetime value, with or without a timezone.
///
/// The moment is held as the seconds that have passed since the beginning of
/// 1970 and the nanoseconds after that second. With a timezone the seconds are
/// counted in UTC and `offset` says how many seconds east of UTC the timezone
/// is; without one they are counted on the clock that the document speaks of.
#[derive(Debug, Clone, Copy, PartialEq, Eq)]
pub enum DateTime {
    /// A timestamp with a known timezone, specified as a fixed offset from UTC.
    Utc { seconds: i64, nanos: u32, offset: i32 },
    /// A timestamp with no timezone.
    Naive { seconds: i64, nanos: u32 },
}

/// What `chrono` reads from `text` as a date and time with an offset from UTC:
/// seconds, nanoseconds and the offset in seconds, or why it reads none.
pub uninterp spec fn zoned_time(text: Seq<char>) -> Result<(i64, u32, i32), TimeErrorKind>;

/// What `chrono` reads from `text` as a date and time without a timezone:
/// seconds and nanoseconds, or why it reads none.
pub uninterp spec fn naive_time(text: Seq<char>) -> Result<(i64, u32), TimeErrorKind>;

/// Calls `<chrono::DateTime<chrono::FixedOffset> as FromStr>::from_str`, which
/// reads a relaxed form of RFC 3339 and depends on the text alone, and takes
/// the moment apart with `timestamp`, `timestamp_subsec_nanos` and
/// `FixedOffset::local_minus_utc`.
#[verifier::external_body]
fn parse_zoned(text: &str) -> (r: Result<(i64, u32, i32), TimeErrorKind>)
    ensures
        r == zoned_time(text@),
{
    match text.parse::<chrono::DateTime<chrono::FixedOffset>>() {
        Ok(t) => Ok((t.timestamp(), t.timestamp_subsec_nanos(), t.offset().local_minus_utc())),
        Err(e) => Err(match e.kind() {
            chrono::format::ParseErrorKind::OutOfRange => TimeErrorKind::OutOfRange,
            chrono::format::ParseErrorKind::Impossible => TimeErrorKind::Impossible,
            chrono::format::ParseErrorKind::NotEnough => TimeErrorKind::NotEnough,
            chrono::format::ParseErrorKind::Invalid => TimeErrorKind::Invalid,
            chrono::format::ParseErrorKind::TooShort => TimeErrorKind::TooShort,
            chrono::format::ParseErrorKind::TooLong => TimeErrorKind::TooLong,
            _ => TimeErrorKind::BadFormat,
        }),
    }
}

/// Calls `<chrono::NaiveDateTime as FromStr>::from_str`, which depends on the
/// text alone, and takes the moment apart with `and_utc`, `timestamp` and
/// `timestamp_subsec_nanos`.
#[verifier::external_body]
fn parse_naive(text: &str) -> (r: Result<(i64, u32), TimeErrorKind>)
    ensures
        r == naive_time(text@),
{
    match text.parse::<chrono::NaiveDateTime>() {
        Ok(t) => Ok((t.and_utc().timestamp(), t.and_utc().timestamp_subsec_nanos())),
        Err(e) => Err(match e.kind() {
            chrono::format::ParseErrorKind::OutOfRange => TimeErrorKind::OutOfRange,
            chrono::format::ParseErrorKind::Impossible => TimeErrorKind::Impossible,
            chrono::format::ParseErrorKind::NotEnough => TimeErrorKind::NotEnough,
            chrono::format::ParseErrorKind::Invalid => TimeErrorKind::Invalid,
            chrono::format::ParseErrorKind::TooShort => TimeErrorKind::TooShort,
            chrono::format::ParseErrorKind::TooLong => TimeErrorKind::TooLong,
            _ => TimeErrorKind::BadFormat,
        }),
    }
}

impl DateTime {
    /// The datetime that two readings of one text give: the reading with a
    /// timezone where it succeeded, else the reading without one, else the
    /// error of the latter.
    pub open spec fn decide(
        zoned: Result<(i64, u32, i32), TimeErrorKind>,
        naive: Result<(i64, u32), TimeErrorKind>,
    ) -> Result<DateTime, TimeError> {
        match zoned {
            Ok(t) => Ok(DateTime::Utc { seconds: t.0, nanos: t.1, offset: t.2 }),
            Err(_) => match naive {
                Ok(t) => Ok(DateTime::Naive { seconds: t.0, nanos: t.1 }),
                Err(kind) => Err(TimeError { kind }),
            },
        }
    }

    /// The datetime that `text` writes.
    pub open spec fn of(text: Seq<char>) -> Result<DateTime, TimeError> {
        Self::decide(zoned_time(text), naive_time(text))
    }

    /// Decides between the two readings of one text.
    pub fn from_readings(
        zoned: Result<(i64, u32, i32), TimeErrorKind>,
        naive: Result<(i64, u32), TimeErrorKind>,
    ) -> (r: Result<DateTime, TimeError>)
        ensures
            r == Self::decide(zoned, naive),
    {
        match zoned {
            Ok(t) => Ok(DateTime::Utc { seconds: t.0, nanos: t.1, offset: t.2 }),
            Err(_) => match naive {
                Ok(t) => Ok(DateTime::Naive { seconds: t.0, nanos: t.1 }),
                Err(kind) => Err(TimeError { kind }),
            },
        }
    }

    /// Reads a datetime: first as one with a timezone, and if that fails as one
    /// without.
    pub fn from_str(source: &str) -> (r: Result<DateTime, TimeError>)
        ensures
            r == Self::of(source@),
    {
        let zoned = parse_zoned(source);
        if zoned.is_ok() {
            Self::from_readings(zoned, Err(TimeErrorKind::Invalid))
        } else {
            Self::from_readings(zoned, parse_naive(source))
        }
    }
}

/// Describes the coordinate system for an asset.
///
/// All coordinates in a COLLADA document are right-handed, so describing the up
/// axis alone is enough to determine the other two axis.
///
/// | Value       | Right Axis | Up Axis    | In Axis    |
/// |-------------|------------|------------|------------|
/// | `UpAxis::X` | Negative Y | Positive X | Positive Z |
/// | `UpAxis::Y` | Positive X | Positive Y | Positive Z |
/// | `UpAxis::Z` | Positive X | Positive Z | Negative Y |
#[derive(Debug, Clone, Copy, PartialEq, Eq, Hash)]
pub enum UpAxis {
    X,
    Y,
    Z,
}

impl Default for UpAxis {
    fn default() -> (r: UpAxis)
        ensures
            r == UpAxis::Y,
    {
        UpAxis::Y
    }
}

impl UpAxis {
    /// The words that name the three axes, in the order of the variants.
    pub open spec fn words() -> Seq<Seq<char>> {
        seq!["X_UP"@, "Y_UP"@, "Z_UP"@]
    }

    /// What `<up_axis>` may hold: one of the three words, and no attributes.
    pub open spec fn description() -> ElementConfigurationView {
        leaf_view("up_axis"@, ValueKindView::Enumerated(Self::words()), TextOccurrences::EmptyIfAbsent)
    }

    /// What `<up_axis>` may hold.
    pub fn configuration() -> (r: ElementConfiguration)
        ensures
            r@ == Self::description(),
    {
        let words = vec!["X_UP", "Y_UP", "Z_UP"];
        assert(views(words@) =~= Self::words());
        leaf("up_axis", ValueKind::Enumerated(words), TextOccurrences::EmptyIfAbsent)
    }

    /// The axis that the word number `choice` names; the Y axis where there is
    /// no such word.
    pub open spec fn of_choice(choice: Option<int>) -> UpAxis {
        match choice {
            Some(i) => if i == 0 {
                UpAxis::X
            } else if i == 2 {
                UpAxis::Z
            } else {
                UpAxis::Y
            },
            None => UpAxis::Y,
        }
    }
}

impl ColladaElement for UpAxis {
    open spec fn represents(self, node: NodeView) -> bool {
        self == Self::of_choice(choice_of(node.text))
    }

    fn from_node(node: &Node) -> (r: Self) {
        match choice_from(node.text_value()) {
            Some(0) => UpAxis::X,
            Some(2) => UpAxis::Z,
            _ => UpAxis::Y,
        }
    }
}

impl DefaultElement for UpAxis {
    open spec fn is_default(self) -> bool {
        self == UpAxis::Y
    }

    fn default_value() -> (r: Self) {
        UpAxis::Y
    }
}

/// A decimal number, held as it was written in the document: an optional
/// sign, then `inf`, `infinity` or `nan`, or digits with at most one point
/// among them and an optional exponent.
#[derive(Debug, Clone, PartialEq, Eq)]
pub struct Decimal(pub String);

/// A reference to another element of the document by its identifier, which
/// the document writes after a `#`.
#[derive(Debug, Clone, PartialEq, Eq)]
pub struct UriFragment(pub String);

impl UriFragment {
    /// The identifier of the element that is referred to.
    pub fn id(&self) -> (r: &str)
        ensures
            r@ == self.0@,
    {
        self.0.as_str()
    }
}

/// Defines the unit of distance for an asset.
///
/// The unit of distance applies to all spatial measurements for the asset,
/// unless overridden by a more local `Unit`. A `Unit` is self-describing,
/// providing both its name and length in meters, and does not need to be
/// consistent with any real-world measurement.
#[derive(Debug, Clone, PartialEq, Eq)]
pub struct Unit {
    /// How many real-world meters in one distance unit. For example, 1.0 for
    /// the name "meter"; 1000 for the name "kilometer"; 0.3048 for the name
    /// "foot". Where the unit is left out it is `1.0`.
    pub meter: Decimal,
    /// The name of the distance unit. For example, "meter", "centimeter",
    /// "inch", or "parsec". Where the unit is left out it is "meter".
    pub name: String,
}

impl Default for Unit {
    fn default() -> (r: Unit)
        ensures
            r.meter.0@ == "1.0"@,
            r.name@ == "meter"@,
    {
        Unit { meter: Decimal("1.0".to_owned()), name: "meter".to_owned() }
    }
}

impl Unit {
    /// What `<unit>` may hold: the attributes `meter` and `name`.
    pub open spec fn description() -> ElementConfigurationView {
        ElementConfigurationView {
            name: "unit"@,
            attributes: seq![
                required_view("meter"@, ValueKindView::Decimal),
                required_view("name"@, ValueKindView::Text),
            ],
            content: ContentView::Children(Seq::empty()),
        }
    }

    /// What `<unit>` may hold.
    pub fn configuration() -> (r: ElementConfiguration)
        ensures
            r@ == Self::description(),
    {
        let attributes = vec![
            required_attribute("meter", ValueKind::Decimal),
            required_attribute("name", ValueKind::Text),
        ];
        assert(declared_views(attributes@) =~= Self::description().attributes);
        let rules: Vec<ChildConfiguration> = Vec::new();
        assert(rule_views(rules@) =~= Self::description().children());
        container("unit", attributes, rules)
    }
}

impl ColladaElement for Unit {
    open spec fn represents(self, node: NodeView) -> bool {
        &&& self.meter.0@ == text_or_empty(node.attribute(0))
        &&& self.name@ == text_or_empty(node.attribute(1))
    }

    fn from_node(node: &Node) -> (r: Self) {
        Unit {
            meter: Decimal(text_or_empty_from(node.attribute(0))),
            name: text_or_empty_from(node.attribute(1)),
        }
    }
}

impl DefaultElement for Unit {
    open spec fn is_default(self) -> bool {
        &&& self.meter.0@ == "1.0"@
        &&& self.name@ == "meter"@
    }

    fn default_value() -> (r: Self) {
        Unit { meter: Decimal("1.0".to_owned()), name: "meter".to_owned() }
    }
}

/// Arbitrary additional information, kept as the tokens of the document.
#[derive(Debug, Clone, PartialEq, Eq)]
pub struct Technique {
    /// A vendor-defined string that indicates the platform or capability
    /// target for the technique. Consuming applications need not support all
    /// (or any) profiles, and can safely ignore techniques with unknown or
    /// unsupported profiles.
    pub profile: String,
    /// The schema used for validating the contents of the `<technique>`
    /// element. Validation is left up to the consuming application.
    pub xmlns: Option<AnyUri>,
    /// The tokens for the data contained within the technique, without the
    /// start and the end of the `<technique>` element itself. As such they
    /// need not have a single root element.
    pub data: Vec<Token>,
}

impl Technique {
    /// What `<technique>` may hold: the attributes `profile` and `xmlns`, and
    /// any contents.
    pub open spec fn description() -> ElementConfigurationView {
        ElementConfigurationView {
            name: "technique"@,
            attributes: seq![
                required_view("profile"@, ValueKindView::Text),
                optional_view("xmlns"@, ValueKindView::Text),
            ],
            content: ContentView::Raw,
        }
    }

    /// What `<technique>` may hold.
    pub fn configuration() -> (r: ElementConfiguration)
        ensures
            r@ == Self::description(),
    {
        let attributes = vec![
            required_attribute("profile", ValueKind::Text),
            optional_attribute("xmlns", ValueKind::Text),
        ];
        assert(declared_views(attributes@) =~= Self::description().attributes);
        ElementConfiguration { name: "technique", attributes, content: Content::Raw }
    }
}

impl ColladaElement for Technique {
    open spec fn represents(self, node: NodeView) -> bool {
        &&& self.profile@ == text_or_empty(node.attribute(0))
        &&& uri_view(self.xmlns) == text_of(node.attribute(1))
        &&& token_views(self.data@) == node.raw
    }

    fn from_node(node: &Node) -> (r: Self) {
        Technique {
            profile: text_or_empty_from(node.attribute(0)),
            xmlns: uri_from(node.attribute(1)),
            data: copy_tokens(node.raw.as_slice()),
        }
    }
}

} // verus!
