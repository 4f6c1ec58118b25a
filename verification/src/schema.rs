//! The declarative description of what an element may hold, and the check of
//! an element's attributes against it.

use crate::error::{ErrorKind, ErrorKindView};
use crate::node::{option_view, slot_views};
use crate::text::{str_eq, views};
use crate::token::{Attribute, AttributeView};
use crate::value::{
    decode, decode_spec, lemma_position_found, position_of, DecimalList, Value, ValueKind,
    ValueKindView, ValueView,
};
use vstd::prelude::*;

verus! {

/// How often a child may occur.
#[derive(Debug, Clone, Copy, PartialEq, Eq)]
pub enum ChildOccurrences {
    /// At most once.
    Optional,
    /// At most once; where it is absent a fixed value stands for it.
    OptionalWithDefault,
    /// Exactly once.
    Required,
    /// Any number of times.
    Many,
    /// At least once.
    RequiredMany,
}

impl ChildOccurrences {
    /// Whether the child may occur again after it has occurred.
    pub open spec fn repeats(self) -> bool {
        self is Many || self is RequiredMany
    }

    /// Whether the child may occur again after it has occurred.
    pub fn may_repeat(&self) -> (r: bool)
        ensures
            r == self.repeats(),
    {
        match self {
            ChildOccurrences::Many | ChildOccurrences::RequiredMany => true,
            _ => false,
        }
    }

    /// Whether a child with these occurrences is still owed, where `met` says
    /// whether it has occurred already.
    pub open spec fn owed(self, met: bool) -> bool {
        self is Required || (self is RequiredMany && !met)
    }

    /// Whether a child with these occurrences is still owed.
    pub fn is_owed(&self, met: bool) -> (r: bool)
        ensures
            r == self.owed(met),
    {
        match self {
            ChildOccurrences::Required => true,
            ChildOccurrences::RequiredMany => !met,
            _ => false,
        }
    }
}

/// One slot for a child in the description of an element.
#[derive(Debug, Clone, PartialEq, Eq)]
pub struct ChildConfiguration {
    /// The names of the elements that may stand in this slot. With more than
    /// one name the slot is a choice between them.
    pub names: Vec<&'static str>,
    /// For each name, which description of the schema the element follows.
    pub elements: Vec<usize>,
    /// How often the slot may be filled.
    pub occurrences: ChildOccurrences,
}

/// What a [`ChildConfiguration`] holds, as mathematical values.
pub struct ChildConfigurationView {
    pub names: Seq<Seq<char>>,
    pub elements: Seq<usize>,
    pub occurrences: ChildOccurrences,
}

impl View for ChildConfiguration {
    type V = ChildConfigurationView;

    open spec fn view(&self) -> ChildConfigurationView {
        ChildConfigurationView {
            names: views(self.names@),
            elements: self.elements@,
            occurrences: self.occurrences,
        }
    }
}

impl ChildConfigurationView {
    /// Whether an element called `name` may stand in this slot.
    pub open spec fn accepts(self, name: Seq<char>) -> bool {
        position_of(self.names, name) is Some
    }
}

/// What each of `rules` holds, in order.
pub open spec fn rule_views(rules: Seq<ChildConfiguration>) -> Seq<ChildConfigurationView> {
    Seq::new(rules.len(), |i: int| rules[i]@)
}

/// Whether an attribute must be written.
#[derive(Debug, Clone, PartialEq, Eq)]
pub enum AttributeOccurrences {
    Required,
    Optional,
    /// Where the attribute is not written it has this value.
    OptionalWithDefault(Value),
}

/// What an [`AttributeOccurrences`] holds, as mathematical values.
pub enum AttributeOccurrencesView {
    Required,
    Optional,
    OptionalWithDefault(ValueView),
}

impl View for AttributeOccurrences {
    type V = AttributeOccurrencesView;

    open spec fn view(&self) -> AttributeOccurrencesView {
        match *self {
            AttributeOccurrences::Required => AttributeOccurrencesView::Required,
            AttributeOccurrences::Optional => AttributeOccurrencesView::Optional,
            AttributeOccurrences::OptionalWithDefault(v) => AttributeOccurrencesView::OptionalWithDefault(
                v@,
            ),
        }
    }
}

/// One attribute in the description of an element.
#[derive(Debug, Clone, PartialEq, Eq)]
pub struct AttributeConfiguration {
    pub name: &'static str,
    pub kind: ValueKind,
    pub occurrences: AttributeOccurrences,
}

/// What an [`AttributeConfiguration`] holds, as mathematical values.
pub struct AttributeConfigurationView {
    pub name: Seq<char>,
    pub kind: ValueKindView,
    pub occurrences: AttributeOccurrencesView,
}

impl View for AttributeConfiguration {
    type V = AttributeConfigurationView;

    open spec fn view(&self) -> AttributeConfigurationView {
        AttributeConfigurationView {
            name: self.name@,
            kind: self.kind@,
            occurrences: self.occurrences@,
        }
    }
}

/// What each of `declared` holds, in order.
pub open spec fn declared_views(declared: Seq<AttributeConfiguration>) -> Seq<
    AttributeConfigurationView,
> {
    Seq::new(declared.len(), |i: int| declared[i]@)
}

/// What becomes of an element without text.
#[derive(Debug, Clone, Copy, PartialEq, Eq)]
pub enum TextOccurrences {
    /// It is an error.
    Required,
    /// It has no value.
    Optional,
    /// It is decoded as the empty text.
    EmptyIfAbsent,
}

/// What stands between the start and the end of an element.
#[derive(Debug, Clone, PartialEq, Eq)]
pub enum Content {
    /// Child elements, in the order of the slots.
    Children(Vec<ChildConfiguration>),
    /// Text of the given kind.
    Text { kind: ValueKind, occurrences: TextOccurrences },
    /// Anything; the tokens are kept as they are.
    Raw,
    /// Anything; it is passed over, and so are the attributes.
    Ignored,
}

/// What a [`Content`] holds, as mathematical values.
pub enum ContentView {
    Children(Seq<ChildConfigurationView>),
    Text { kind: ValueKindView, occurrences: TextOccurrences },
    Raw,
    Ignored,
}

impl View for Content {
    type V = ContentView;

    open spec fn view(&self) -> ContentView {
        match *self {
            Content::Children(rules) => ContentView::Children(rule_views(rules@)),
            Content::Text { kind, occurrences } => ContentView::Text { kind: kind@, occurrences },
            Content::Raw => ContentView::Raw,
            Content::Ignored => ContentView::Ignored,
        }
    }
}

/// The description of one kind of element.
#[derive(Debug, Clone, PartialEq, Eq)]
pub struct ElementConfiguration {
    pub name: &'static str,
    pub attributes: Vec<AttributeConfiguration>,
    pub content: Content,
}

/// What an [`ElementConfiguration`] holds, as mathematical values.
pub struct ElementConfigurationView {
    pub name: Seq<char>,
    pub attributes: Seq<AttributeConfigurationView>,
    pub content: ContentView,
}

impl View for ElementConfiguration {
    type V = ElementConfigurationView;

    open spec fn view(&self) -> ElementConfigurationView {
        ElementConfigurationView {
            name: self.name@,
            attributes: declared_views(self.attributes@),
            content: self.content@,
        }
    }
}

impl ElementConfigurationView {
    /// The slots for the children of the element; none where it has no
    /// children.
    pub open spec fn children(self) -> Seq<ChildConfigurationView> {
        match self.content {
            ContentView::Children(rules) => rules,
            _ => Seq::empty(),
        }
    }
}

/// The descriptions of all the kinds of element of one version of the format.
/// The slots for children refer to them by their place in `elements`.
#[derive(Debug, Clone, PartialEq, Eq)]
pub struct Schema {
    pub elements: Vec<ElementConfiguration>,
}

/// What a [`Schema`] holds, as mathematical values.
pub struct SchemaView {
    pub elements: Seq<ElementConfigurationView>,
}

impl View for Schema {
    type V = SchemaView;

    open spec fn view(&self) -> SchemaView {
        SchemaView { elements: Seq::new(self.elements@.len(), |i: int| self.elements@[i]@) }
    }
}

/// A slot for the one element `name`, which follows the description
/// `element`.
pub open spec fn slot_view(name: Seq<char>, element: usize, occurrences: ChildOccurrences) -> ChildConfigurationView {
    ChildConfigurationView { names: seq![name], elements: seq![element], occurrences }
}

/// A slot for the one element `name`, which follows the description
/// `element`.
pub fn slot(name: &'static str, element: usize, occurrences: ChildOccurrences) -> (r:
    ChildConfiguration)
    ensures
        r@ == slot_view(name@, element, occurrences),
{
    let names = vec![name];
    let elements = vec![element];
    assert(views(names@) =~= seq![name@]);
    assert(elements@ =~= seq![element]);
    ChildConfiguration { names, elements, occurrences }
}

/// A slot for any one of several elements.
pub open spec fn choice_view(
    names: Seq<Seq<char>>,
    elements: Seq<usize>,
    occurrences: ChildOccurrences,
) -> ChildConfigurationView {
    ChildConfigurationView { names, elements, occurrences }
}

/// An attribute that must be written.
pub open spec fn required_view(name: Seq<char>, kind: ValueKindView) -> AttributeConfigurationView {
    AttributeConfigurationView { name, kind, occurrences: AttributeOccurrencesView::Required }
}

/// An attribute that may be left out.
pub open spec fn optional_view(name: Seq<char>, kind: ValueKindView) -> AttributeConfigurationView {
    AttributeConfigurationView { name, kind, occurrences: AttributeOccurrencesView::Optional }
}

/// An attribute that has the value `value` where it is left out.
pub open spec fn defaulted_view(
    name: Seq<char>,
    kind: ValueKindView,
    value: ValueView,
) -> AttributeConfigurationView {
    AttributeConfigurationView {
        name,
        kind,
        occurrences: AttributeOccurrencesView::OptionalWithDefault(value),
    }
}

/// An attribute that must be written.
pub fn required_attribute(name: &'static str, kind: ValueKind) -> (r: AttributeConfiguration)
    ensures
        r@ == required_view(name@, kind@),
{
    AttributeConfiguration { name, kind, occurrences: AttributeOccurrences::Required }
}

/// An attribute that may be left out.
pub fn optional_attribute(name: &'static str, kind: ValueKind) -> (r: AttributeConfiguration)
    ensures
        r@ == optional_view(name@, kind@),
{
    AttributeConfiguration { name, kind, occurrences: AttributeOccurrences::Optional }
}

/// An attribute that has the value `value` where it is left out.
pub fn defaulted_attribute(name: &'static str, kind: ValueKind, value: Value) -> (r:
    AttributeConfiguration)
    ensures
        r@ == defaulted_view(name@, kind@, value@),
{
    AttributeConfiguration { name, kind, occurrences: AttributeOccurrences::OptionalWithDefault(value) }
}

/// A slot for any one of several elements.
pub fn choice(names: Vec<&'static str>, elements: Vec<usize>, occurrences: ChildOccurrences) -> (r:
    ChildConfiguration)
    ensures
        r@ == (ChildConfigurationView { names: views(names@), elements: elements@, occurrences }),
{
    ChildConfiguration { names, elements, occurrences }
}

/// An attribute of the description of an element.
pub fn attribute(name: &'static str, kind: ValueKind, occurrences: AttributeOccurrences) -> (r:
    AttributeConfiguration)
    ensures
        r@ == (AttributeConfigurationView { name: name@, kind: kind@, occurrences: occurrences@ }),
{
    AttributeConfiguration { name, kind, occurrences }
}

/// The description of an element without attributes that holds text.
pub open spec fn leaf_view(name: Seq<char>, kind: ValueKindView, occurrences: TextOccurrences) -> ElementConfigurationView {
    ElementConfigurationView {
        name,
        attributes: Seq::empty(),
        content: ContentView::Text { kind, occurrences },
    }
}

/// The description of an element without attributes that holds text.
pub fn leaf(name: &'static str, kind: ValueKind, occurrences: TextOccurrences) -> (r:
    ElementConfiguration)
    ensures
        r@ == leaf_view(name@, kind@, occurrences),
{
    let attributes: Vec<AttributeConfiguration> = Vec::new();
    assert(declared_views(attributes@) =~= Seq::<AttributeConfigurationView>::empty());
    ElementConfiguration { name, attributes, content: Content::Text { kind, occurrences } }
}

/// The description of an element that is passed over.
pub open spec fn ignored_view(name: Seq<char>) -> ElementConfigurationView {
    ElementConfigurationView { name, attributes: Seq::empty(), content: ContentView::Ignored }
}

/// The description of an element that is passed over.
pub fn ignored(name: &'static str) -> (r: ElementConfiguration)
    ensures
        r@ == ignored_view(name@),
{
    let attributes: Vec<AttributeConfiguration> = Vec::new();
    assert(declared_views(attributes@) =~= Seq::<AttributeConfigurationView>::empty());
    ElementConfiguration { name, attributes, content: Content::Ignored }
}

/// The description of an element that holds child elements.
pub fn container(
    name: &'static str,
    attributes: Vec<AttributeConfiguration>,
    rules: Vec<ChildConfiguration>,
) -> (r: ElementConfiguration)
    ensures
        r@ == (ElementConfigurationView {
            name: name@,
            attributes: declared_views(attributes@),
            content: ContentView::Children(rule_views(rules@)),
        }),
{
    ElementConfiguration { name, attributes, content: Content::Children(rules) }
}

/// The names of the attributes that `declared` describes, in order.
pub open spec fn attribute_names(declared: Seq<AttributeConfigurationView>) -> Seq<Seq<char>> {
    Seq::new(declared.len(), |i: int| declared[i].name)
}

/// The first written attribute that `declared` does not describe.
pub open spec fn first_undeclared(
    declared: Seq<AttributeConfigurationView>,
    written: Seq<AttributeView>,
) -> Option<int>
    decreases written.len(),
{
    if written.len() == 0 {
        None
    } else {
        match first_undeclared(declared, written.drop_last()) {
            Some(i) => Some(i),
            None => if position_of(attribute_names(declared), written.last().name) is None {
                Some(written.len() - 1)
            } else {
                None
            },
        }
    }
}

/// The value that was written for the attribute `name`: that of the last
/// attribute of this name.
pub open spec fn written_value(written: Seq<AttributeView>, name: Seq<char>) -> Option<Seq<char>>
    decreases written.len(),
{
    if written.len() == 0 {
        None
    } else if written.last().name == name {
        Some(written.last().value)
    } else {
        written_value(written.drop_last(), name)
    }
}

/// The value of one declared attribute of the element `element`: the decoded
/// text where the attribute was written, else its default, else none; an error
/// where the text cannot be decoded or a required attribute was not written.
pub open spec fn attribute_value(
    declared: AttributeConfigurationView,
    written: Seq<AttributeView>,
    element: Seq<char>,
) -> Result<Option<ValueView>, ErrorKindView> {
    match written_value(written, declared.name) {
        Some(text) => match decode_spec(declared.kind, text, element) {
            Ok(v) => Ok(Some(v)),
            Err(e) => Err(e),
        },
        None => match declared.occurrences {
            AttributeOccurrencesView::Required => Err(
                ErrorKindView::MissingAttribute { element, attribute: declared.name },
            ),
            AttributeOccurrencesView::Optional => Ok(None),
            AttributeOccurrencesView::OptionalWithDefault(v) => Ok(Some(v)),
        },
    }
}

/// The values of the declared attributes, in order, or the first error among
/// them.
pub open spec fn attribute_values(
    declared: Seq<AttributeConfigurationView>,
    written: Seq<AttributeView>,
    element: Seq<char>,
) -> Result<Seq<Option<ValueView>>, ErrorKindView>
    decreases declared.len(),
{
    if declared.len() == 0 {
        Ok(Seq::empty())
    } else {
        match attribute_values(declared.drop_last(), written, element) {
            Err(e) => Err(e),
            Ok(front) => match attribute_value(declared.last(), written, element) {
                Err(e) => Err(e),
                Ok(v) => Ok(front.push(v)),
            },
        }
    }
}

/// What the attributes written on an element come to: an attribute that the
/// element may not have is an error before anything else; then each declared
/// attribute gets its value.
pub open spec fn check_attributes_spec(
    element: ElementConfigurationView,
    written: Seq<AttributeView>,
) -> Result<Seq<Option<ValueView>>, ErrorKindView> {
    match first_undeclared(element.attributes, written) {
        Some(i) => Err(
            ErrorKindView::UnexpectedAttribute {
                element: element.name,
                attribute: written[i].name,
                expected: attribute_names(element.attributes),
            },
        ),
        None => attribute_values(element.attributes, written, element.name),
    }
}

/// A copy of `value`.
pub fn copy_value(value: &Value) -> (r: Value)
    ensures
        r@ == value@,
{
    match value {
        Value::Text(s) => Value::Text(s.clone()),
        Value::Integer(n) => Value::Integer(*n),
        Value::Decimal(s) => Value::Decimal(s.clone()),
        Value::Time(t) => Value::Time(*t),
        Value::Integers(v) => {
            let mut out: Vec<usize> = Vec::new();
            let mut i: usize = 0;
            while i < v.len()
                invariant
                    i <= v.len(),
                    out@ == v@.take(i as int),
                decreases v.len() - i,
            {
                out.push(v[i]);
                assert(v@.take(i + 1) =~= v@.take(i as int).push(v@[i as int]));
                i += 1;
            }
            assert(v@.take(v.len() as int) =~= v@);
            Value::Integers(out)
        },
        Value::Decimals(list) => {
            let mut out: Vec<(usize, usize)> = Vec::new();
            let mut i: usize = 0;
            while i < list.spans.len()
                invariant
                    i <= list.spans.len(),
                    out@ == list.spans@.take(i as int),
                decreases list.spans.len() - i,
            {
                out.push(list.spans[i]);
                assert(list.spans@.take(i + 1) =~= list.spans@.take(i as int).push(
                    list.spans@[i as int],
                ));
                i += 1;
            }
            assert(list.spans@.take(list.spans.len() as int) =~= list.spans@);
            Value::Decimals(DecimalList { text: list.text.clone(), spans: out })
        },
        Value::Choice(i) => Value::Choice(*i),
    }
}

/// The names of the attributes that `declared` describes, in order.
pub fn collect_attribute_names(declared: &[AttributeConfiguration]) -> (r: Vec<&'static str>)
    ensures
        views(r@) == attribute_names(declared_views(declared@)),
{
    let mut names: Vec<&'static str> = Vec::new();
    let mut i: usize = 0;
    while i < declared.len()
        invariant
            i <= declared.len(),
            names@.len() == i,
            forall|k: int| 0 <= k < i ==> names@[k]@ == declared@[k].name@,
        decreases declared.len() - i,
    {
        names.push(declared[i].name);
        i += 1;
    }
    assert(views(names@) =~= attribute_names(declared_views(declared@)));
    names
}

/// Whether `declared` describes an attribute called `name`.
fn is_declared(declared: &[AttributeConfiguration], name: &str) -> (r: bool)
    ensures
        r == (position_of(attribute_names(declared_views(declared@)), name@) is Some),
{
    let ghost names = attribute_names(declared_views(declared@));
    let mut i: usize = 0;
    while i < declared.len()
        invariant
            i <= declared.len(),
            names == attribute_names(declared_views(declared@)),
            position_of(names.take(i as int), name@) is None,
        decreases declared.len() - i,
    {
        proof {
            lemma_position_found(names, i as int, name@);
        }
        if str_eq(declared[i].name, name) {
            return true;
        }
        i += 1;
    }
    assert(names.take(declared.len() as int) =~= names);
    false
}

/// The text that was written for the attribute `name`, if any.
pub fn find_written<'a>(written: &'a [Attribute], name: &str) -> (r: Option<&'a str>)
    ensures
        r.is_some() == written_value(crate::token::attribute_views(written@), name@).is_some(),
        r matches Some(text) ==> Some(text@) == written_value(
            crate::token::attribute_views(written@),
            name@,
        ),
{
    let ghost all = crate::token::attribute_views(written@);
    let mut i: usize = written.len();
    assert(all.take(i as int) =~= all);
    while i > 0
        invariant
            i <= written.len(),
            all == crate::token::attribute_views(written@),
            written_value(all, name@) == written_value(all.take(i as int), name@),
        decreases i,
    {
        assert(all.take(i as int).drop_last() =~= all.take(i - 1));
        if str_eq(written[i - 1].name.as_str(), name) {
            return Some(written[i - 1].value.as_str());
        }
        i -= 1;
    }
    None
}

/// Checks the attributes written on an element against its description, and
/// decodes them.
pub fn check_attributes(element: &ElementConfiguration, written: &[Attribute]) -> (r: Result<
    Vec<Option<Value>>,
    ErrorKind,
>)
    ensures
        match check_attributes_spec(element@, crate::token::attribute_views(written@)) {
            Ok(values) => r is Ok && slot_views(r->Ok_0@) == values,
            Err(e) => r is Err && r->Err_0@ == e,
        },
{
    let declared = element.attributes.as_slice();
    let ghost rules = declared_views(declared@);
    let ghost all = crate::token::attribute_views(written@);
    let mut i: usize = 0;
    while i < written.len()
        invariant
            i <= written.len(),
            declared@ == element.attributes@,
            rules == declared_views(declared@),
            all == crate::token::attribute_views(written@),
            first_undeclared(rules, all.take(i as int)) is None,
        decreases written.len() - i,
    {
        proof {
            assert(all.take(i + 1).drop_last() =~= all.take(i as int));
            lemma_undeclared_stays(rules, all, i + 1);
        }
        if !is_declared(declared, written[i].name.as_str()) {
            return Err(
                ErrorKind::UnexpectedAttribute {
                    element: element.name,
                    attribute: written[i].name.clone(),
                    expected: collect_attribute_names(declared),
                },
            );
        }
        i += 1;
    }
    assert(all.take(written.len() as int) =~= all);
    let mut values: Vec<Option<Value>> = Vec::new();
    let mut k: usize = 0;
    assert(slot_views(values@) =~= Seq::<Option<ValueView>>::empty());
    assert(rules.take(0).len() == 0);
    while k < declared.len()
        invariant
            k <= declared.len(),
            declared@ == element.attributes@,
            rules == declared_views(declared@),
            all == crate::token::attribute_views(written@),
            first_undeclared(rules, all) is None,
            attribute_values(rules.take(k as int), all, element.name@) == Ok::<
                Seq<Option<ValueView>>,
                ErrorKindView,
            >(slot_views(values@)),
        decreases declared.len() - k,
    {
        let rule = &declared[k];
        proof {
            assert(rules.take(k + 1).drop_last() =~= rules.take(k as int));
            assert(rules.take(k + 1).last() == rule@);
            lemma_attribute_error_stays(rules, k + 1, all, element.name@);
        }
        let ghost before = slot_views(values@);
        let value = match find_written(written, rule.name) {
            Some(text) => match decode(&rule.kind, text, element.name) {
                Ok(v) => Some(v),
                Err(e) => {
                    return Err(e);
                },
            },
            None => match &rule.occurrences {
                AttributeOccurrences::Required => {
                    return Err(
                        ErrorKind::MissingAttribute { element: element.name, attribute: rule.name },
                    );
                },
                AttributeOccurrences::Optional => None,
                AttributeOccurrences::OptionalWithDefault(v) => Some(copy_value(v)),
            },
        };
        values.push(value);
        assert(slot_views(values@) =~= before.push(option_view(value)));
        k += 1;
    }
    assert(rules.take(declared.len() as int) =~= rules);
    Ok(values)
}

/// An attribute that is not declared among the first `n` written ones is the
/// first such among all of them.
pub proof fn lemma_undeclared_stays(
    declared: Seq<AttributeConfigurationView>,
    written: Seq<AttributeView>,
    n: int,
)
    requires
        0 <= n <= written.len(),
    ensures
        first_undeclared(declared, written.take(n)) is Some ==> first_undeclared(declared, written)
            == first_undeclared(declared, written.take(n)),
    decreases written.len() - n,
{
    if n < written.len() {
        lemma_undeclared_stays(declared, written, n + 1);
        assert(written.take(n + 1).drop_last() =~= written.take(n));
    } else {
        assert(written.take(n) =~= written);
    }
}

/// An error among the first `n` declared attributes is the error of all of
/// them.
pub proof fn lemma_attribute_error_stays(
    declared: Seq<AttributeConfigurationView>,
    n: int,
    written: Seq<AttributeView>,
    element: Seq<char>,
)
    requires
        0 <= n <= declared.len(),
    ensures
        attribute_values(declared.take(n), written, element) is Err ==> attribute_values(
            declared,
            written,
            element,
        ) == attribute_values(declared.take(n), written, element),
    decreases declared.len() - n,
{
    if n < declared.len() {
        lemma_attribute_error_stays(declared, n + 1, written, element);
        assert(declared.take(n + 1).drop_last() =~= declared.take(n));
    } else {
        assert(declared.take(n) =~= declared);
    }
}

} // verus!
