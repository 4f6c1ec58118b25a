//! What holds of every element that the engine reads: the attributes are a
//! closed set with defaults, and the children follow the order of the slots.

use crate::document::{document_spec, document_version_spec};
use crate::engine::{
    element_for, find_rule, first_owed, next_rule, parse_children_spec, parse_element_spec,
};
use crate::error::{ErrorKindView, ErrorView, TextPosition};
use crate::node::NodeView;
use crate::schema::{
    attribute_names, attribute_value, attribute_values, check_attributes_spec, first_undeclared,
    written_value, AttributeConfigurationView, AttributeOccurrencesView, ChildConfigurationView,
    ElementConfigurationView, SchemaView,
};
use crate::token::{attribute_views, AttributeView, Token};
use crate::utils::{attributes_at, name_at, start_element_spec};
use crate::value::{decode_spec, lemma_position_of, position_of, ValueKindView, ValueView};
use vstd::prelude::*;

verus! {

/// Whether the description `declared` has an attribute called `name`.
pub open spec fn declares(declared: Seq<AttributeConfigurationView>, name: Seq<char>) -> bool {
    position_of(attribute_names(declared), name) is Some
}

/// The first undeclared attribute is undeclared, every attribute before it is
/// declared, and there is none only where all attributes are declared.
pub proof fn lemma_first_undeclared(
    declared: Seq<AttributeConfigurationView>,
    written: Seq<AttributeView>,
)
    ensures
        match first_undeclared(declared, written) {
            Some(k) => 0 <= k < written.len() && !declares(declared, written[k].name) && forall|
                j: int,
            | 0 <= j < k ==> declares(declared, #[trigger] written[j].name),
            None => forall|j: int|
                0 <= j < written.len() ==> declares(declared, #[trigger] written[j].name),
        },
    decreases written.len(),
{
    if written.len() > 0 {
        let front = written.drop_last();
        lemma_first_undeclared(declared, front);
        assert(forall|j: int| 0 <= j < front.len() ==> front[j] == written[j]);
    }
}

/// The set of attributes of an element is closed: where an attribute is
/// written that the description of the element does not declare, the check
/// of the attributes fails with `UnexpectedAttribute`. The error names the
/// element and the first attribute that is not declared; where only one
/// attribute is not declared, that is the one.
pub proof fn lemma_closed_set(
    element: ElementConfigurationView,
    written: Seq<AttributeView>,
    i: int,
)
    requires
        0 <= i < written.len(),
        !declares(element.attributes, written[i].name),
    ensures
        check_attributes_spec(element, written) matches Err(
            ErrorKindView::UnexpectedAttribute { element: e, attribute: a, expected },
        ) && e == element.name && !declares(element.attributes, a) && expected == attribute_names(
            element.attributes,
        ) && exists|k: int| 0 <= k <= i && a == written[k].name,
        (forall|j: int|
            0 <= j < written.len() && j != i ==> declares(
                element.attributes,
                #[trigger] written[j].name,
            )) ==> check_attributes_spec(element, written) == Err::<
            Seq<Option<ValueView>>,
            ErrorKindView,
        >(
            ErrorKindView::UnexpectedAttribute {
                element: element.name,
                attribute: written[i].name,
                expected: attribute_names(element.attributes),
            },
        ),
{
    lemma_first_undeclared(element.attributes, written);
    let k = first_undeclared(element.attributes, written)->0;
    assert(0 <= k <= i && written[k].name == written[k].name);
}

/// An undeclared attribute is an error of the element before anything inside
/// the element is read: the engine fails at the position of the start of the
/// element, and its cursor does not move.
pub proof fn lemma_unexpected_attribute_first(
    schema: SchemaView,
    element: int,
    tokens: Seq<Token>,
    cursor: int,
    slot: int,
    i: int,
)
    requires
        0 < cursor <= tokens.len(),
        0 <= element < schema.elements.len(),
        !(schema.elements[element].content is Ignored),
        0 <= i < attributes_at(tokens, cursor - 1).len(),
        !declares(schema.elements[element].attributes, attributes_at(tokens, cursor - 1)[i]@.name),
    ensures
        parse_element_spec(schema, element, tokens, cursor, slot).1 == cursor,
        ({
            &&& parse_element_spec(schema, element, tokens, cursor, slot).0 matches Err(e)
            &&& e.position == tokens[cursor - 1].position
            &&& e.kind matches ErrorKindView::UnexpectedAttribute {
                element: name,
                attribute,
                expected,
            }
            &&& name == schema.elements[element].name
            &&& !declares(schema.elements[element].attributes, attribute)
        }),
{
    let written = attribute_views(attributes_at(tokens, cursor - 1));
    assert(written[i] == attributes_at(tokens, cursor - 1)[i]@);
    lemma_closed_set(schema.elements[element], written, i);
}

/// An attribute that no written attribute names has no written value.
pub proof fn lemma_absent(written: Seq<AttributeView>, name: Seq<char>)
    requires
        forall|j: int| 0 <= j < written.len() ==> (#[trigger] written[j]).name != name,
    ensures
        written_value(written, name) is None,
    decreases written.len(),
{
    if written.len() > 0 {
        let front = written.drop_last();
        assert(forall|j: int| 0 <= j < front.len() ==> front[j] == written[j]);
        lemma_absent(front, name);
    }
}

/// An attribute with a default that is not written has the default as its
/// value, and is never an error.
pub proof fn lemma_default_fallback(
    declared: AttributeConfigurationView,
    written: Seq<AttributeView>,
    element: Seq<char>,
    value: ValueView,
)
    requires
        declared.occurrences == AttributeOccurrencesView::OptionalWithDefault(value),
        forall|j: int| 0 <= j < written.len() ==> (#[trigger] written[j]).name != declared.name,
    ensures
        attribute_value(declared, written, element) == Ok::<Option<ValueView>, ErrorKindView>(
            Some(value),
        ),
{
    lemma_absent(written, declared.name);
}

/// The values of the declared attributes stand in the order of the
/// declarations, one for each.
pub proof fn lemma_attribute_values(
    declared: Seq<AttributeConfigurationView>,
    written: Seq<AttributeView>,
    element: Seq<char>,
)
    ensures
        attribute_values(declared, written, element) matches Ok(values) ==> values.len()
            == declared.len() && forall|k: int|
            0 <= k < declared.len() ==> attribute_value(#[trigger] declared[k], written, element)
                == Ok::<Option<ValueView>, ErrorKindView>(values[k]),
    decreases declared.len(),
{
    if declared.len() > 0 {
        let front = declared.drop_last();
        lemma_attribute_values(front, written, element);
        assert(forall|k: int| 0 <= k < front.len() ==> front[k] == declared[k]);
    }
}

/// Where the attributes of an element are accepted, each attribute with a
/// default that is not written has exactly its default in the result.
pub proof fn lemma_default_in_values(
    element: ElementConfigurationView,
    written: Seq<AttributeView>,
    k: int,
    value: ValueView,
)
    requires
        0 <= k < element.attributes.len(),
        element.attributes[k].occurrences == AttributeOccurrencesView::OptionalWithDefault(value),
        forall|j: int|
            0 <= j < written.len() ==> (#[trigger] written[j]).name != element.attributes[k].name,
        check_attributes_spec(element, written) is Ok,
    ensures
        check_attributes_spec(element, written)->Ok_0.len() == element.attributes.len(),
        check_attributes_spec(element, written)->Ok_0[k] == Some(value),
{
    lemma_attribute_values(element.attributes, written, element.name);
    lemma_default_fallback(element.attributes[k], written, element.name, value);
}

/// Whether the element that starts at `start` writes no attribute called
/// `name`.
pub open spec fn unwritten(tokens: Seq<Token>, start: int, name: Seq<char>) -> bool {
    forall|j: int|
        0 <= j < attribute_views(attributes_at(tokens, start)).len() ==> (#[trigger] attribute_views(
            attributes_at(tokens, start),
        )[j]).name != name
}

/// An error among the values of the declared attributes is the error of one
/// of them: the result is its place.
pub proof fn lemma_attribute_error_place(
    declared: Seq<AttributeConfigurationView>,
    written: Seq<AttributeView>,
    element: Seq<char>,
) -> (j: int)
    requires
        attribute_values(declared, written, element) is Err,
    ensures
        0 <= j < declared.len(),
        attribute_value(declared[j], written, element) == Err::<Option<ValueView>, ErrorKindView>(
            attribute_values(declared, written, element)->Err_0,
        ),
    decreases declared.len(),
{
    let front = declared.drop_last();
    if attribute_values(front, written, element) is Err {
        lemma_attribute_error_place(front, written, element)
    } else {
        declared.len() - 1
    }
}

/// An attribute with a default that is not written is never what the
/// attributes of an element are refused for: where they are refused and all
/// of them are declared, the error is that of another declared attribute,
/// whose place is the result.
pub proof fn lemma_default_is_no_error(
    element: ElementConfigurationView,
    written: Seq<AttributeView>,
    k: int,
    value: ValueView,
) -> (j: int)
    requires
        0 <= k < element.attributes.len(),
        element.attributes[k].occurrences == AttributeOccurrencesView::OptionalWithDefault(value),
        forall|j: int|
            0 <= j < written.len() ==> (#[trigger] written[j]).name != element.attributes[k].name,
        first_undeclared(element.attributes, written) is None,
        check_attributes_spec(element, written) is Err,
    ensures
        0 <= j < element.attributes.len(),
        j != k,
        attribute_value(element.attributes[j], written, element.name) == Err::<
            Option<ValueView>,
            ErrorKindView,
        >(check_attributes_spec(element, written)->Err_0),
{
    lemma_default_fallback(element.attributes[k], written, element.name, value);
    lemma_attribute_error_place(element.attributes, written, element.name)
}

/// The attributes of an element are refused for a missing attribute only
/// where a required attribute is not written: the result is the place of that
/// attribute among the declared ones.
pub proof fn lemma_missing_attribute(
    element: ElementConfigurationView,
    written: Seq<AttributeView>,
    attribute: Seq<char>,
) -> (j: int)
    requires
        check_attributes_spec(element, written) == Err::<Seq<Option<ValueView>>, ErrorKindView>(
            ErrorKindView::MissingAttribute { element: element.name, attribute },
        ),
    ensures
        0 <= j < element.attributes.len(),
        element.attributes[j].name == attribute,
        element.attributes[j].occurrences is Required,
        written_value(written, attribute) is None,
{
    lemma_attribute_error_place(element.attributes, written, element.name)
}

/// An element that the engine accepts and that does not write an attribute
/// with a default has exactly the default for it in its node.
pub proof fn lemma_element_default(
    schema: SchemaView,
    element: int,
    tokens: Seq<Token>,
    cursor: int,
    slot: int,
    k: int,
    value: ValueView,
)
    requires
        0 < cursor <= tokens.len(),
        0 <= element < schema.elements.len(),
        !(schema.elements[element].content is Ignored),
        0 <= k < schema.elements[element].attributes.len(),
        schema.elements[element].attributes[k].occurrences
            == AttributeOccurrencesView::OptionalWithDefault(value),
        unwritten(tokens, cursor - 1, schema.elements[element].attributes[k].name),
    ensures
        parse_element_spec(schema, element, tokens, cursor, slot).0 matches Ok(node)
            ==> node.attribute(k) == Some(value),
{
    let config = schema.elements[element];
    let written = attribute_views(attributes_at(tokens, cursor - 1));
    if check_attributes_spec(config, written) is Ok {
        lemma_default_in_values(config, written, k, value);
    }
}

/// Whether none of the slots from `rule` on accepts the name.
pub open spec fn accepts_none(rules: Seq<ChildConfigurationView>, rule: int, name: Seq<char>) -> bool {
    forall|j: int| rule <= j < rules.len() ==> !(#[trigger] rules[j]).accepts(name)
}

/// Whether the search for a slot stops at the slot `at`: it is still owed a
/// child, and neither it nor a slot before it accepts the name.
pub open spec fn stops_at(
    rules: Seq<ChildConfigurationView>,
    rule: int,
    met: bool,
    name: Seq<char>,
    at: int,
) -> bool {
    &&& rule <= at < rules.len()
    &&& rules[at].occurrences.owed(at == rule && met)
    &&& forall|j: int| rule <= j <= at ==> !(#[trigger] rules[j]).accepts(name)
}

/// The slot that takes a child is the first slot, from the first open one on,
/// that accepts the name of the child, and no slot before it is still owed a
/// child. Where no slot takes the child, either no slot accepts its name, or
/// a slot that does not accept it is still owed a child and no slot before
/// that one accepts the name.
pub proof fn lemma_find_rule(
    rules: Seq<ChildConfigurationView>,
    rule: int,
    met: bool,
    name: Seq<char>,
)
    requires
        0 <= rule,
    ensures
        match find_rule(rules, rule, met, name) {
            Some(i) => {
                &&& rule <= i < rules.len()
                &&& rules[i].accepts(name)
                &&& forall|j: int|
                    rule <= j < i ==> !(#[trigger] rules[j]).accepts(name)
                        && !rules[j].occurrences.owed(j == rule && met)
            },
            None => accepts_none(rules, rule, name) || exists|at: int| #[trigger]
                stops_at(rules, rule, met, name, at),
        },
    decreases rules.len() - rule,
{
    if rule < rules.len() && !rules[rule].accepts(name) {
        if rules[rule].occurrences.owed(met) {
            assert(stops_at(rules, rule, met, name, rule));
        } else {
            lemma_find_rule(rules, rule + 1, false, name);
            if find_rule(rules, rule, met, name) is None {
                if accepts_none(rules, rule + 1, name) {
                    assert(accepts_none(rules, rule, name));
                } else {
                    let at = choose|at: int| #[trigger] stops_at(rules, rule + 1, false, name, at);
                    assert(stops_at(rules, rule, met, name, at));
                }
            }
        }
    }
}

/// The slot that is found to be owed a child is the first such slot from the
/// first open one on; where none is found, no slot is owed a child.
pub proof fn lemma_first_owed(rules: Seq<ChildConfigurationView>, rule: int, met: bool)
    requires
        0 <= rule,
    ensures
        match first_owed(rules, rule, met) {
            Some(i) => rule <= i < rules.len() && rules[i].occurrences.owed(i == rule && met)
                && forall|j: int|
                rule <= j < i ==> !(#[trigger] rules[j]).occurrences.owed(j == rule && met),
            None => forall|j: int|
                rule <= j < rules.len() ==> !(#[trigger] rules[j]).occurrences.owed(
                    j == rule && met,
                ),
        },
    decreases rules.len() - rule,
{
    if rule < rules.len() && !rules[rule].occurrences.owed(met) {
        lemma_first_owed(rules, rule + 1, false);
    }
}

/// Whether the slot `slot` holds one of `children`.
pub open spec fn filled(children: Seq<NodeView>, slot: int) -> bool {
    exists|i: int| 0 <= i < children.len() && (#[trigger] children[i]).slot == slot
}

/// Whether `children` follow the order of `rules`: every child stands in a
/// slot that accepts its name, the slots of the children never go back, and
/// only a slot that may be filled again holds more than one child.
pub open spec fn in_order(rules: Seq<ChildConfigurationView>, children: Seq<NodeView>) -> bool {
    &&& forall|i: int|
        0 <= i < children.len() ==> 0 <= (#[trigger] children[i]).slot < rules.len()
            && rules[children[i].slot].accepts(children[i].name)
    &&& forall|i: int, j: int|
        0 <= i < j < children.len() ==> (#[trigger] children[i]).slot <= (
        #[trigger] children[j]).slot
    &&& forall|i: int, j: int|
        0 <= i < j < children.len() && (#[trigger] children[i]).slot == (
        #[trigger] children[j]).slot ==> rules[children[i].slot].occurrences.repeats()
}

/// Whether every slot of `rules` that must hold a child holds one of
/// `children`.
pub open spec fn complete(rules: Seq<ChildConfigurationView>, children: Seq<NodeView>) -> bool {
    forall|r: int|
        0 <= r < rules.len() && (#[trigger] rules[r]).occurrences.owed(false) ==> filled(
            children,
            r,
        )
}

/// Whether the children `done` are what the engine may have read when `rule`
/// is the first open slot and `met` says whether it is filled.
pub open spec fn on_the_way(
    rules: Seq<ChildConfigurationView>,
    done: Seq<NodeView>,
    rule: int,
    met: bool,
) -> bool {
    &&& 0 <= rule <= rules.len()
    &&& in_order(rules, done)
    &&& forall|i: int|
        0 <= i < done.len() ==> (#[trigger] done[i]).slot < rule || (done[i].slot == rule && met)
    &&& met ==> rule < rules.len() && rules[rule].occurrences.repeats() && filled(done, rule)
    &&& forall|r: int|
        0 <= r < rule && (#[trigger] rules[r]).occurrences.owed(false) ==> filled(done, r)
}

/// The node that the engine builds for an element has the name of the
/// element and stands in the slot that was asked for.
pub proof fn lemma_node_identity(
    schema: SchemaView,
    element: int,
    tokens: Seq<Token>,
    cursor: int,
    slot: int,
)
    requires
        0 < cursor <= tokens.len(),
    ensures
        parse_element_spec(schema, element, tokens, cursor, slot).0 matches Ok(node) ==> node.slot
            == slot && node.name == name_at(tokens, cursor - 1),
{
}

/// The children of every element that the engine accepts follow the grammar
/// of its slots: they stand in the order of the slots, each in a slot that
/// accepts its name, only a repeating slot holds more than one, and every
/// slot that must be filled is filled.
pub proof fn lemma_grammar_order(
    schema: SchemaView,
    parent: Seq<char>,
    rules: Seq<ChildConfigurationView>,
    tokens: Seq<Token>,
    cursor: int,
    opened: TextPosition,
)
    requires
        0 <= cursor,
    ensures
        parse_children_spec(
            schema,
            parent,
            rules,
            tokens,
            cursor,
            0,
            false,
            opened,
            Seq::empty(),
        ).0 matches Ok(children) ==> in_order(rules, children) && complete(rules, children),
{
    lemma_children_on_the_way(
        schema,
        parent,
        rules,
        tokens,
        cursor,
        0,
        false,
        opened,
        Seq::empty(),
    );
}

/// From any state that the engine may be in while it reads the children of an
/// element, the children that it ends with follow the grammar of the slots.
pub proof fn lemma_children_on_the_way(
    schema: SchemaView,
    parent: Seq<char>,
    rules: Seq<ChildConfigurationView>,
    tokens: Seq<Token>,
    cursor: int,
    rule: int,
    met: bool,
    opened: TextPosition,
    done: Seq<NodeView>,
)
    requires
        0 <= cursor,
        on_the_way(rules, done, rule, met),
    ensures
        parse_children_spec(schema, parent, rules, tokens, cursor, rule, met, opened, done).0
            matches Ok(children) ==> in_order(rules, children) && complete(rules, children),
    decreases tokens.len() - cursor,
{
    match start_element_spec(tokens, cursor, parent) {
        Err(e) => {},
        Ok(None) => {
            lemma_first_owed(rules, rule, met);
            if first_owed(rules, rule, met) is None {
                assert forall|r: int|
                    0 <= r < rules.len() && (#[trigger] rules[r]).occurrences.owed(
                        false,
                    ) implies filled(done, r) by {
                    if r >= rule {
                        assert(!rules[r].occurrences.owed(r == rule && met));
                    }
                }
            }
        },
        Ok(Some(_)) => {
            let name = name_at(tokens, cursor);
            lemma_find_rule(rules, rule, met, name);
            match find_rule(rules, rule, met, name) {
                None => {},
                Some(i) => {
                    let child = crate::engine::element_for(rules[i], name);
                    let found = parse_element_spec(schema, child, tokens, cursor + 1, i);
                    lemma_node_identity(schema, child, tokens, cursor + 1, i);
                    match found.0 {
                        Err(e) => {},
                        Ok(node) => {
                            if cursor < found.1 <= tokens.len() {
                                let after = done.push(node);
                                let rule2 = next_rule(rules, i);
                                let met2 = rules[i].occurrences.repeats();
                                assert(after[done.len() as int] == node);
                                assert forall|k: int| 0 <= k < after.len() implies 0 <= (
                                #[trigger] after[k]).slot < rules.len()
                                    && rules[after[k].slot].accepts(after[k].name) by {
                                    if k < done.len() {
                                        assert(after[k] == done[k]);
                                    }
                                }
                                assert forall|a: int, b: int|
                                    0 <= a < b < after.len() implies (#[trigger] after[a]).slot <= (
                                #[trigger] after[b]).slot by {
                                    assert(after[a] == done[a]);
                                    if b < done.len() {
                                        assert(after[b] == done[b]);
                                    }
                                }
                                assert forall|a: int, b: int|
                                    0 <= a < b < after.len() && (#[trigger] after[a]).slot == (
                                    #[trigger] after[b]).slot implies rules[after[a].slot].occurrences.repeats() by {
                                    assert(after[a] == done[a]);
                                    if b < done.len() {
                                        assert(after[b] == done[b]);
                                    }
                                }
                                assert forall|k: int| 0 <= k < after.len() implies (
                                #[trigger] after[k]).slot < rule2 || (after[k].slot == rule2
                                    && met2) by {
                                    if k < done.len() {
                                        assert(after[k] == done[k]);
                                    }
                                }
                                assert(filled(after, i));
                                assert forall|r: int|
                                    0 <= r < rule2 && (#[trigger] rules[r]).occurrences.owed(
                                        false,
                                    ) implies filled(after, r) by {
                                    if r < rule {
                                        let w = choose|w: int|
                                            0 <= w < done.len() && (#[trigger] done[w]).slot == r;
                                        assert(after[w] == done[w]);
                                    } else if r < i {
                                        assert(!rules[r].occurrences.owed(r == rule && met));
                                        let w = choose|w: int|
                                            0 <= w < done.len() && (#[trigger] done[w]).slot
                                                == rule;
                                        assert(after[w] == done[w]);
                                    }
                                }
                                lemma_children_on_the_way(
                                    schema,
                                    parent,
                                    rules,
                                    tokens,
                                    found.1,
                                    rule2,
                                    met2,
                                    opened,
                                    after,
                                );
                            }
                        },
                    }
                },
            }
        },
    }
}

/// The node of every element with children that the engine accepts follows
/// the description of the element: it has one value, or none, for each
/// declared attribute, in the order of the declarations, and its children
/// follow the grammar of the slots.
pub proof fn lemma_node_conforms(
    schema: SchemaView,
    element: int,
    tokens: Seq<Token>,
    cursor: int,
    slot: int,
)
    requires
        0 < cursor <= tokens.len(),
        0 <= element < schema.elements.len(),
        schema.elements[element].content is Children,
    ensures
        parse_element_spec(schema, element, tokens, cursor, slot).0 matches Ok(node) ==> {
            &&& node.attributes.len() == schema.elements[element].attributes.len()
            &&& in_order(schema.elements[element].children(), node.children)
            &&& complete(schema.elements[element].children(), node.children)
        },
{
    let config = schema.elements[element];
    let written = attribute_views(attributes_at(tokens, cursor - 1));
    lemma_attribute_values(config.attributes, written, config.name);
    lemma_grammar_order(
        schema,
        config.name,
        config.children(),
        tokens,
        cursor,
        tokens[cursor - 1].position,
    );
}

/// Whether `value` has the shape of the values of the kind `kind`.
pub open spec fn of_kind(value: ValueView, kind: ValueKindView) -> bool {
    match kind {
        ValueKindView::Text => value is Text,
        ValueKindView::Integer => value is Integer,
        ValueKindView::Decimal => value is Decimal,
        ValueKindView::Time => value is Time,
        ValueKindView::Fragment => value is Text,
        ValueKindView::Integers => value is Integers,
        ValueKindView::Decimals => value is Decimals,
        ValueKindView::Enumerated(words) => value matches ValueView::Choice(i) && 0 <= i
            < words.len(),
    }
}

/// What a text is decoded to has the shape of the kind that was asked for.
pub proof fn lemma_decoded_kind(kind: ValueKindView, text: Seq<char>, element: Seq<char>)
    ensures
        decode_spec(kind, text, element) matches Ok(v) ==> of_kind(v, kind),
{
    match kind {
        ValueKindView::Enumerated(words) => {
            lemma_position_of(words, text);
        },
        _ => {},
    }
}

/// Where the attributes of an element are accepted, each required attribute
/// has a value of its kind: what its written text is decoded to.
pub proof fn lemma_required_attribute(
    element: ElementConfigurationView,
    written: Seq<AttributeView>,
    k: int,
)
    requires
        0 <= k < element.attributes.len(),
        element.attributes[k].occurrences is Required,
        check_attributes_spec(element, written) is Ok,
    ensures
        written_value(written, element.attributes[k].name) matches Some(text)
            && check_attributes_spec(element, written)->Ok_0[k] matches Some(v) && decode_spec(
            element.attributes[k].kind,
            text,
            element.name,
        ) == Ok::<ValueView, ErrorKindView>(v) && of_kind(v, element.attributes[k].kind),
{
    lemma_attribute_values(element.attributes, written, element.name);
    let text = written_value(written, element.attributes[k].name)->0;
    lemma_decoded_kind(element.attributes[k].kind, text, element.name);
}

/// Where the children of an element follow the grammar of its slots, every
/// slot that must be filled has a first child.
pub proof fn lemma_owed_child_present(
    rules: Seq<ChildConfigurationView>,
    node: NodeView,
    k: int,
)
    requires
        complete(rules, node.children),
        0 <= k < rules.len(),
        rules[k].occurrences.owed(false),
    ensures
        node.child(k) is Some,
        node.child(k)->0.slot == k,
{
    let test = crate::element::in_slot(k);
    let i = choose|i: int| 0 <= i < node.children.len() && (#[trigger] node.children[i]).slot == k;
    assert(test(node.children[i]));
    node.children.lemma_filter_contains(test, i);
    let kept = node.children.filter(test);
    let j = choose|j: int| 0 <= j < kept.len() && kept[j] == node.children[i];
    node.children.lemma_filter_pred(test, 0);
}

/// The engine reads forward: after an element the cursor stands at or after
/// the place where the contents of the element began, and within the tokens.
pub proof fn lemma_element_advances(
    schema: SchemaView,
    element: int,
    tokens: Seq<Token>,
    cursor: int,
    slot: int,
)
    requires
        0 < cursor <= tokens.len(),
    ensures
        cursor <= parse_element_spec(schema, element, tokens, cursor, slot).1 <= tokens.len(),
    decreases tokens.len() - cursor, 1int,
{
    if 0 <= element < schema.elements.len() {
        let config = schema.elements[element];
        crate::utils::lemma_skip_stop(tokens, cursor, config.name, 0);
        if !(config.content is Ignored) && check_attributes_spec(
            config,
            attribute_views(attributes_at(tokens, cursor - 1)),
        ) is Ok {
            match config.content {
                crate::schema::ContentView::Children(rules) => {
                    lemma_children_advance(
                        schema,
                        config.name,
                        rules,
                        tokens,
                        cursor,
                        0,
                        false,
                        tokens[cursor - 1].position,
                        Seq::empty(),
                    );
                },
                _ => {},
            }
        }
    } else {
        crate::utils::lemma_skip_stop(tokens, cursor, name_at(tokens, cursor - 1), 0);
    }
}

/// The engine reads forward: after the children of an element the cursor
/// stands at or after the place where they began, and within the tokens.
pub proof fn lemma_children_advance(
    schema: SchemaView,
    parent: Seq<char>,
    rules: Seq<ChildConfigurationView>,
    tokens: Seq<Token>,
    cursor: int,
    rule: int,
    met: bool,
    opened: TextPosition,
    done: Seq<NodeView>,
)
    requires
        0 <= cursor <= tokens.len(),
    ensures
        cursor <= parse_children_spec(
            schema,
            parent,
            rules,
            tokens,
            cursor,
            rule,
            met,
            opened,
            done,
        ).1 <= tokens.len(),
    decreases tokens.len() - cursor, 0int,
{
    if start_element_spec(tokens, cursor, parent) matches Ok(Some(_)) {
        let name = name_at(tokens, cursor);
        if find_rule(rules, rule, met, name) is Some {
            let i = find_rule(rules, rule, met, name)->0;
            let child = crate::engine::element_for(rules[i], name);
            let found = parse_element_spec(schema, child, tokens, cursor + 1, i);
            lemma_element_advances(schema, child, tokens, cursor + 1, i);
            if found.0 is Ok {
                let node = found.0->Ok_0;
                lemma_children_advance(
                    schema,
                    parent,
                    rules,
                    tokens,
                    found.1,
                    next_rule(rules, i),
                    rules[i].occurrences.repeats(),
                    opened,
                    done.push(node),
                );
            }
        }
    }
}

/// Whether `node` is what the engine makes of the element whose contents
/// begin at `cursor`, read with the description `element`.
pub open spec fn read_at(
    schema: SchemaView,
    element: int,
    tokens: Seq<Token>,
    cursor: int,
    node: NodeView,
) -> bool {
    &&& 0 < cursor <= tokens.len()
    &&& parse_element_spec(schema, element, tokens, cursor, node.slot).0 == Ok::<
        NodeView,
        ErrorView,
    >(node)
}

/// The slots of the description `element`; none where the schema has no such
/// description.
pub open spec fn rules_of(schema: SchemaView, element: int) -> Seq<ChildConfigurationView> {
    if 0 <= element < schema.elements.len() {
        schema.elements[element].children()
    } else {
        Seq::empty()
    }
}

/// The description that `child` follows under a parent with the slots
/// `rules`: the one that its slot gives for its name.
pub open spec fn child_element(rules: Seq<ChildConfigurationView>, child: NodeView) -> int {
    if 0 <= child.slot < rules.len() {
        element_for(rules[child.slot], child.name)
    } else {
        -1
    }
}

/// Whether `node` and every node below it is what the engine makes of an
/// element of `tokens`, each read with the description that its slot gives
/// for its name.
pub open spec fn read_through(
    schema: SchemaView,
    element: int,
    tokens: Seq<Token>,
    node: NodeView,
) -> bool
    decreases node,
{
    &&& exists|cursor: int| #[trigger] read_at(schema, element, tokens, cursor, node)
    &&& forall|k: int|
        0 <= k < node.children.len() ==> read_through(
            schema,
            child_element(rules_of(schema, element), #[trigger] node.children[k]),
            tokens,
            node.children[k],
        )
}

/// Whether each of `children` is read through, under a parent with the slots
/// `rules`.
pub open spec fn children_read(
    schema: SchemaView,
    rules: Seq<ChildConfigurationView>,
    tokens: Seq<Token>,
    children: Seq<NodeView>,
) -> bool {
    forall|k: int|
        0 <= k < children.len() ==> read_through(
            schema,
            child_element(rules, #[trigger] children[k]),
            tokens,
            children[k],
        )
}

/// The node of every element that the engine accepts is read through: what
/// holds of every element that the engine reads holds of every node of the
/// tree.
pub proof fn lemma_element_read(
    schema: SchemaView,
    element: int,
    tokens: Seq<Token>,
    cursor: int,
    slot: int,
)
    requires
        0 < cursor <= tokens.len(),
    ensures
        parse_element_spec(schema, element, tokens, cursor, slot).0 matches Ok(node)
            ==> read_through(schema, element, tokens, node),
    decreases tokens.len() - cursor, 1int,
{
    let found = parse_element_spec(schema, element, tokens, cursor, slot);
    if found.0 is Ok {
        let node = found.0->Ok_0;
        lemma_node_identity(schema, element, tokens, cursor, slot);
        assert(read_at(schema, element, tokens, cursor, node));
        if 0 <= element < schema.elements.len() {
            let config = schema.elements[element];
            match config.content {
                crate::schema::ContentView::Children(rules) => {
                    lemma_children_read(
                        schema,
                        config.name,
                        rules,
                        tokens,
                        cursor,
                        0,
                        false,
                        tokens[cursor - 1].position,
                        Seq::empty(),
                    );
                    assert(children_read(schema, rules, tokens, node.children));
                },
                _ => {
                    assert(node.children.len() == 0);
                },
            }
        } else {
            assert(node.children.len() == 0);
        }
    }
}

/// The children that the engine reads for an element are read through.
pub proof fn lemma_children_read(
    schema: SchemaView,
    parent: Seq<char>,
    rules: Seq<ChildConfigurationView>,
    tokens: Seq<Token>,
    cursor: int,
    rule: int,
    met: bool,
    opened: TextPosition,
    done: Seq<NodeView>,
)
    requires
        0 <= cursor <= tokens.len(),
        0 <= rule,
        children_read(schema, rules, tokens, done),
    ensures
        parse_children_spec(schema, parent, rules, tokens, cursor, rule, met, opened, done).0 matches Ok(
            children,
        ) ==> children_read(schema, rules, tokens, children),
    decreases tokens.len() - cursor, 0int,
{
    if start_element_spec(tokens, cursor, parent) matches Ok(Some(_)) {
        let name = name_at(tokens, cursor);
        if find_rule(rules, rule, met, name) is Some && 0 <= cursor < tokens.len() {
            let i = find_rule(rules, rule, met, name)->0;
            lemma_find_rule(rules, rule, met, name);
            let child = element_for(rules[i], name);
            let found = parse_element_spec(schema, child, tokens, cursor + 1, i);
            if found.0 is Ok && cursor < found.1 <= tokens.len() {
                let node = found.0->Ok_0;
                lemma_element_read(schema, child, tokens, cursor + 1, i);
                lemma_node_identity(schema, child, tokens, cursor + 1, i);
                let more = done.push(node);
                assert forall|k: int| 0 <= k < more.len() implies read_through(
                    schema,
                    child_element(rules, #[trigger] more[k]),
                    tokens,
                    more[k],
                ) by {
                    if k < done.len() {
                        assert(more[k] == done[k]);
                    }
                }
                lemma_children_read(
                    schema,
                    parent,
                    rules,
                    tokens,
                    found.1,
                    next_rule(rules, i),
                    rules[i].occurrences.repeats(),
                    opened,
                    more,
                );
            }
        }
    }
}

/// Every node of the tree of a document that is accepted is what the engine
/// makes of an element of the document.
pub proof fn lemma_document_read(
    schema: SchemaView,
    root: int,
    versions: Seq<Seq<char>>,
    tokens: Seq<Token>,
)
    ensures
        document_spec(schema, root, versions, tokens) matches Ok(node) ==> read_through(
            schema,
            root,
            tokens,
            node,
        ),
{
    if document_spec(schema, root, versions, tokens) is Ok {
        let found = document_version_spec(tokens)->Ok_0;
        lemma_element_read(schema, root, tokens, found.0 + 1, 0);
    }
}

/// Below a node that is read through, each child that fills a slot has a
/// name that the slot accepts, and is read through with the description that
/// the slot gives for the name.
pub proof fn lemma_child_read(
    schema: SchemaView,
    element: int,
    tokens: Seq<Token>,
    node: NodeView,
    slot: int,
    k: int,
)
    requires
        read_through(schema, element, tokens, node),
        0 <= k < node.children_of(slot).len(),
    ensures
        0 <= element < schema.elements.len(),
        0 <= slot < schema.elements[element].children().len(),
        schema.elements[element].children()[slot].accepts(node.children_of(slot)[k].name),
        read_through(
            schema,
            element_for(
                schema.elements[element].children()[slot],
                node.children_of(slot)[k].name,
            ),
            tokens,
            node.children_of(slot)[k],
        ),
{
    let test = crate::element::in_slot(slot);
    let child = node.children_of(slot)[k];
    node.children.lemma_filter_pred(test, k);
    assert(node.children.filter(test).contains(child));
    node.children.lemma_filter_contains_rev(test, child);
    let j = choose|j: int| 0 <= j < node.children.len() && node.children[j] == child;
    assert(child.slot == slot);
    let cursor = choose|cursor: int| #[trigger] read_at(schema, element, tokens, cursor, node);
    if 0 <= element < schema.elements.len() && schema.elements[element].content is Children {
        lemma_node_conforms(schema, element, tokens, cursor, node.slot);
        assert(0 <= node.children[j].slot < schema.elements[element].children().len());
    } else {
        assert(node.children.len() == 0);
    }
}

} // verus!
