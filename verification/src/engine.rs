//! The element parse engine: it reads the tokens of one element and of all
//! that is inside it, holds them against the description of the element, and
//! builds the element's node.

use crate::error::{Error, ErrorKind, ErrorKindView, ErrorView, Result, TextPosition};
use crate::node::{node_views, option_view, slot_views, Node, NodeView};
use crate::schema::{
    check_attributes, check_attributes_spec, rule_views, ChildConfiguration,
    ChildConfigurationView, Content, ContentView, ElementConfiguration, Schema, SchemaView,
};
use crate::text::{no_names, views};
use crate::token::{advance, attribute_views, token_views, Token, TokenReader};
use crate::utils::{
    attributes_at, lemma_skip_stop, name_at, skip_contents, skip_result, skip_stop, start_element,
    start_element_spec, text_contents, text_contents_spec, ElementStart,
};
use crate::value::{find_name, lemma_position_of, position_of};
use vstd::prelude::*;
use vstd::slice::slice_subrange;

verus! {

/// The slot that takes a child called `name`, where `rule` is the first slot
/// that is still open and `met` says whether it has been filled already: the
/// first slot from `rule` on that accepts the name, unless a slot before it
/// is still owed a child.
pub open spec fn find_rule(
    rules: Seq<ChildConfigurationView>,
    rule: int,
    met: bool,
    name: Seq<char>,
) -> Option<int>
    decreases rules.len() - rule,
{
    if rule < 0 || rule >= rules.len() {
        None
    } else if rules[rule].accepts(name) {
        Some(rule)
    } else if rules[rule].occurrences.owed(met) {
        None
    } else {
        find_rule(rules, rule + 1, false, name)
    }
}

/// The first slot from `rule` on that is still owed a child.
pub open spec fn first_owed(rules: Seq<ChildConfigurationView>, rule: int, met: bool) -> Option<int>
    decreases rules.len() - rule,
{
    if rule < 0 || rule >= rules.len() {
        None
    } else if rules[rule].occurrences.owed(met) {
        Some(rule)
    } else {
        first_owed(rules, rule + 1, false)
    }
}

/// The names that all of `rules` accept, in the order of the slots.
pub open spec fn all_names(rules: Seq<ChildConfigurationView>) -> Seq<Seq<char>>
    decreases rules.len(),
{
    if rules.len() == 0 {
        Seq::empty()
    } else {
        all_names(rules.drop_last()) + rules.last().names
    }
}

/// The names that the slots of `rules` from `rule` on accept, in the order of
/// the slots: what a child may be called once the slots before `rule` are
/// closed.
pub open spec fn names_from(rules: Seq<ChildConfigurationView>, rule: int) -> Seq<Seq<char>> {
    if 0 <= rule <= rules.len() {
        all_names(rules.subrange(rule, rules.len() as int))
    } else {
        Seq::empty()
    }
}

/// The first open slot after a child has filled the slot `taken`.
pub open spec fn next_rule(rules: Seq<ChildConfigurationView>, taken: int) -> int {
    if rules[taken].occurrences.repeats() {
        taken
    } else {
        taken + 1
    }
}

/// The description that an element called `name` follows where it fills the
/// slot `rule`.
pub open spec fn element_for(rule: ChildConfigurationView, name: Seq<char>) -> int {
    match position_of(rule.names, name) {
        Some(choice) => if 0 <= choice < rule.elements.len() {
            rule.elements[choice] as int
        } else {
            -1
        },
        None => -1,
    }
}

/// A node that holds nothing yet.
pub open spec fn bare_node(name: Seq<char>, position: TextPosition, slot: int) -> NodeView {
    NodeView {
        name,
        position,
        slot,
        attributes: Seq::empty(),
        children: Seq::empty(),
        text: None,
        raw: Seq::empty(),
    }
}

/// The node of the element that follows the description `element` of the
/// schema and whose start is the token before `cursor`, and the cursor after
/// the element; `slot` is the slot of its parent that it fills.
///
/// The attributes are checked first. Then the contents are read as the
/// description asks: children, text, or anything at all. An element whose
/// description the schema does not have is passed over.
pub open spec fn parse_element_spec(
    schema: SchemaView,
    element: int,
    tokens: Seq<Token>,
    cursor: int,
    slot: int,
) -> (core::result::Result<NodeView, ErrorView>, int)
    decreases tokens.len() - cursor, 1int,
{
    if !(0 < cursor <= tokens.len()) {
        (Err(arbitrary()), cursor)
    } else if !(0 <= element < schema.elements.len()) {
        let stop = skip_stop(tokens, cursor, name_at(tokens, cursor - 1), 0);
        (
            match skip_result(tokens, stop) {
                Err(e) => Err(e),
                Ok(_) => Ok(bare_node(name_at(tokens, cursor - 1), tokens[cursor - 1].position, slot)),
            },
            advance(tokens, stop),
        )
    } else {
        let config = schema.elements[element];
        let opened = tokens[cursor - 1].position;
        let base = bare_node(name_at(tokens, cursor - 1), opened, slot);
        if config.content is Ignored {
            let stop = skip_stop(tokens, cursor, config.name, 0);
            (
                match skip_result(tokens, stop) {
                    Err(e) => Err(e),
                    Ok(_) => Ok(base),
                },
                advance(tokens, stop),
            )
        } else {
            match check_attributes_spec(config, attribute_views(attributes_at(tokens, cursor - 1))) {
                Err(kind) => (Err(ErrorView { position: opened, kind }), cursor),
                Ok(values) => match config.content {
                    ContentView::Children(rules) => {
                        let found = parse_children_spec(
                            schema,
                            config.name,
                            rules,
                            tokens,
                            cursor,
                            0,
                            false,
                            opened,
                            Seq::empty(),
                        );
                        (
                            match found.0 {
                                Err(e) => Err(e),
                                Ok(children) => Ok(
                                    NodeView { attributes: values, children, ..base },
                                ),
                            },
                            found.1,
                        )
                    },
                    ContentView::Text { kind, occurrences } => {
                        let found = text_contents_spec(
                            tokens,
                            cursor,
                            config.name,
                            kind,
                            occurrences,
                        );
                        (
                            match found.0 {
                                Err(e) => Err(e),
                                Ok(text) => Ok(NodeView { attributes: values, text, ..base }),
                            },
                            found.1,
                        )
                    },
                    _ => {
                        let stop = skip_stop(tokens, cursor, config.name, 0);
                        (
                            match skip_result(tokens, stop) {
                                Err(e) => Err(e),
                                Ok(_) => Ok(
                                    NodeView {
                                        attributes: values,
                                        raw: token_views(tokens.subrange(cursor, stop)),
                                        ..base
                                    },
                                ),
                            },
                            advance(tokens, stop),
                        )
                    },
                },
            }
        }
    }
}

/// The children of the element `parent` from `cursor` on, and the cursor
/// after the end of `parent`. `rule` is the first slot that is still open,
/// `met` says whether it has been filled already, `opened` is where `parent`
/// begins, and `done` holds the children that were read before.
///
/// A child fills the first slot from `rule` on that accepts its name; a child
/// that no such slot accepts, or that would leave a slot without the child
/// it is owed, is unexpected, and the error lists the names that the slots
/// from `rule` on accept. At the end of `parent` no slot may be owed a child.
pub open spec fn parse_children_spec(
    schema: SchemaView,
    parent: Seq<char>,
    rules: Seq<ChildConfigurationView>,
    tokens: Seq<Token>,
    cursor: int,
    rule: int,
    met: bool,
    opened: TextPosition,
    done: Seq<NodeView>,
) -> (core::result::Result<Seq<NodeView>, ErrorView>, int)
    decreases tokens.len() - cursor, 0int,
{
    match start_element_spec(tokens, cursor, parent) {
        Err(e) => (Err(e), advance(tokens, cursor)),
        Ok(None) => (
            match first_owed(rules, rule, met) {
                Some(i) => Err(
                    ErrorView {
                        position: opened,
                        kind: ErrorKindView::MissingElement { parent, expected: rules[i].names },
                    },
                ),
                None => Ok(done),
            },
            advance(tokens, cursor),
        ),
        Ok(Some(_)) => match find_rule(rules, rule, met, name_at(tokens, cursor)) {
            None => (
                Err(
                    ErrorView {
                        position: tokens[cursor].position,
                        kind: ErrorKindView::UnexpectedElement {
                            parent,
                            element: name_at(tokens, cursor),
                            expected: names_from(rules, rule),
                        },
                    },
                ),
                cursor + 1,
            ),
            Some(i) => {
                let child = element_for(rules[i], name_at(tokens, cursor));
                if 0 <= cursor < tokens.len() {
                    let found = parse_element_spec(schema, child, tokens, cursor + 1, i);
                    match found.0 {
                        Err(e) => (Err(e), found.1),
                        Ok(node) => if cursor < found.1 <= tokens.len() {
                            parse_children_spec(
                                schema,
                                parent,
                                rules,
                                tokens,
                                found.1,
                                next_rule(rules, i),
                                rules[i].occurrences.repeats(),
                                opened,
                                done.push(node),
                            )
                        } else {
                            (Err(arbitrary()), found.1)
                        },
                    }
                } else {
                    (Err(arbitrary()), cursor)
                }
            },
        },
    }
}

/// A copy of `names`.
pub fn copy_names(names: &[&'static str]) -> (r: Vec<&'static str>)
    ensures
        views(r@) == views(names@),
{
    let mut out: Vec<&'static str> = Vec::new();
    let mut i: usize = 0;
    while i < names.len()
        invariant
            i <= names.len(),
            out@.len() == i,
            forall|k: int| 0 <= k < i ==> out@[k] == names@[k],
        decreases names.len() - i,
    {
        out.push(names[i]);
        i += 1;
    }
    assert(views(out@) =~= views(names@));
    out
}

/// The slot that takes a child called `name`, and which of the names of the
/// slot it is.
pub fn find_child_rule(rules: &[ChildConfiguration], rule: usize, met: bool, name: &str) -> (r:
    Option<(usize, usize)>)
    ensures
        match find_rule(rule_views(rules@), rule as int, met, name@) {
            Some(i) => r matches Some(p) && p.0 == i && 0 <= i < rules@.len() && rule <= i && Some(
                p.1 as int,
            ) == position_of(rules@[i]@.names, name@) && p.1 < rules@[i].names@.len(),
            None => r is None,
        },
{
    let ghost all = rule_views(rules@);
    let mut i: usize = rule;
    let mut seen: bool = met;
    while i < rules.len()
        invariant
            rule <= i,
            all == rule_views(rules@),
            find_rule(all, rule as int, met, name@) == find_rule(all, i as int, seen, name@),
        decreases rules.len() - i,
    {
        let current = &rules[i];
        assert(all[i as int] == current@);
        match find_name(current.names.as_slice(), name) {
            Some(choice) => {
                proof {
                    lemma_position_of(views(current.names@), name@);
                }
                return Some((i, choice));
            },
            None => {},
        }
        if current.occurrences.is_owed(seen) {
            return None;
        }
        seen = false;
        i += 1;
    }
    None
}

/// The description that the element with the name number `choice` of the slot
/// follows, if the slot gives one.
pub fn find_element(rule: &ChildConfiguration, choice: usize) -> (r: Option<usize>)
    ensures
        r == if choice < rule.elements@.len() {
            Some(rule.elements@[choice as int])
        } else {
            None
        },
{
    if choice < rule.elements.len() {
        Some(rule.elements[choice])
    } else {
        None
    }
}

/// The first slot from `rule` on that is still owed a child.
pub fn first_owed_rule(rules: &[ChildConfiguration], rule: usize, met: bool) -> (r: Option<usize>)
    ensures
        match first_owed(rule_views(rules@), rule as int, met) {
            Some(i) => r == Some(i as usize) && 0 <= i < rules@.len(),
            None => r is None,
        },
{
    let ghost all = rule_views(rules@);
    let mut i: usize = rule;
    let mut seen: bool = met;
    while i < rules.len()
        invariant
            rule <= i,
            all == rule_views(rules@),
            first_owed(all, rule as int, met) == first_owed(all, i as int, seen),
        decreases rules.len() - i,
    {
        assert(all[i as int] == rules@[i as int]@);
        if rules[i].occurrences.is_owed(seen) {
            return Some(i);
        }
        seen = false;
        i += 1;
    }
    None
}

/// The names that all of `rules` accept, in the order of the slots.
pub fn collect_names(rules: &[ChildConfiguration]) -> (r: Vec<&'static str>)
    ensures
        views(r@) == all_names(rule_views(rules@)),
{
    let ghost all = rule_views(rules@);
    let mut names: Vec<&'static str> = Vec::new();
    let mut i: usize = 0;
    assert(views(names@) =~= all_names(all.take(0)));
    while i < rules.len()
        invariant
            i <= rules.len(),
            all == rule_views(rules@),
            views(names@) == all_names(all.take(i as int)),
        decreases rules.len() - i,
    {
        let current = &rules[i];
        let ghost before = names@;
        let mut k: usize = 0;
        while k < current.names.len()
            invariant
                k <= current.names.len(),
                names@ == before + current.names@.take(k as int),
            decreases current.names.len() - k,
        {
            names.push(current.names[k]);
            assert(current.names@.take(k + 1) =~= current.names@.take(k as int).push(
                current.names@[k as int],
            ));
            assert(names@ =~= before + current.names@.take(k + 1));
            k += 1;
        }
        proof {
            assert(current.names@.take(current.names.len() as int) =~= current.names@);
            assert(all.take(i + 1).drop_last() =~= all.take(i as int));
            assert(all.take(i + 1).last() == current@);
            assert(views(names@) =~= views(before) + views(current.names@));
        }
        i += 1;
    }
    assert(all.take(rules.len() as int) =~= all);
    names
}

/// The names that the slots of `rules` from `rule` on accept, in the order of
/// the slots.
pub fn collect_names_from(rules: &[ChildConfiguration], rule: usize) -> (r: Vec<&'static str>)
    ensures
        views(r@) == names_from(rule_views(rules@), rule as int),
{
    if rule > rules.len() {
        no_names()
    } else {
        let rest = slice_subrange(rules, rule, rules.len());
        assert(rule_views(rest@) =~= rule_views(rules@).subrange(
            rule as int,
            rules@.len() as int,
        ));
        collect_names(rest)
    }
}

impl ElementConfiguration {
    /// The names of all the children that the element may have.
    pub fn collect_expected_children(&self) -> (r: Vec<&'static str>)
        ensures
            views(r@) == all_names(self@.children()),
    {
        match &self.content {
            Content::Children(rules) => collect_names(rules.as_slice()),
            _ => {
                let none: Vec<ChildConfiguration> = Vec::new();
                assert(rule_views(none@) =~= Seq::<ChildConfigurationView>::empty());
                collect_names(none.as_slice())
            },
        }
    }

    /// Reads the children of the element, which begins at `opened`, and its
    /// end.
    pub fn parse_children(&self, schema: &Schema, reader: &mut TokenReader, opened: TextPosition) -> (r:
        Result<Vec<Node>>)
        ensures
            final(reader).tokens() == old(reader).tokens(),
            old(reader).cursor() <= final(reader).cursor() <= old(reader).tokens().len(),
            ({
                let expected = parse_children_spec(
                    schema@,
                    self.name@,
                    self@.children(),
                    old(reader).tokens(),
                    old(reader).cursor(),
                    0,
                    false,
                    opened,
                    Seq::empty(),
                );
                &&& final(reader).cursor() == expected.1
                &&& match expected.0 {
                    Ok(nodes) => r is Ok && node_views(r->Ok_0@) == nodes,
                    Err(e) => r is Err && r->Err_0@ == e,
                }
            }),
        decreases old(reader).remaining(), 0int,
    {
        let none: Vec<ChildConfiguration> = Vec::new();
        let rules = match &self.content {
            Content::Children(rules) => rules.as_slice(),
            _ => none.as_slice(),
        };
        let ghost all = rule_views(rules@);
        assert(all =~= self@.children());
        let ghost tokens = reader.tokens();
        let ghost first = reader.cursor();
        let mut children: Vec<Node> = Vec::new();
        let mut rule: usize = 0;
        let mut met: bool = false;
        let mut left = reader.remaining_len();
        assert(node_views(children@) =~= Seq::<NodeView>::empty());
        loop
            invariant
                reader.tokens() == tokens,
                tokens == old(reader).tokens(),
                first == old(reader).cursor(),
                0 <= first <= reader.cursor() <= tokens.len(),
                left == tokens.len() - reader.cursor(),
                all == rule_views(rules@),
                all == self@.children(),
                parse_children_spec(
                    schema@,
                    self.name@,
                    all,
                    tokens,
                    first,
                    0,
                    false,
                    opened,
                    Seq::empty(),
                ) == parse_children_spec(
                    schema@,
                    self.name@,
                    all,
                    tokens,
                    reader.cursor(),
                    rule as int,
                    met,
                    opened,
                    node_views(children@),
                ),
            decreases left,
        {
            let ghost here = reader.cursor();
            let start = match start_element(reader, self.name) {
                Err(e) => {
                    return Err(e);
                },
                Ok(None) => {
                    return match first_owed_rule(rules, rule, met) {
                        Some(i) => {
                            assert(all[i as int] == rules@[i as int]@);
                            Err(
                                Error {
                                    position: opened,
                                    kind: ErrorKind::MissingElement {
                                        parent: self.name,
                                        expected: copy_names(rules[i].names.as_slice()),
                                    },
                                },
                            )
                        },
                        None => Ok(children),
                    };
                },
                Ok(Some(start)) => start,
            };
            assert(here < tokens.len());
            assert(start.name@ == name_at(tokens, here));
            let (taken, choice) = match find_child_rule(rules, rule, met, start.name) {
                None => {
                    return Err(
                        Error {
                            position: start.position,
                            kind: ErrorKind::UnexpectedElement {
                                parent: self.name,
                                element: start.name.to_owned(),
                                expected: collect_names_from(rules, rule),
                            },
                        },
                    );
                },
                Some(found) => found,
            };
            assert(all[taken as int] == rules@[taken as int]@);
            let node = match parse_element(
                schema,
                find_element(&rules[taken], choice),
                reader,
                &start,
                taken,
            ) {
                Err(e) => {
                    return Err(e);
                },
                Ok(node) => node,
            };
            let ghost before = node_views(children@);
            children.push(node);
            assert(node_views(children@) =~= before.push(node@));
            if rules[taken].occurrences.may_repeat() {
                rule = taken;
                met = true;
            } else {
                rule = taken + 1;
                met = false;
            }
            left = reader.remaining_len();
        }
    }
}

/// Passes over the contents of the element `stubbed` and its end, and gives a
/// node that holds nothing but the name, the position and the slot.
fn pass_over(
    reader: &mut TokenReader,
    stubbed: &str,
    name: String,
    position: TextPosition,
    slot: usize,
) -> (r: Result<Node>)
    ensures
        final(reader).tokens() == old(reader).tokens(),
        old(reader).cursor() <= final(reader).cursor() <= old(reader).tokens().len(),
        ({
            let tokens = old(reader).tokens();
            let stop = skip_stop(tokens, old(reader).cursor(), stubbed@, 0);
            &&& final(reader).cursor() == advance(tokens, stop)
            &&& match skip_result(tokens, stop) {
                Ok(_) => r is Ok && r->Ok_0@ == bare_node(name@, position, slot as int),
                Err(e) => r is Err && r->Err_0@ == e,
            }
        }),
{
    let mut keep: Vec<Token> = Vec::new();
    let found = skip_contents(reader, stubbed, &mut keep, false);
    proof {
        lemma_skip_stop(reader.tokens(), old(reader).cursor(), stubbed@, 0);
    }
    match found {
        Err(e) => Err(e),
        Ok(_) => {
            let node = Node {
                name,
                position,
                slot,
                attributes: Vec::new(),
                children: Vec::new(),
                text: None,
                raw: keep,
            };
            assert(node@ =~= bare_node(name@, position, slot as int)) by {
                assert(node@.attributes =~= Seq::<Option<crate::value::ValueView>>::empty());
                assert(node@.children =~= Seq::<NodeView>::empty());
                assert(node@.raw =~= Seq::<crate::token::TokenView>::empty());
            }
            Ok(node)
        },
    }
}

/// Reads the element that follows the description `element` of the schema and
/// whose start `start` was read last, with all that is inside it, through its
/// end. `slot` is the slot of its parent that the element fills.
pub fn parse_element(
    schema: &Schema,
    element: Option<usize>,
    reader: &mut TokenReader,
    start: &ElementStart,
    slot: usize,
) -> (r: Result<Node>)
    requires
        0 < old(reader).cursor() <= old(reader).tokens().len(),
        start.is_token(old(reader).tokens()[old(reader).cursor() - 1]),
    ensures
        final(reader).tokens() == old(reader).tokens(),
        old(reader).cursor() <= final(reader).cursor() <= old(reader).tokens().len(),
        ({
            let expected = parse_element_spec(
                schema@,
                match element {
                    Some(e) => e as int,
                    None => -1,
                },
                old(reader).tokens(),
                old(reader).cursor(),
                slot as int,
            );
            &&& final(reader).cursor() == expected.1
            &&& match expected.0 {
                Ok(node) => r is Ok && r->Ok_0@ == node,
                Err(e) => r is Err && r->Err_0@ == e,
            }
        }),
    decreases old(reader).remaining(), 1int,
{
    let ghost tokens = reader.tokens();
    let ghost cursor = reader.cursor();
    let name = start.name.to_owned();
    let position = start.position;
    let ghost base = bare_node(name_at(tokens, cursor - 1), position, slot as int);
    let config = match element {
        Some(e) if e < schema.elements.len() => &schema.elements[e],
        _ => {
            return pass_over(reader, start.name, name, position, slot);
        },
    };
    assert(schema@.elements[element->0 as int] == config@);
    if let Content::Ignored = &config.content {
        return pass_over(reader, config.name, name, position, slot);
    }
    let attributes = match check_attributes(config, start.attributes) {
        Err(kind) => {
            return Err(Error { position, kind });
        },
        Ok(values) => values,
    };
    match &config.content {
        Content::Children(rules) => {
            let children = match config.parse_children(schema, reader, position) {
                Err(e) => {
                    return Err(e);
                },
                Ok(children) => children,
            };
            let node = Node {
                name,
                position,
                slot,
                attributes,
                children,
                text: None,
                raw: Vec::new(),
            };
            assert(node@ =~= (NodeView {
                attributes: slot_views(attributes@),
                children: node_views(children@),
                ..base
            })) by {
                assert(node@.raw =~= base.raw);
            }
            Ok(node)
        },
        Content::Text { kind, occurrences } => {
            let text = match text_contents(reader, config.name, kind, *occurrences) {
                Err(e) => {
                    return Err(e);
                },
                Ok(text) => text,
            };
            let node = Node {
                name,
                position,
                slot,
                attributes,
                children: Vec::new(),
                text,
                raw: Vec::new(),
            };
            assert(node@ =~= (NodeView {
                attributes: slot_views(attributes@),
                text: option_view(text),
                ..base
            })) by {
                assert(node@.children =~= base.children);
                assert(node@.raw =~= base.raw);
            }
            Ok(node)
        },
        _ => {
            let mut keep: Vec<Token> = Vec::new();
            proof {
                lemma_skip_stop(tokens, cursor, config.name@, 0);
            }
            match skip_contents(reader, config.name, &mut keep, true) {
                Err(e) => {
                    return Err(e);
                },
                Ok(_) => {},
            }
            let node = Node {
                name,
                position,
                slot,
                attributes,
                children: Vec::new(),
                text: None,
                raw: keep,
            };
            assert(node@ =~= (NodeView {
                attributes: slot_views(attributes@),
                raw: token_views(keep@),
                ..base
            })) by {
                assert(node@.children =~= base.children);
            }
            Ok(node)
        },
    }
}

} // verus!
