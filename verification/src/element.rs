//! From the nodes of the element tree to the typed values of a document.
//!
//! Nothing here can fail: the engine has checked the document against the
//! schema before, and where a node does not hold what is asked of it a fixed
//! value takes its place.

use crate::common::{AnyUri, DateTime};
use crate::error::TextPosition;
use crate::node::{node_views, option_view, Node, NodeView};
use crate::number::spans_view;
use crate::text::views;
use crate::value::{find_name, lemma_position_of, position_of, DecimalList, Value, ValueView};
use vstd::prelude::*;

verus! {

/// The test for the nodes that fill the slot `slot` of their parent.
pub open spec fn in_slot(slot: int) -> spec_fn(NodeView) -> bool {
    |c: NodeView| c.slot == slot
}

impl NodeView {
    /// The children that fill the slot `slot`, in the order of the document.
    pub open spec fn children_of(self, slot: int) -> Seq<NodeView> {
        self.children.filter(in_slot(slot))
    }

    /// The first child that fills the slot `slot`.
    pub open spec fn child(self, slot: int) -> Option<NodeView> {
        if self.children_of(slot).len() > 0 {
            Some(self.children_of(slot)[0])
        } else {
            None
        }
    }

    /// The value of the attribute number `index` of the schema.
    pub open spec fn attribute(self, index: int) -> Option<ValueView> {
        if 0 <= index < self.attributes.len() {
            self.attributes[index]
        } else {
            None
        }
    }

    /// The text of the first child that fills the slot `slot`.
    pub open spec fn child_text(self, slot: int) -> Option<ValueView> {
        match self.child(slot) {
            Some(c) => c.text,
            None => None,
        }
    }

    /// The node of an element that holds nothing.
    pub open spec fn blank() -> NodeView {
        NodeView {
            name: Seq::empty(),
            position: TextPosition { row: 0, column: 0 },
            slot: 0,
            attributes: Seq::empty(),
            children: Seq::empty(),
            text: None,
            raw: Seq::empty(),
        }
    }
}

/// The characters of an optional text.
pub open spec fn string_view(text: Option<String>) -> Option<Seq<char>> {
    match text {
        Some(s) => Some(s@),
        None => None,
    }
}

/// `value` as text: what a text or a decimal number holds.
pub open spec fn text_of(value: Option<ValueView>) -> Option<Seq<char>> {
    match value {
        Some(ValueView::Text(s)) => Some(s),
        Some(ValueView::Decimal(s)) => Some(s),
        _ => None,
    }
}

/// `value` as an integer.
pub open spec fn integer_of(value: Option<ValueView>) -> Option<usize> {
    match value {
        Some(ValueView::Integer(n)) => Some(n),
        _ => None,
    }
}

/// `value` as a list of integers; empty where it is none.
pub open spec fn integers_of(value: Option<ValueView>) -> Seq<usize> {
    match value {
        Some(ValueView::Integers(list)) => list,
        _ => Seq::empty(),
    }
}

/// `value` as a date and time.
pub open spec fn time_of(value: Option<ValueView>) -> Option<DateTime> {
    match value {
        Some(ValueView::Time(t)) => Some(t),
        _ => None,
    }
}

/// `value` as the number of a word of an enumeration.
pub open spec fn choice_of(value: Option<ValueView>) -> Option<int> {
    match value {
        Some(ValueView::Choice(i)) => Some(i),
        _ => None,
    }
}

/// `value` as a list of decimal numbers: the text and the places of the
/// numbers in it; empty where it is none.
pub open spec fn decimals_of(value: Option<ValueView>) -> (Seq<char>, Seq<(int, int)>) {
    match value {
        Some(ValueView::Decimals { text, spans }) => (text, spans),
        _ => (Seq::empty(), Seq::empty()),
    }
}

/// `value` as text; empty where it is none.
pub open spec fn text_or_empty(value: Option<ValueView>) -> Seq<char> {
    match text_of(value) {
        Some(s) => s,
        None => Seq::empty(),
    }
}

/// `value` as an integer; `fallback` where it is none.
pub open spec fn integer_or(value: Option<ValueView>, fallback: usize) -> usize {
    match integer_of(value) {
        Some(n) => n,
        None => fallback,
    }
}

/// `value` as a date and time; the beginning of 1970 where it is none.
pub open spec fn time_or_epoch(value: Option<ValueView>) -> DateTime {
    match time_of(value) {
        Some(t) => t,
        None => DateTime::Naive { seconds: 0, nanos: 0 },
    }
}

/// What the view of an optional value is.
pub open spec fn view_of(value: Option<&Value>) -> Option<ValueView> {
    match value {
        Some(v) => Some(v@),
        None => None,
    }
}

/// `value` as text; empty where it is none.
pub fn text_or_empty_from(value: Option<&Value>) -> (r: String)
    ensures
        r@ == text_or_empty(view_of(value)),
{
    match text_from(value) {
        Some(s) => s,
        None => String::new(),
    }
}

/// `value` as an integer; `fallback` where it is none.
pub fn integer_or_from(value: Option<&Value>, fallback: usize) -> (r: usize)
    ensures
        r == integer_or(view_of(value), fallback),
{
    match integer_from(value) {
        Some(n) => n,
        None => fallback,
    }
}

/// `value` as a date and time; the beginning of 1970 where it is none.
pub fn time_or_epoch_from(value: Option<&Value>) -> (r: DateTime)
    ensures
        r == time_or_epoch(view_of(value)),
{
    match time_from(value) {
        Some(t) => t,
        None => DateTime::Naive { seconds: 0, nanos: 0 },
    }
}

/// A copy of `tokens`.
pub fn copy_tokens(tokens: &[crate::token::Token]) -> (r: Vec<crate::token::Token>)
    ensures
        crate::token::token_views(r@) == crate::token::token_views(tokens@),
{
    let mut out: Vec<crate::token::Token> = Vec::new();
    let mut i: usize = 0;
    while i < tokens.len()
        invariant
            i <= tokens.len(),
            out@.len() == i,
            forall|k: int| 0 <= k < i ==> out@[k]@ == tokens@[k]@,
        decreases tokens.len() - i,
    {
        out.push(crate::token::copy_token(&tokens[i]));
        i += 1;
    }
    assert(crate::token::token_views(out@) =~= crate::token::token_views(tokens@));
    out
}

/// `value` as text.
pub fn text_from(value: Option<&Value>) -> (r: Option<String>)
    ensures
        string_view(r) == text_of(
            match value {
                Some(v) => Some(v@),
                None => None,
            },
        ),
{
    match value {
        Some(Value::Text(s)) => Some(s.clone()),
        Some(Value::Decimal(s)) => Some(s.clone()),
        _ => None,
    }
}

/// `value` as an integer.
pub fn integer_from(value: Option<&Value>) -> (r: Option<usize>)
    ensures
        r == integer_of(
            match value {
                Some(v) => Some(v@),
                None => None,
            },
        ),
{
    match value {
        Some(Value::Integer(n)) => Some(*n),
        _ => None,
    }
}

/// `value` as a date and time.
pub fn time_from(value: Option<&Value>) -> (r: Option<DateTime>)
    ensures
        r == time_of(
            match value {
                Some(v) => Some(v@),
                None => None,
            },
        ),
{
    match value {
        Some(Value::Time(t)) => Some(*t),
        _ => None,
    }
}

/// `value` as the number of a word of an enumeration.
pub fn choice_from(value: Option<&Value>) -> (r: Option<usize>)
    ensures
        match choice_of(
            match value {
                Some(v) => Some(v@),
                None => None,
            },
        ) {
            Some(i) => r == Some(i as usize),
            None => r is None,
        },
{
    match value {
        Some(Value::Choice(i)) => Some(*i),
        _ => None,
    }
}

/// `value` as a list of integers.
pub fn integers_from(value: Option<&Value>) -> (r: Vec<usize>)
    ensures
        r@ == integers_of(
            match value {
                Some(v) => Some(v@),
                None => None,
            },
        ),
{
    let mut out: Vec<usize> = Vec::new();
    match value {
        Some(Value::Integers(list)) => {
            let mut i: usize = 0;
            while i < list.len()
                invariant
                    i <= list.len(),
                    out@ == list@.take(i as int),
                decreases list.len() - i,
            {
                out.push(list[i]);
                assert(list@.take(i + 1) =~= list@.take(i as int).push(list@[i as int]));
                i += 1;
            }
            assert(list@.take(list.len() as int) =~= list@);
        },
        _ => {},
    }
    out
}

/// `value` as a list of decimal numbers.
pub fn decimals_from(value: Option<&Value>) -> (r: DecimalList)
    ensures
        (r.text@, spans_view(r.spans@)) == decimals_of(
            match value {
                Some(v) => Some(v@),
                None => None,
            },
        ),
{
    let mut spans: Vec<(usize, usize)> = Vec::new();
    match value {
        Some(Value::Decimals(list)) => {
            let mut i: usize = 0;
            while i < list.spans.len()
                invariant
                    i <= list.spans.len(),
                    spans@ == list.spans@.take(i as int),
                decreases list.spans.len() - i,
            {
                spans.push(list.spans[i]);
                assert(list.spans@.take(i + 1) =~= list.spans@.take(i as int).push(
                    list.spans@[i as int],
                ));
                i += 1;
            }
            assert(list.spans@.take(list.spans.len() as int) =~= list.spans@);
            DecimalList { text: list.text.clone(), spans }
        },
        _ => {
            assert(spans_view(spans@) =~= Seq::<(int, int)>::empty());
            DecimalList { text: String::new(), spans }
        },
    }
}

impl Node {
    /// The node of an element that holds nothing.
    pub fn blank() -> (r: Node)
        ensures
            r@ == NodeView::blank(),
    {
        let node = Node {
            name: String::new(),
            position: TextPosition { row: 0, column: 0 },
            slot: 0,
            attributes: Vec::new(),
            children: Vec::new(),
            text: None,
            raw: Vec::new(),
        };
        assert(node@ =~= NodeView::blank()) by {
            assert(node@.attributes =~= Seq::<Option<ValueView>>::empty());
            assert(node@.children =~= Seq::<NodeView>::empty());
            assert(node@.raw =~= Seq::<crate::token::TokenView>::empty());
        }
        node
    }

    /// The value of the attribute number `index` of the schema.
    pub fn attribute(&self, index: usize) -> (r: Option<&Value>)
        ensures
            self@.attribute(index as int) == match r {
                Some(v) => Some(v@),
                None => None,
            },
    {
        if index < self.attributes.len() {
            assert(self@.attributes[index as int] == option_view(self.attributes@[index as int]));
            self.attributes[index].as_ref()
        } else {
            None
        }
    }

    /// The text of the element.
    pub fn text_value(&self) -> (r: Option<&Value>)
        ensures
            self@.text == match r {
                Some(v) => Some(v@),
                None => None,
            },
    {
        self.text.as_ref()
    }

    /// The first child that fills the slot `slot`.
    pub fn child(&self, slot: usize) -> (r: Option<&Node>)
        ensures
            match self@.child(slot as int) {
                Some(c) => r is Some && r->0@ == c,
                None => r is None,
            },
    {
        let ghost all = node_views(self.children@);
        let ghost test = in_slot(slot as int);
        let mut i: usize = 0;
        proof {
            reveal(Seq::filter);
            assert(all.take(0) =~= Seq::<NodeView>::empty());
        }
        while i < self.children.len()
            invariant
                i <= self.children.len(),
                all == node_views(self.children@),
                test == in_slot(slot as int),
                all.take(i as int).filter(test).len() == 0,
            decreases self.children.len() - i,
        {
            proof {
                reveal(Seq::filter);
                assert(all.take(i + 1).drop_last() =~= all.take(i as int));
                assert(all.take(i + 1).last() == self.children@[i as int]@);
                lemma_filter_prefix(all, i + 1, test);
            }
            if self.children[i].slot == slot {
                return Some(&self.children[i]);
            }
            i += 1;
        }
        assert(all.take(self.children.len() as int) =~= all);
        None
    }

    /// The places of the children that fill the slot `slot`, in order.
    pub fn children_places(&self, slot: usize) -> (r: Vec<usize>)
        ensures
            r@.len() == self@.children_of(slot as int).len(),
            forall|j: int|
                0 <= j < r@.len() ==> (#[trigger] r@[j]) < self.children@.len()
                    && self.children@[r@[j] as int]@ == self@.children_of(slot as int)[j],
    {
        let ghost all = node_views(self.children@);
        let ghost test = in_slot(slot as int);
        let mut places: Vec<usize> = Vec::new();
        let mut i: usize = 0;
        proof {
            reveal(Seq::filter);
            assert(all.take(0) =~= Seq::<NodeView>::empty());
        }
        while i < self.children.len()
            invariant
                i <= self.children.len(),
                all == node_views(self.children@),
                test == in_slot(slot as int),
                places@.len() == all.take(i as int).filter(test).len(),
                forall|j: int|
                    0 <= j < places@.len() ==> (#[trigger] places@[j]) < self.children@.len()
                        && self.children@[places@[j] as int]@ == all.take(i as int).filter(test)[j],
            decreases self.children.len() - i,
        {
            proof {
                reveal(Seq::filter);
                assert(all.take(i + 1).drop_last() =~= all.take(i as int));
                assert(all.take(i + 1).last() == self.children@[i as int]@);
            }
            if self.children[i].slot == slot {
                places.push(i);
            }
            i += 1;
        }
        assert(all.take(self.children.len() as int) =~= all);
        places
    }

    /// The place of the first child that fills the slot `slot`.
    pub fn child_place(&self, slot: usize) -> (r: Option<usize>)
        ensures
            match self@.child(slot as int) {
                Some(c) => r is Some && r->0 < self.children@.len() && self.children@[r->0 as int]@
                    == c,
                None => r is None,
            },
    {
        let places = self.children_places(slot);
        if places.len() > 0 {
            Some(places[0])
        } else {
            None
        }
    }

    /// The text of the first child that fills the slot `slot`.
    pub fn child_text(&self, slot: usize) -> (r: Option<&Value>)
        ensures
            self@.child_text(slot as int) == match r {
                Some(v) => Some(v@),
                None => None,
            },
    {
        match self.child(slot) {
            Some(c) => c.text_value(),
            None => None,
        }
    }
}

/// What passes the test among the first `n` of `items` comes first among what
/// passes it in all of them.
pub proof fn lemma_filter_prefix<A>(items: Seq<A>, n: int, test: spec_fn(A) -> bool)
    requires
        0 <= n <= items.len(),
    ensures
        items.take(n).filter(test).len() <= items.filter(test).len(),
        forall|k: int|
            0 <= k < items.take(n).filter(test).len() ==> items.filter(test)[k] == items.take(
                n,
            ).filter(test)[k],
    decreases items.len() - n,
{
    reveal(Seq::filter);
    if n < items.len() {
        lemma_filter_prefix(items, n + 1, test);
        assert(items.take(n + 1).drop_last() =~= items.take(n));
    } else {
        assert(items.take(n) =~= items);
    }
}

/// A kind of element of a document: a type whose values are made from the
/// nodes that the engine builds.
pub trait ColladaElement: Sized {
    /// Whether `self` holds what `node` holds.
    spec fn represents(self, node: NodeView) -> bool;

    /// The value for `node`.
    fn from_node(node: &Node) -> (r: Self)
        ensures
            r.represents(node@),
    ;
}

/// Whether each of `items` holds what the node in its place holds.
pub open spec fn represent_all<T: ColladaElement>(items: Seq<T>, nodes: Seq<NodeView>) -> bool {
    &&& items.len() == nodes.len()
    &&& forall|i: int| 0 <= i < items.len() ==> (#[trigger] items[i]).represents(nodes[i])
}

/// Whether `item` holds what `node` holds, where there is a node, and is
/// absent where there is none.
pub open spec fn represent_optional<T: ColladaElement>(item: Option<T>, node: Option<NodeView>) -> bool {
    match node {
        Some(n) => item is Some && item->0.represents(n),
        None => item is None,
    }
}

/// Whether `item` holds what `node` holds, where there is a node, and what a
/// blank node holds where there is none.
pub open spec fn represent_required<T: ColladaElement>(item: T, node: Option<NodeView>) -> bool {
    match node {
        Some(n) => item.represents(n),
        None => item.represents(NodeView::blank()),
    }
}

/// A kind of element that has a value where it is left out.
pub trait DefaultElement: ColladaElement {
    /// Whether `self` is the value of an element that was left out.
    spec fn is_default(self) -> bool;

    /// The value of an element that was left out.
    fn default_value() -> (r: Self)
        ensures
            r.is_default(),
    ;
}

/// Whether `item` holds what `node` holds, where there is a node, and is the
/// value of an element that was left out where there is none.
pub open spec fn represent_defaulted<T: DefaultElement>(item: T, node: Option<NodeView>) -> bool {
    match node {
        Some(n) => item.represents(n),
        None => item.is_default(),
    }
}

/// The value for the first child that fills the slot `slot`, or the value of
/// an element that was left out.
pub fn defaulted<T: DefaultElement>(node: &Node, slot: usize) -> (r: T)
    ensures
        represent_defaulted(r, node@.child(slot as int)),
{
    match node.child(slot) {
        Some(c) => T::from_node(c),
        None => T::default_value(),
    }
}

/// Which of `names` an element called `name` is: the first place that holds
/// the name, and the last place where none does.
pub open spec fn which(names: Seq<Seq<char>>, name: Seq<char>) -> int {
    match position_of(names, name) {
        Some(i) => i,
        None => names.len() - 1,
    }
}

/// Which of `names` an element called `name` is.
pub fn pick(names: &[&'static str], name: &str) -> (r: usize)
    requires
        names@.len() > 0,
    ensures
        r == which(views(names@), name@),
        r < names@.len(),
{
    proof {
        lemma_position_of(views(names@), name@);
    }
    match find_name(names, name) {
        Some(i) => i,
        None => names.len() - 1,
    }
}

/// The characters of an optional URI.
pub open spec fn uri_view(uri: Option<AnyUri>) -> Option<Seq<char>> {
    match uri {
        Some(u) => Some(u.0@),
        None => None,
    }
}

/// `value` as a URI.
pub fn uri_from(value: Option<&Value>) -> (r: Option<AnyUri>)
    ensures
        uri_view(r) == text_of(view_of(value)),
{
    match text_from(value) {
        Some(s) => Some(AnyUri(s)),
        None => None,
    }
}

/// The values for all the children that fill the slot `slot`.
pub fn many<T: ColladaElement>(node: &Node, slot: usize) -> (r: Vec<T>)
    ensures
        represent_all(r@, node@.children_of(slot as int)),
{
    let ghost all = node_views(node.children@);
    let ghost test = in_slot(slot as int);
    let mut out: Vec<T> = Vec::new();
    let mut i: usize = 0;
    proof {
        reveal(Seq::filter);
        assert(all.take(0) =~= Seq::<NodeView>::empty());
    }
    while i < node.children.len()
        invariant
            i <= node.children.len(),
            all == node_views(node.children@),
            test == in_slot(slot as int),
            represent_all(out@, all.take(i as int).filter(test)),
        decreases node.children.len() - i,
    {
        proof {
            reveal(Seq::filter);
            assert(all.take(i + 1).drop_last() =~= all.take(i as int));
            assert(all.take(i + 1).last() == node.children@[i as int]@);
        }
        if node.children[i].slot == slot {
            out.push(T::from_node(&node.children[i]));
        }
        i += 1;
    }
    assert(all.take(node.children.len() as int) =~= all);
    out
}

/// The value for the first child that fills the slot `slot`, if there is one.
pub fn optional<T: ColladaElement>(node: &Node, slot: usize) -> (r: Option<T>)
    ensures
        represent_optional(r, node@.child(slot as int)),
{
    match node.child(slot) {
        Some(c) => Some(T::from_node(c)),
        None => None,
    }
}

/// The value for the first child that fills the slot `slot`.
pub fn required<T: ColladaElement>(node: &Node, slot: usize) -> (r: T)
    ensures
        represent_required(r, node@.child(slot as int)),
{
    match node.child(slot) {
        Some(c) => T::from_node(c),
        None => T::from_node(&Node::blank()),
    }
}

} // verus!
