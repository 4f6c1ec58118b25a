use collaborate::document::parse_document;
use collaborate::engine::{collect_names, find_child_rule, first_owed_rule, parse_element};
use collaborate::node::Node;
use collaborate::schema::{
    check_attributes, container, defaulted_attribute, ignored, leaf, optional_attribute,
    required_attribute, slot, ChildConfiguration, ChildOccurrences, Content, ElementConfiguration,
    Schema, TextOccurrences,
};
use collaborate::token::{Attribute, Token, TokenKind, TokenReader};
use collaborate::utils::{
    end_element, get_document_start, optional_text_contents, required_text_contents,
    start_element, stub_out, verify_attributes,
};
use collaborate::value::{Value, ValueKind};
use collaborate::{Error, ErrorKind, TextPosition, XmlError};

fn at(row: u64, column: u64) -> TextPosition {
    TextPosition { row, column }
}

fn start(name: &str, row: u64) -> Token {
    Token { position: at(row, 0), kind: TokenKind::ElementStart { name: name.into(), attributes: vec![] } }
}

fn start_with(name: &str, row: u64, attributes: &[(&str, &str)]) -> Token {
    let attributes = attributes
        .iter()
        .map(|(n, v)| Attribute { name: n.to_string(), value: v.to_string() })
        .collect();
    Token { position: at(row, 0), kind: TokenKind::ElementStart { name: name.into(), attributes } }
}

fn end(name: &str, row: u64) -> Token {
    Token { position: at(row, 0), kind: TokenKind::ElementEnd { name: name.into() } }
}

fn text(data: &str, row: u64) -> Token {
    Token { position: at(row, 0), kind: TokenKind::Text { data: data.into() } }
}

/// The tokens of `<parent>` with one empty child for each of `names`, without
/// the start of the parent.
fn children(names: &[&str]) -> Vec<Token> {
    let mut tokens = Vec::new();
    let mut row = 1;
    for name in names {
        tokens.push(start(name, row));
        tokens.push(end(name, row));
        row += 1;
    }
    tokens.push(end("parent", row));
    tokens
}

/// A parent with the slots `[Required a, Optional b, RequiredMany c]`.
fn grammar() -> (Schema, ElementConfiguration) {
    let parent = container(
        "parent",
        vec![],
        vec![
            slot("a", 1, ChildOccurrences::Required),
            slot("b", 2, ChildOccurrences::Optional),
            slot("c", 3, ChildOccurrences::RequiredMany),
        ],
    );
    let schema = Schema {
        elements: vec![
            parent.clone(),
            container("a", vec![], vec![]),
            container("b", vec![], vec![]),
            container("c", vec![], vec![]),
        ],
    };
    (schema, parent)
}

fn read_children(names: &[&str]) -> Result<Vec<Node>, Error> {
    let (schema, parent) = grammar();
    let tokens = children(names);
    let mut reader = TokenReader::new(&tokens);
    parent.parse_children(&schema, &mut reader, at(7, 7))
}

fn slots(nodes: &[Node]) -> Vec<usize> {
    nodes.iter().map(|n| n.slot).collect()
}

#[test]
fn grammar_accepts_a_c() {
    let nodes = read_children(&["a", "c"]).unwrap();
    assert_eq!(vec![0, 2], slots(&nodes));
    assert_eq!("a", nodes[0].name);
    assert_eq!("c", nodes[1].name);
}

#[test]
fn grammar_accepts_a_b_c_c() {
    let nodes = read_children(&["a", "b", "c", "c"]).unwrap();
    assert_eq!(vec![0, 1, 2, 2], slots(&nodes));
}

#[test]
fn grammar_rejects_b_a_c() {
    let error = read_children(&["b", "a", "c"]).unwrap_err();
    assert_eq!(
        Error {
            position: at(1, 0),
            kind: ErrorKind::UnexpectedElement {
                parent: "parent",
                element: "b".into(),
                expected: vec!["a", "b", "c"],
            },
        },
        error
    );
}

#[test]
fn grammar_rejects_a_b_without_c() {
    let error = read_children(&["a", "b"]).unwrap_err();
    assert_eq!(
        Error {
            position: at(7, 7),
            kind: ErrorKind::MissingElement { parent: "parent", expected: vec!["c"] },
        },
        error
    );
}

#[test]
fn grammar_rejects_second_a() {
    let error = read_children(&["a", "a", "c"]).unwrap_err();
    assert_eq!(
        Error {
            position: at(2, 0),
            kind: ErrorKind::UnexpectedElement {
                parent: "parent",
                element: "a".into(),
                expected: vec!["b", "c"],
            },
        },
        error
    );
}

#[test]
fn grammar_rejects_missing_a_at_the_end() {
    let error = read_children(&[]).unwrap_err();
    assert_eq!(
        Error {
            position: at(7, 7),
            kind: ErrorKind::MissingElement { parent: "parent", expected: vec!["a"] },
        },
        error
    );
}

#[test]
fn grammar_rejects_text_among_children() {
    let (schema, parent) = grammar();
    let tokens = vec![start("a", 1), end("a", 1), text("stray", 2), end("parent", 3)];
    let mut reader = TokenReader::new(&tokens);
    let error = parent.parse_children(&schema, &mut reader, at(0, 0)).unwrap_err();
    assert_eq!(
        Error {
            position: at(2, 0),
            kind: ErrorKind::UnexpectedCharacterData { element: "parent", data: "stray".into() },
        },
        error
    );
}

#[test]
fn rule_search_skips_what_is_not_owed() {
    let (_, parent) = grammar();
    let rules: &[ChildConfiguration] = match &parent.content {
        Content::Children(rules) => rules,
        _ => unreachable!(),
    };
    assert_eq!(Some((0, 0)), find_child_rule(rules, 0, false, "a"));
    assert_eq!(None, find_child_rule(rules, 0, false, "b"));
    assert_eq!(Some((2, 0)), find_child_rule(rules, 1, false, "c"));
    assert_eq!(Some((2, 0)), find_child_rule(rules, 2, true, "c"));
    assert_eq!(None, find_child_rule(rules, 2, true, "a"));
    assert_eq!(Some(0), first_owed_rule(rules, 0, false));
    assert_eq!(Some(2), first_owed_rule(rules, 1, false));
    assert_eq!(None, first_owed_rule(rules, 2, true));
    assert_eq!(Some(2), first_owed_rule(rules, 2, false));
    assert_eq!(None, first_owed_rule(rules, 3, false));
    assert_eq!(vec!["a", "b", "c"], collect_names(rules));
    assert_eq!(vec!["a", "b", "c"], parent.collect_expected_children());
}

fn counted() -> ElementConfiguration {
    container(
        "counted",
        vec![
            required_attribute("count", ValueKind::Integer),
            defaulted_attribute("stride", ValueKind::Integer, Value::Integer(1)),
            optional_attribute("name", ValueKind::Text),
        ],
        vec![],
    )
}

fn attributes(list: &[(&str, &str)]) -> Vec<Attribute> {
    list.iter().map(|(n, v)| Attribute { name: n.to_string(), value: v.to_string() }).collect()
}

#[test]
fn default_stands_for_absent_attribute() {
    let values = check_attributes(&counted(), &attributes(&[("count", "3")])).unwrap();
    assert_eq!(vec![Some(Value::Integer(3)), Some(Value::Integer(1)), None], values);
}

#[test]
fn written_attribute_replaces_default() {
    let values =
        check_attributes(&counted(), &attributes(&[("stride", "4"), ("count", "3"), ("name", "n")]))
            .unwrap();
    assert_eq!(
        vec![Some(Value::Integer(3)), Some(Value::Integer(4)), Some(Value::Text("n".into()))],
        values
    );
}

#[test]
fn last_of_two_attributes_of_one_name_counts() {
    let values =
        check_attributes(&counted(), &attributes(&[("count", "3"), ("count", "5")])).unwrap();
    assert_eq!(Some(Value::Integer(5)), values[0]);
}

#[test]
fn undeclared_attribute_is_refused_first() {
    let error =
        check_attributes(&counted(), &attributes(&[("count", "x"), ("foo", "bar")])).unwrap_err();
    assert_eq!(
        ErrorKind::UnexpectedAttribute {
            element: "counted",
            attribute: "foo".into(),
            expected: vec!["count", "stride", "name"],
        },
        error
    );
}

#[test]
fn required_attribute_is_missed() {
    let error = check_attributes(&counted(), &attributes(&[("name", "n")])).unwrap_err();
    assert_eq!(ErrorKind::MissingAttribute { element: "counted", attribute: "count" }, error);
}

#[test]
fn attribute_that_does_not_decode_is_an_error() {
    let error = check_attributes(&counted(), &attributes(&[("count", "3x")])).unwrap_err();
    assert!(matches!(error, ErrorKind::ParseIntError(_)));
}

#[test]
fn start_element_reads_one_token() {
    let tokens = vec![start_with("a", 1, &[("k", "v")]), end("parent", 2), text("t", 3)];
    let mut reader = TokenReader::new(&tokens);
    let first = start_element(&mut reader, "parent").unwrap().unwrap();
    assert_eq!("a", first.name);
    assert_eq!(1, first.attributes.len());
    assert_eq!(at(1, 0), first.position);
    assert_eq!(at(1, 0), reader.position());
    assert!(start_element(&mut reader, "parent").unwrap().is_none());
    let error = start_element(&mut reader, "parent").unwrap_err();
    assert_eq!(
        ErrorKind::UnexpectedCharacterData { element: "parent", data: "t".into() },
        error.kind
    );
    assert_eq!(at(3, 0), error.position);
    // The tokens are exhausted: the document has ended.
    assert!(start_element(&mut reader, "parent").unwrap().is_none());
    assert_eq!(0, reader.remaining_len());
}

#[test]
fn end_element_expects_the_end() {
    let tokens = vec![end("a", 1), start("b", 2), text("t", 3)];
    let mut reader = TokenReader::new(&tokens);
    assert!(end_element(&mut reader, "a").is_ok());
    assert_eq!(
        Error {
            position: at(2, 0),
            kind: ErrorKind::UnexpectedElement {
                parent: "a",
                element: "b".into(),
                expected: vec![],
            },
        },
        end_element(&mut reader, "a").unwrap_err()
    );
    assert_eq!(
        ErrorKind::UnexpectedCharacterData { element: "a", data: "t".into() },
        end_element(&mut reader, "a").unwrap_err().kind
    );
}

#[test]
fn malformed_markup_is_passed_on() {
    let tokens = vec![Token {
        position: at(4, 2),
        kind: TokenKind::Malformed { message: "broken".into() },
    }];
    let mut reader = TokenReader::new(&tokens);
    assert_eq!(
        Error { position: at(4, 2), kind: ErrorKind::XmlError(XmlError { message: "broken".into() }) },
        start_element(&mut reader, "parent").unwrap_err()
    );
}

#[test]
fn required_text_is_decoded() {
    let tokens = vec![text("42", 1), end("n", 2)];
    let mut reader = TokenReader::new(&tokens);
    assert_eq!(
        Value::Integer(42),
        required_text_contents(&mut reader, "n", &ValueKind::Integer).unwrap()
    );
    assert_eq!(0, reader.remaining_len());
}

#[test]
fn required_text_is_missed() {
    let tokens = vec![end("n", 5)];
    let mut reader = TokenReader::new(&tokens);
    assert_eq!(
        Error { position: at(5, 0), kind: ErrorKind::MissingValue { element: "n" } },
        required_text_contents(&mut reader, "n", &ValueKind::Integer).unwrap_err()
    );
}

#[test]
fn optional_text_may_be_absent() {
    let tokens = vec![end("n", 5)];
    let mut reader = TokenReader::new(&tokens);
    assert_eq!(None, optional_text_contents(&mut reader, "n", &ValueKind::Text).unwrap());
}

#[test]
fn text_that_does_not_decode_is_found_at_the_text() {
    let tokens = vec![text("4 2", 3), end("n", 4)];
    let mut reader = TokenReader::new(&tokens);
    let error = required_text_contents(&mut reader, "n", &ValueKind::Integer).unwrap_err();
    assert_eq!(at(3, 0), error.position);
    assert!(matches!(error.kind, ErrorKind::ParseIntError(_)));
}

#[test]
fn element_where_text_is_expected() {
    let tokens = vec![start("child", 3)];
    let mut reader = TokenReader::new(&tokens);
    assert_eq!(
        ErrorKind::UnexpectedElement { parent: "n", element: "child".into(), expected: vec![] },
        optional_text_contents(&mut reader, "n", &ValueKind::Text).unwrap_err().kind
    );
}

#[test]
fn verify_attributes_names_the_first() {
    let tokens = vec![start("n", 3)];
    let mut reader = TokenReader::new(&tokens);
    reader.next();
    assert!(verify_attributes(&reader, "n", &[]).is_ok());
    assert_eq!(
        Error {
            position: at(3, 0),
            kind: ErrorKind::UnexpectedAttribute {
                element: "n",
                attribute: "foo".into(),
                expected: vec![],
            },
        },
        verify_attributes(&reader, "n", &attributes(&[("foo", "1"), ("bar", "2")])).unwrap_err()
    );
}

#[test]
fn stub_out_counts_elements_of_the_same_name() {
    let tokens = vec![
        start("x", 1),
        start("stub", 2),
        text("t", 3),
        end("stub", 4),
        end("x", 5),
        end("stub", 6),
        end("after", 7),
    ];
    let mut reader = TokenReader::new(&tokens);
    stub_out(&mut reader, "stub").unwrap();
    assert_eq!(1, reader.remaining_len());
    assert_eq!(at(6, 0), reader.position());
}

#[test]
fn document_start_finds_the_root() {
    let tokens = vec![
        Token { position: at(0, 0), kind: TokenKind::DocumentStart },
        start_with("COLLADA", 1, &[("version", "1.4.1")]),
    ];
    let mut reader = TokenReader::new(&tokens);
    let root = get_document_start(&mut reader).unwrap();
    assert_eq!("COLLADA", root.name);
    assert_eq!(0, reader.remaining_len());
}

#[test]
fn document_start_refuses_another_root() {
    let tokens = vec![Token { position: at(0, 0), kind: TokenKind::DocumentStart }, start("html", 1)];
    let mut reader = TokenReader::new(&tokens);
    assert_eq!(
        Error {
            position: at(1, 0),
            kind: ErrorKind::UnexpectedRootElement { element: "html".into() },
        },
        get_document_start(&mut reader).unwrap_err()
    );
}

#[test]
fn document_without_root() {
    let tokens = vec![Token { position: at(0, 0), kind: TokenKind::DocumentStart }];
    let mut reader = TokenReader::new(&tokens);
    assert_eq!(
        ErrorKind::UnexpectedRootElement { element: String::new() },
        get_document_start(&mut reader).unwrap_err().kind
    );
}

fn small_schema() -> Schema {
    Schema {
        elements: vec![
            container(
                "COLLADA",
                vec![required_attribute("version", ValueKind::Text)],
                vec![
                    slot("numbers", 1, ChildOccurrences::Many),
                    slot("raw", 2, ChildOccurrences::Optional),
                    slot("skipped", 3, ChildOccurrences::Optional),
                    slot("lost", 9, ChildOccurrences::Optional),
                ],
            ),
            leaf("numbers", ValueKind::Integers, TextOccurrences::EmptyIfAbsent),
            ElementConfiguration { name: "raw", attributes: vec![], content: Content::Raw },
            ignored("skipped"),
        ],
    }
}

#[test]
fn document_is_read_into_nodes() {
    let tokens = vec![
        Token { position: at(0, 0), kind: TokenKind::DocumentStart },
        start_with("COLLADA", 1, &[("version", "9")]),
        start("numbers", 2),
        text("1 2  3", 2),
        end("numbers", 2),
        start("numbers", 3),
        end("numbers", 3),
        start("raw", 4),
        start("raw", 5),
        text("kept", 5),
        end("raw", 5),
        end("raw", 6),
        start_with("skipped", 7, &[("anything", "goes")]),
        start("child", 8),
        end("child", 8),
        end("skipped", 9),
        start("lost", 10),
        text("unknown", 10),
        end("lost", 10),
        end("COLLADA", 11),
        Token { position: at(12, 0), kind: TokenKind::DocumentEnd },
    ];
    let node = parse_document(&small_schema(), 0, &["9"], &tokens).unwrap();
    assert_eq!("COLLADA", node.name);
    assert_eq!(vec![Some(Value::Text("9".into()))], node.attributes);
    assert_eq!(vec![0, 0, 1, 2, 3], slots(&node.children));
    assert_eq!(Some(Value::Integers(vec![1, 2, 3])), node.children[0].text);
    assert_eq!(Some(Value::Integers(vec![])), node.children[1].text);
    assert_eq!(&tokens[8..11], &node.children[2].raw[..]);
    assert!(node.children[3].attributes.is_empty());
    assert!(node.children[4].children.is_empty());
    assert_eq!(at(4, 0), node.children[2].position);
}

#[test]
fn document_of_another_version_is_refused() {
    let tokens = vec![start_with("COLLADA", 1, &[("version", "8")]), end("COLLADA", 2)];
    assert_eq!(
        Error { position: at(1, 0), kind: ErrorKind::UnsupportedVersion { version: "8".into() } },
        parse_document(&small_schema(), 0, &["9"], &tokens).unwrap_err()
    );
}

#[test]
fn document_without_version_is_refused() {
    let tokens = vec![start("COLLADA", 1), end("COLLADA", 2)];
    assert_eq!(
        Error {
            position: at(1, 0),
            kind: ErrorKind::MissingAttribute { element: "COLLADA", attribute: "version" },
        },
        parse_document(&small_schema(), 0, &["9"], &tokens).unwrap_err()
    );
}

#[test]
fn element_without_description_is_passed_over() {
    let tokens = vec![start("lost", 1), text("t", 1), end("lost", 1), end("after", 2)];
    let mut reader = TokenReader::new(&tokens);
    let first = start_element(&mut reader, "parent").unwrap().unwrap();
    let node = parse_element(&small_schema(), None, &mut reader, &first, 5).unwrap();
    assert_eq!("lost", node.name);
    assert_eq!(5, node.slot);
    assert_eq!(1, reader.remaining_len());
}
