use collaborate::common::{Decimal, UpAxis};
use collaborate::token::{Attribute, Token, TokenKind};
use collaborate::v1_4::{
    Accessor, Collada, InputsForOffset, Polygon, Polylist, Primitives, SharedInput, VCount,
    VertexAttribute,
};
use collaborate::v1_5;
use collaborate::common::{AnyUri, UriFragment};
use collaborate::source::{find_deep_doctype, tokenize};
use collaborate::{Error, ErrorKind, TextPosition, VersionedDocument, XmlError};

#[test]
fn asset_without_unit_and_axis_has_defaults() {
    let document = Collada::from_str(
        "<COLLADA version=\"1.4.0\"><asset><created>2017-02-07T20:44:30Z</created><modified>2017-02-07T20:44:30Z</modified></asset></COLLADA>",
    )
    .unwrap();
    assert_eq!("1.4.0", document.version);
    assert_eq!(1.0, document.asset.unit.meter.0.parse::<f64>().unwrap());
    assert_eq!("meter", document.asset.unit.name);
    assert_eq!(UpAxis::Y, document.asset.up_axis);
}

#[test]
fn empty_asset_misses_created() {
    let error = Collada::from_str("<COLLADA version=\"1.4.1\">\n  <asset></asset>\n</COLLADA>")
        .unwrap_err();
    assert_eq!(
        Error {
            position: TextPosition { row: 1, column: 2 },
            kind: ErrorKind::MissingElement { parent: "asset", expected: vec!["created"] },
        },
        error
    );
}

#[test]
fn attribute_of_contributor_is_refused_before_its_children() {
    let error = Collada::from_str(
        "<COLLADA version=\"1.4.1\"><asset>\n<contributor foo=\"bar\"><nonsense/></contributor></asset></COLLADA>",
    )
    .unwrap_err();
    assert_eq!(
        Error {
            position: TextPosition { row: 1, column: 0 },
            kind: ErrorKind::UnexpectedAttribute {
                element: "contributor",
                attribute: "foo".into(),
                expected: vec![],
            },
        },
        error
    );
}

#[test]
fn another_root_is_refused() {
    let error = Collada::from_str("<html version=\"1.4.1\"><asset/></html>").unwrap_err();
    assert_eq!(
        Error {
            position: TextPosition { row: 0, column: 0 },
            kind: ErrorKind::UnexpectedRootElement { element: "html".into() },
        },
        error
    );
    let error = VersionedDocument::from_str("<html version=\"1.4.1\"><unclosed></html>").unwrap_err();
    assert_eq!(ErrorKind::UnexpectedRootElement { element: "html".into() }, error.kind);
}

#[test]
fn version_decides_how_a_document_is_read() {
    let asset = "<asset><created>2017-02-07T20:44:30Z</created><modified>2017-02-07T20:44:30Z</modified></asset>";
    let old = format!("<COLLADA version=\"1.4.1\">{}</COLLADA>", asset);
    let new = format!("<COLLADA version=\"1.5.0\">{}</COLLADA>", asset);
    let other = format!("<COLLADA version=\"1.6.0\">{}</COLLADA>", asset);
    let none = format!("<COLLADA>{}</COLLADA>", asset);
    assert!(matches!(VersionedDocument::from_str(&old), Ok(VersionedDocument::V1_4(_))));
    assert!(matches!(VersionedDocument::from_str(&new), Ok(VersionedDocument::V1_5(_))));
    assert_eq!(
        ErrorKind::UnsupportedVersion { version: "1.6.0".into() },
        VersionedDocument::from_str(&other).unwrap_err().kind
    );
    assert_eq!(
        ErrorKind::MissingAttribute { element: "COLLADA", attribute: "version" },
        VersionedDocument::from_str(&none).unwrap_err().kind
    );
    assert_eq!(
        ErrorKind::UnsupportedVersion { version: "1.5.0".into() },
        Collada::from_str(&new).unwrap_err().kind
    );
    assert_eq!(
        ErrorKind::UnsupportedVersion { version: "1.4.1".into() },
        v1_5::Collada::from_str(&old).unwrap_err().kind
    );
    assert!(matches!(
        VersionedDocument::from(Collada::from_str(&old).unwrap()),
        VersionedDocument::V1_4(_)
    ));
    assert!(matches!(
        VersionedDocument::from(v1_5::Collada::from_str(&new).unwrap()),
        VersionedDocument::V1_5(_)
    ));
}

#[test]
fn malformed_document_is_an_error_where_it_is_reached() {
    let error = Collada::from_str("<COLLADA version=\"1.4.1\"><asset><created>").unwrap_err();
    assert!(matches!(error.kind, ErrorKind::XmlError(_)));
    // An error of the schema that comes first is found first.
    let error = Collada::from_str("<COLLADA version=\"1.4.1\"><foo/><asset><created>").unwrap_err();
    assert!(matches!(error.kind, ErrorKind::UnexpectedElement { .. }));
}

#[test]
fn document_of_the_newer_version() {
    let document = v1_5::Collada::from_str(
        r#"<COLLADA version="1.5.0" base="here">
            <asset>
                <contributor>
                    <author>A</author>
                    <author_email>a@example.org</author_email>
                    <author_website>http://example.org</author_website>
                </contributor>
                <coverage>
                    <geographic_location>
                        <longitude>-105.2830</longitude>
                        <latitude>40.0170</latitude>
                        <altitude mode="relativeToGround">0</altitude>
                    </geographic_location>
                </coverage>
                <created>2017-02-07T20:44:30Z</created>
                <modified>2017-02-07T20:44:30Z</modified>
                <up_axis>X_UP</up_axis>
                <extra type="note">
                    <asset>
                        <created>2017-02-07T20:44:30Z</created>
                        <modified>2017-02-07T20:44:30Z</modified>
                        <extra><technique profile="inner"><technique profile="x"/></technique></extra>
                    </asset>
                    <technique profile="tool"><anything a="b">kept</anything></technique>
                </extra>
            </asset>
            <library_geometries><geometry/></library_geometries>
            <library_joints/>
        </COLLADA>"#,
    )
    .unwrap();
    assert_eq!(Some(AnyUri("here".into())), document.base_uri);
    let asset = &document.asset;
    assert_eq!(Some("a@example.org".to_string()), asset.contributors[0].author_email);
    assert_eq!(Some(AnyUri("http://example.org".into())), asset.contributors[0].author_website);
    let location = asset.coverage.as_ref().unwrap().geographic_location.as_ref().unwrap();
    assert_eq!(-105.283, location.longitude.0.parse::<f64>().unwrap());
    assert_eq!(40.017, location.latitude.0.parse::<f64>().unwrap());
    assert_eq!(v1_5::Altitude::RelativeToGround(Decimal("0".into())), location.altitude);
    assert_eq!(UpAxis::X, asset.up_axis);
    assert_eq!(1, asset.extras.len());
    let extra = &asset.extras[0];
    assert_eq!(Some("note".to_string()), extra.type_hint);
    let inner = extra.asset.as_ref().unwrap();
    assert_eq!(1, inner.extras.len());
    assert_eq!("inner", inner.extras[0].techniques[0].profile);
    assert_eq!(2, inner.extras[0].techniques[0].data.len());
    let technique = &extra.techniques[0];
    assert_eq!("tool", technique.profile);
    assert_eq!(3, technique.data.len());
    assert_eq!(
        TokenKind::ElementStart {
            name: "anything".into(),
            attributes: vec![Attribute { name: "a".into(), value: "b".into() }],
        },
        technique.data[0].kind
    );
    assert_eq!(TokenKind::Text { data: "kept".into() }, technique.data[1].kind);
    assert_eq!(2, document.libraries.len());
    assert!(matches!(document.libraries[0], v1_5::Library::Geometries(_)));
    assert!(matches!(document.libraries[1], v1_5::Library::Joints(_)));
}

#[test]
fn altitude_of_the_newer_version() {
    let document = |altitude: &str| {
        format!(
            "<COLLADA version=\"1.5.0\"><asset><coverage><geographic_location><longitude>1</longitude><latitude>2</latitude>{}</geographic_location></coverage></asset></COLLADA>",
            altitude
        )
    };
    let kind = |altitude: &str| v1_5::Collada::from_str(&document(altitude)).unwrap_err().kind;
    assert_eq!(
        ErrorKind::MissingElement { parent: "asset", expected: vec!["created"] },
        kind("<altitude mode=\"absolute\">3</altitude>")
    );
    assert_eq!(
        ErrorKind::UnexpectedAttribute {
            element: "altitude",
            attribute: "foo".into(),
            expected: vec!["mode"],
        },
        kind("<altitude foo=\"1\" mode=\"bad\">3</altitude>")
    );
    assert_eq!(
        ErrorKind::MissingAttribute { element: "altitude", attribute: "mode" },
        kind("<altitude>3</altitude>")
    );
    assert_eq!(
        ErrorKind::InvalidValue { element: "altitude", value: "bad".into() },
        kind("<altitude mode=\"bad\">x</altitude>")
    );
    assert_eq!(
        ErrorKind::MissingValue { element: "altitude" },
        kind("<altitude mode=\"absolute\"></altitude>")
    );
    assert!(matches!(
        kind("<altitude mode=\"absolute\">high</altitude>"),
        ErrorKind::ParseFloatError(_)
    ));
}

#[test]
fn up_axis_must_be_one_of_three_words() {
    let document = |axis: &str| {
        format!(
            "<COLLADA version=\"1.4.1\"><asset><created>2017-02-07T20:44:30Z</created><modified>2017-02-07T20:44:30Z</modified>{}</asset></COLLADA>",
            axis
        )
    };
    assert_eq!(
        UpAxis::X,
        Collada::from_str(&document("<up_axis>X_UP</up_axis>")).unwrap().asset.up_axis
    );
    assert_eq!(
        ErrorKind::InvalidValue { element: "up_axis", value: "UP".into() },
        Collada::from_str(&document("<up_axis>UP</up_axis>")).unwrap_err().kind
    );
    assert_eq!(
        ErrorKind::InvalidValue { element: "up_axis", value: "".into() },
        Collada::from_str(&document("<up_axis/>")).unwrap_err().kind
    );
    assert_eq!(
        ErrorKind::UnexpectedAttribute { element: "up_axis", attribute: "a".into(), expected: vec![] },
        Collada::from_str(&document("<up_axis a=\"b\">X_UP</up_axis>")).unwrap_err().kind
    );
}

#[test]
fn tokens_are_read_without_a_reader() {
    let at = |row| TextPosition { row, column: 0 };
    let element = |name: &str, row| Token {
        position: at(row),
        kind: TokenKind::ElementStart { name: name.into(), attributes: vec![] },
    };
    let close = |name: &str, row| Token {
        position: at(row),
        kind: TokenKind::ElementEnd { name: name.into() },
    };
    let text = |data: &str, row| Token { position: at(row), kind: TokenKind::Text { data: data.into() } };
    let tokens = vec![
        Token {
            position: at(0),
            kind: TokenKind::ElementStart {
                name: "COLLADA".into(),
                attributes: vec![Attribute { name: "version".into(), value: "1.4.1".into() }],
            },
        },
        element("asset", 1),
        element("created", 2),
        text("2017-02-07T20:44:30Z", 2),
        close("created", 2),
        element("modified", 3),
        text("2017-02-07T20:44:30", 3),
        close("modified", 3),
        close("asset", 4),
        close("COLLADA", 5),
    ];
    let document = Collada::parse(&tokens).unwrap();
    assert!(document.libraries.is_empty());
    assert!(matches!(VersionedDocument::parse(&tokens), Ok(VersionedDocument::V1_4(_))));
    // Without the end of the document the elements end with the tokens.
    assert!(Collada::parse(&tokens[..8]).is_ok());
    assert_eq!(
        ErrorKind::MissingElement { parent: "asset", expected: vec!["modified"] },
        Collada::parse(&tokens[..5]).unwrap_err().kind
    );
}

fn accessor(offset: usize, stride: usize, count: usize) -> Accessor {
    Accessor { count, offset, source: AnyUri("#array".into()), stride, params: vec![] }
}

#[test]
fn accessor_takes_an_array_apart() {
    let array: Vec<u32> = (0..11).collect();
    let accessor = accessor(2, 3, 3);
    assert_eq!(&[2, 3, 4], accessor.access(&array, 0));
    assert_eq!(&[5, 6, 7], accessor.access(&array, 1));
    assert_eq!(&[8, 9, 10], accessor.access(&array, 2));
    let mut joined = Vec::new();
    for i in 0..accessor.count {
        joined.extend_from_slice(accessor.access(&array, i));
    }
    assert_eq!(&array[2..], &joined[..]);
    assert_eq!(Some(&array[8..11]), accessor.checked_access(&array, 2));
    assert_eq!(None, accessor.checked_access(&array, 3));
    assert_eq!(None, accessor.checked_access(&array, usize::MAX));
    let plain = self::accessor(0, 1, 11);
    assert_eq!(&[7], plain.access(&array, 7));
    let empty = self::accessor(1, 0, 5);
    assert!(empty.access(&array, 4).is_empty());
}

fn input(offset: usize, semantic: &str) -> SharedInput {
    SharedInput {
        offset,
        semantic: semantic.into(),
        source: UriFragment("source".into()),
        set: None,
    }
}

fn polylist(inputs: Vec<SharedInput>, vcount: Option<Vec<usize>>, p: Option<Vec<usize>>) -> Polylist {
    Polylist {
        name: None,
        count: vcount.as_ref().map(|v| v.len()).unwrap_or(0),
        material: None,
        inputs,
        vcount: vcount.map(|data| VCount { data }),
        primitives: p.map(|data| Primitives { data }),
        extras: vec![],
    }
}

#[test]
fn three_triangles_of_two_attributes() {
    let indices: Vec<usize> = (100..118).collect();
    let list = polylist(
        vec![input(0, "VERTEX"), input(1, "NORMAL")],
        Some(vec![3, 3, 3]),
        Some(indices.clone()),
    );
    assert_eq!(3, list.len());
    let mut polygons = list.iter();
    let mut seen = 0;
    while let Some(polygon) = polygons.next() {
        assert_eq!(3, polygon.len());
        let mut vertices = polygon.iter();
        let mut count = 0;
        while let Some(vertex) = vertices.next() {
            let mut attributes = vertex.iter();
            let first = attributes.next().unwrap();
            let second = attributes.next().unwrap();
            assert_eq!(None, attributes.next());
            let base = 100 + 6 * seen + 2 * count;
            assert_eq!(VertexAttribute { index: base, offset: 0 }, first);
            assert_eq!(VertexAttribute { index: base + 1, offset: 1 }, second);
            count += 1;
        }
        assert_eq!(3, count);
        seen += 1;
    }
    assert_eq!(3, seen);
}

#[test]
fn polygons_of_different_sizes_and_shared_offsets() {
    let list = polylist(
        vec![input(0, "VERTEX"), input(2, "TEXCOORD"), input(0, "COLOR")],
        Some(vec![1, 2]),
        Some(vec![1, 2, 3, 4, 5, 6, 7, 8, 9, 10]),
    );
    let mut polygons = list.checked_iter().unwrap();
    let first: Polygon = polygons.next().unwrap();
    assert_eq!(&[1, 2, 3], first.indices);
    let second = polygons.next().unwrap();
    assert_eq!(&[4, 5, 6, 7, 8, 9], second.indices);
    assert!(polygons.next().is_none());
    let mut shared: InputsForOffset = list.inputs_for_offset(0);
    assert_eq!("VERTEX", shared.next().unwrap().semantic);
    assert_eq!("COLOR", shared.next().unwrap().semantic);
    assert!(shared.next().is_none());
    assert!(list.inputs_for_offset(1).next().is_none());
}

#[test]
fn index_lists_are_slices() {
    let indices = Primitives { data: vec![4, 5, 6] };
    assert_eq!(&[4, 5, 6], &*indices);
    assert_eq!(3, indices.len());
    let counts = VCount { data: vec![3] };
    assert_eq!(Some(&3), counts.first());
}

#[test]
fn polylist_without_counts_has_no_polygons() {
    let list = polylist(vec![input(0, "VERTEX")], None, Some(vec![1, 2, 3]));
    assert!(list.checked_iter().unwrap().next().is_none());
    let list = polylist(vec![input(0, "VERTEX")], Some(vec![3]), None);
    assert!(list.checked_iter().unwrap().next().is_none());
}

#[test]
fn polylist_that_cannot_be_indexed() {
    // Without an input the number of indices of a vertex is not defined.
    assert!(polylist(vec![], Some(vec![1]), Some(vec![1])).checked_iter().is_none());
    assert!(polylist(vec![input(usize::MAX, "A")], None, None).checked_iter().is_none());
}

#[test]
fn polygon_without_its_indices_is_found_before_it_is_taken() {
    // Two indices per vertex: the first polygon has its four, the second has
    // only three of its four.
    let list = polylist(vec![input(1, "A")], Some(vec![2, 2]), Some(vec![1, 2, 3, 4, 5, 6, 7]));
    let mut polygons = list.checked_iter().unwrap();
    assert!(polygons.next_has_indices());
    assert_eq!(&[1, 2, 3, 4], polygons.next().unwrap().indices);
    assert!(!polygons.next_has_indices());
    // A count that cannot be held is found as well.
    let list = polylist(vec![input(0, "A")], Some(vec![1, usize::MAX]), Some(vec![1]));
    let mut polygons = list.checked_iter().unwrap();
    assert!(polygons.next_has_indices());
    assert_eq!(&[1], polygons.next().unwrap().indices);
    assert!(!polygons.next_has_indices());
    // At the end there is nothing to ask for.
    let list = polylist(vec![input(0, "A")], Some(vec![1]), Some(vec![1]));
    let mut polygons = list.checked_iter().unwrap();
    assert!(polygons.next().is_some());
    assert!(polygons.next_has_indices());
    assert!(polygons.next().is_none());
}

#[test]
fn mesh_sources_are_found_by_identifier() {
    let document = Collada::from_str(
        r##"<COLLADA version="1.4.1">
          <asset><created>2017-02-07T20:44:30Z</created><modified>2017-02-07T20:44:30Z</modified></asset>
          <library_geometries id="lib">
            <geometry name="g">
              <mesh>
                <source id="first"/>
                <source id="second" name="s">
                  <float_array count="2" digits="3">1.5 -2</float_array>
                  <technique_common><accessor source="#a" count="2" offset="1"/></technique_common>
                </source>
                <vertices id="v"><input semantic="POSITION" source="#first"/></vertices>
                <triangles count="1"><p>0 1 2</p></triangles>
              </mesh>
            </geometry>
          </library_geometries>
        </COLLADA>"##,
    )
    .unwrap();
    let library = document.libraries[0].as_library_geometries().unwrap();
    assert_eq!(Some("lib".to_string()), library.id);
    let geometry = &library.geometries[0];
    assert!(geometry.geometric_element.as_convex_mesh().is_none());
    assert!(geometry.geometric_element.as_spline().is_none());
    let mesh = geometry.geometric_element.as_mesh().unwrap();
    assert!(mesh.find_source("third").is_none());
    assert!(mesh.find_source("first").unwrap().common_accessor().is_none());
    let second = mesh.find_source("second").unwrap();
    assert_eq!(Some("s".to_string()), second.name);
    let accessor = second.common_accessor().unwrap();
    assert_eq!((2, 1, 1), (accessor.count, accessor.offset, accessor.stride));
    assert_eq!("#a", accessor.source.0);
    let array = second.array.as_ref().unwrap().as_float_array().unwrap();
    assert_eq!((2, 3, 38), (array.count, array.digits, array.magnitude));
    assert_eq!("first", mesh.vertices.inputs[0].source.id());
    assert!(mesh.primitives[0].as_polylist().is_none());
}

#[test]
fn document_type_declaration_that_nests_too_deeply_is_malformed() {
    let message = "Document type declaration nests '<' too deeply";
    let mut deep = String::from("\n <!DOCTYPE");
    deep.push_str(&"<".repeat(255));
    // The last `<` is the first that is one too many.
    let position = TextPosition { row: 1, column: 264 };
    assert_eq!(Some(position), find_deep_doctype(deep.as_bytes()));
    let tokens = tokenize(deep.as_bytes());
    assert_eq!(
        vec![Token { position, kind: TokenKind::Malformed { message: message.into() } }],
        tokens
    );
    let expected =
        Error { position, kind: ErrorKind::XmlError(XmlError { message: message.into() }) };
    assert_eq!(expected, Collada::from_str(&deep).unwrap_err());
    assert_eq!(expected, v1_5::Collada::from_str(&deep).unwrap_err());
    assert_eq!(expected, VersionedDocument::from_str(&deep).unwrap_err());
    // What follows the place does not matter.
    deep.push_str(">>><COLLADA/>");
    assert_eq!(Some(position), find_deep_doctype(deep.as_bytes()));
}

#[test]
fn document_type_declaration_of_the_deepest_nesting_is_read() {
    let mut document = String::from("<!DOCTYPE a ");
    document.push_str(&"<".repeat(254));
    document.push_str(&">".repeat(255));
    document.push_str("<COLLADA version=\"1.4.1\"><asset/></COLLADA>");
    assert_eq!(None, find_deep_doctype(document.as_bytes()));
    let error = Collada::from_str(&document).unwrap_err();
    assert_eq!(
        ErrorKind::MissingElement { parent: "asset", expected: vec!["created"] },
        error.kind
    );
    // A declaration that has ended starts the count anew.
    let mut twice = String::from("<!DOCTYPE a <b>>");
    twice.push_str("<!DOCTYPE a ");
    twice.push_str(&"<".repeat(254));
    assert_eq!(None, find_deep_doctype(twice.as_bytes()));
    twice.push('<');
    assert_eq!(
        Some(TextPosition { row: 0, column: 16 + 12 + 254 }),
        find_deep_doctype(twice.as_bytes())
    );
    // Outside a declaration nothing is counted.
    assert_eq!(None, find_deep_doctype("<".repeat(1000).as_bytes()));
    assert_eq!(None, find_deep_doctype(b"<!DOCTYP"));
    assert_eq!(None, find_deep_doctype(b""));
}

#[test]
fn attributes_that_are_left_out_have_their_defaults_anywhere_in_a_document() {
    let document = Collada::from_str(
        r##"<COLLADA version="1.4.1">
          <asset><created>2017-02-07T20:44:30Z</created><modified>2017-02-07T20:44:30Z</modified></asset>
          <library_geometries>
            <geometry>
              <mesh>
                <source id="s">
                  <float_array count="2">1.5 -2</float_array>
                  <technique_common><accessor source="#a" count="2"/></technique_common>
                </source>
                <vertices id="v"><input semantic="POSITION" source="#s"/></vertices>
              </mesh>
            </geometry>
          </library_geometries>
        </COLLADA>"##,
    )
    .unwrap();
    let library = document.libraries[0].as_library_geometries().unwrap();
    let mesh = library.geometries[0].geometric_element.as_mesh().unwrap();
    let source = mesh.find_source("s").unwrap();
    let array = source.array.as_ref().unwrap().as_float_array().unwrap();
    assert_eq!((6, 38), (array.digits, array.magnitude));
    let accessor = source.common_accessor().unwrap();
    assert_eq!((0, 1), (accessor.offset, accessor.stride));
}
