//! Type definitions matching the COLLADA `1.4.1` specification.
//!
//! Note that the COLLADA `1.4.0` specification is subsumed by the `1.4.1` spec,
//! so `1.4.0` documents are still accurately represented by the types in this
//! module.

use crate::common::{AnyUri, DateTime, Technique, Unit, UpAxis, UriFragment};
use crate::document::{document_spec, lemma_malformed_document, parse_document};
use crate::element::{
    decimals_from, decimals_of, defaulted, integer_from, integer_of, integer_or, integer_or_from,
    integers_from, integers_of, many, optional, pick, represent_all, represent_defaulted,
    represent_optional, represent_required, required, string_view, text_from, text_of,
    text_or_empty, text_or_empty_from, time_or_epoch, time_or_epoch_from, uri_from, uri_view,
    which, ColladaElement,
};
use crate::engine::parse_element_spec;
use crate::error::{ErrorKindView, ErrorView, Result};
use crate::grammar::{
    lemma_child_read, lemma_document_read, lemma_element_default, lemma_missing_attribute,
    lemma_node_conforms, lemma_node_identity, lemma_owed_child_present, read_at, read_through,
    unwritten,
};
use crate::node::{Node, NodeView};
use crate::number::spans_view;
use crate::schema::{
    check_attributes_spec, choice, choice_view, container, declared_views, defaulted_attribute,
    defaulted_view, ignored, ignored_view, leaf, leaf_view, optional_attribute, optional_view,
    required_attribute, required_view, rule_views, slot, slot_view, AttributeConfiguration,
    ChildConfiguration, ChildOccurrences, Content, ContentView, ElementConfiguration,
    ElementConfigurationView, Schema, SchemaView, TextOccurrences,
};
use crate::source::{deep_doctype, document_tokens, refusal_error, tokenize};
use crate::text::{str_eq, views};
use crate::token::{AttributeView, Token};
use crate::utils::name_at;
use crate::value::{lemma_position_of, DecimalList, Value, ValueKind, ValueKindView, ValueView};
use vstd::prelude::*;
use vstd::slice::slice_subrange;
use vstd::string::*;

verus! {

/// The place of `<COLLADA>` in the schema.
pub const COLLADA: usize = 0;

/// The place of `<asset>` in the schema.
pub const ASSET: usize = 1;

/// The place of `<contributor>` in the schema.
pub const CONTRIBUTOR: usize = 2;

/// The place of `<author>` in the schema.
pub const AUTHOR: usize = 3;

/// The place of `<authoring_tool>` in the schema.
pub const AUTHORING_TOOL: usize = 4;

/// The place of `<comments>` in the schema.
pub const COMMENTS: usize = 5;

/// The place of `<copyright>` in the schema.
pub const COPYRIGHT: usize = 6;

/// The place of `<source_data>` in the schema.
pub const SOURCE_DATA: usize = 7;

/// The place of `<created>` in the schema.
pub const CREATED: usize = 8;

/// The place of `<keywords>` in the schema.
pub const KEYWORDS: usize = 9;

/// The place of `<modified>` in the schema.
pub const MODIFIED: usize = 10;

/// The place of `<revision>` in the schema.
pub const REVISION: usize = 11;

/// The place of `<subject>` in the schema.
pub const SUBJECT: usize = 12;

/// The place of `<title>` in the schema.
pub const TITLE: usize = 13;

/// The place of `<unit>` in the schema.
pub const UNIT: usize = 14;

/// The place of `<up_axis>` in the schema.
pub const UP_AXIS: usize = 15;

/// The place of `<extra>` in the schema.
pub const EXTRA: usize = 16;

/// The place of `<technique>` in the schema.
pub const TECHNIQUE: usize = 17;

/// The place of `<library_animations>` in the schema.
pub const LIBRARY_ANIMATIONS: usize = 18;

/// The place of `<library_animation_clips>` in the schema.
pub const LIBRARY_ANIMATION_CLIPS: usize = 19;

/// The place of `<library_cameras>` in the schema.
pub const LIBRARY_CAMERAS: usize = 20;

/// The place of `<library_controllers>` in the schema.
pub const LIBRARY_CONTROLLERS: usize = 21;

/// The place of `<library_effects>` in the schema.
pub const LIBRARY_EFFECTS: usize = 22;

/// The place of `<library_force_fields>` in the schema.
pub const LIBRARY_FORCE_FIELDS: usize = 23;

/// The place of `<library_geometries>` in the schema.
pub const LIBRARY_GEOMETRIES: usize = 24;

/// The place of `<library_images>` in the schema.
pub const LIBRARY_IMAGES: usize = 25;

/// The place of `<library_lights>` in the schema.
pub const LIBRARY_LIGHTS: usize = 26;

/// The place of `<library_materials>` in the schema.
pub const LIBRARY_MATERIALS: usize = 27;

/// The place of `<library_nodes>` in the schema.
pub const LIBRARY_NODES: usize = 28;

/// The place of `<library_physics_materials>` in the schema.
pub const LIBRARY_PHYSICS_MATERIALS: usize = 29;

/// The place of `<library_physics_models>` in the schema.
pub const LIBRARY_PHYSICS_MODELS: usize = 30;

/// The place of `<library_physics_scenes>` in the schema.
pub const LIBRARY_PHYSICS_SCENES: usize = 31;

/// The place of `<library_visual_scenes>` in the schema.
pub const LIBRARY_VISUAL_SCENES: usize = 32;

/// The place of `<scene>` in the schema.
pub const SCENE: usize = 33;

/// The place of `<geometry>` in the schema.
pub const GEOMETRY: usize = 34;

/// The place of `<convex_mesh>` in the schema.
pub const CONVEX_MESH: usize = 35;

/// The place of `<mesh>` in the schema.
pub const MESH: usize = 36;

/// The place of `<spline>` in the schema.
pub const SPLINE: usize = 37;

/// The place of `<source>` in the schema.
pub const SOURCE: usize = 38;

/// The place of `<IDREF_array>` in the schema.
pub const IDREF_ARRAY: usize = 39;

/// The place of `<Name_array>` in the schema.
pub const NAME_ARRAY: usize = 40;

/// The place of `<bool_array>` in the schema.
pub const BOOL_ARRAY: usize = 41;

/// The place of `<float_array>` in the schema.
pub const FLOAT_ARRAY: usize = 42;

/// The place of `<int_array>` in the schema.
pub const INT_ARRAY: usize = 43;

/// The place of `<technique_common>` in the schema.
pub const TECHNIQUE_COMMON: usize = 44;

/// The place of `<accessor>` in the schema.
pub const ACCESSOR: usize = 45;

/// The place of `<param>` in the schema.
pub const PARAM: usize = 46;

/// The place of `<vertices>` in the schema.
pub const VERTICES: usize = 47;

/// The place of `<input>` in the schema.
pub const INPUT: usize = 48;

/// The place of `<lines>` in the schema.
pub const LINES: usize = 49;

/// The place of `<linestrips>` in the schema.
pub const LINESTRIPS: usize = 50;

/// The place of `<polygons>` in the schema.
pub const POLYGONS: usize = 51;

/// The place of `<polylist>` in the schema.
pub const POLYLIST: usize = 52;

/// The place of `<triangles>` in the schema.
pub const TRIANGLES: usize = 53;

/// The place of `<trifans>` in the schema.
pub const TRIFANS: usize = 54;

/// The place of `<tristrips>` in the schema.
pub const TRISTRIPS: usize = 55;

/// The place of `<input>` in the schema.
pub const SHARED_INPUT: usize = 56;

/// The place of `<vcount>` in the schema.
pub const VCOUNT: usize = 57;

/// The place of `<p>` in the schema.
pub const P: usize = 58;

/// Represents a complete COLLADA document.
#[derive(Debug, Clone, PartialEq)]
pub struct Collada {
    /// The version string for the COLLADA specification used by the document.
    ///
    /// Will be "1.4.0" or "1.4.1".
    pub version: String,
    /// Included for completeness in parsing, not actually used.
    pub xmlns: Option<String>,
    /// The base uri for any relative URIs in the document.
    pub base_uri: Option<AnyUri>,
    /// Global metadata about the COLLADA document.
    pub asset: Asset,
    /// The collection of libraries that hold the bulk of the actual data contained in the
    /// document.
    ///
    /// Libraries can occur in any order, and there can be 0 or more libraries of any given
    /// type.
    pub libraries: Vec<Library>,
    /// Defines the scene hierarchy associated with this document.
    pub scene: Option<Scene>,
    /// Arbitrary additional information about the document as a whole.
    pub extras: Vec<Extra>,
}

impl Collada {
    /// What `<COLLADA>` may hold.
    pub open spec fn description() -> ElementConfigurationView {
        ElementConfigurationView {
            name: "COLLADA"@,
            attributes: seq![
                required_view("version"@, ValueKindView::Text),
                optional_view("xmlns"@, ValueKindView::Text),
                optional_view("base"@, ValueKindView::Text),
            ],
            content: ContentView::Children(
                seq![
                    slot_view("asset"@, ASSET, ChildOccurrences::Required),
                    choice_view(seq!["library_animations"@, "library_animation_clips"@, "library_cameras"@, "library_controllers"@, "library_effects"@, "library_force_fields"@, "library_geometries"@, "library_images"@, "library_lights"@, "library_materials"@, "library_nodes"@, "library_physics_materials"@, "library_physics_models"@, "library_physics_scenes"@, "library_visual_scenes"@], seq![LIBRARY_ANIMATIONS, LIBRARY_ANIMATION_CLIPS, LIBRARY_CAMERAS, LIBRARY_CONTROLLERS, LIBRARY_EFFECTS, LIBRARY_FORCE_FIELDS, LIBRARY_GEOMETRIES, LIBRARY_IMAGES, LIBRARY_LIGHTS, LIBRARY_MATERIALS, LIBRARY_NODES, LIBRARY_PHYSICS_MATERIALS, LIBRARY_PHYSICS_MODELS, LIBRARY_PHYSICS_SCENES, LIBRARY_VISUAL_SCENES], ChildOccurrences::Many),
                    slot_view("scene"@, SCENE, ChildOccurrences::Optional),
                    slot_view("extra"@, EXTRA, ChildOccurrences::Many),
                ],
            ),
        }
    }

    /// What `<COLLADA>` may hold.
    pub fn configuration() -> (r: ElementConfiguration)
        ensures
            r@ == Self::description(),
    {
        let attributes = vec![
            required_attribute("version", ValueKind::Text),
            optional_attribute("xmlns", ValueKind::Text),
            optional_attribute("base", ValueKind::Text),
        ];
        assert(declared_views(attributes@) =~= Self::description().attributes);
        let rules = vec![
            slot("asset", ASSET, ChildOccurrences::Required),
            choice(collect_library_names(), vec![LIBRARY_ANIMATIONS, LIBRARY_ANIMATION_CLIPS, LIBRARY_CAMERAS, LIBRARY_CONTROLLERS, LIBRARY_EFFECTS, LIBRARY_FORCE_FIELDS, LIBRARY_GEOMETRIES, LIBRARY_IMAGES, LIBRARY_LIGHTS, LIBRARY_MATERIALS, LIBRARY_NODES, LIBRARY_PHYSICS_MATERIALS, LIBRARY_PHYSICS_MODELS, LIBRARY_PHYSICS_SCENES, LIBRARY_VISUAL_SCENES], ChildOccurrences::Many),
            slot("scene", SCENE, ChildOccurrences::Optional),
            slot("extra", EXTRA, ChildOccurrences::Many),
        ];
        assert(rule_views(rules@) =~= Self::description().children());
        container("COLLADA", attributes, rules)
    }
}

impl ColladaElement for Collada {
    open spec fn represents(self, node: NodeView) -> bool {
        &&& self.version@ == text_or_empty(node.attribute(0))
        &&& string_view(self.xmlns) == text_of(node.attribute(1))
        &&& uri_view(self.base_uri) == text_of(node.attribute(2))
        &&& represent_required(self.asset, node.child(0))
        &&& represent_all(self.libraries@, node.children_of(1))
        &&& represent_optional(self.scene, node.child(2))
        &&& represent_all(self.extras@, node.children_of(3))
    }

    fn from_node(node: &Node) -> (r: Self) {
        Collada {
            version: text_or_empty_from(node.attribute(0)),
            xmlns: text_from(node.attribute(1)),
            base_uri: uri_from(node.attribute(2)),
            asset: required(node, 0),
            libraries: many(node, 1),
            scene: optional(node, 2),
            extras: many(node, 3),
        }
    }
}

/// Describes a stream of values from an array data source.
///
/// An accessor declares an access pattern into an array of source data. The arrays can be
/// arranged in either an interleaved or noninterleaved manner, depending on the `offset`
/// and `stride` values.
#[derive(Debug, Clone, PartialEq)]
pub struct Accessor {
    /// The number of times the array is accessed.
    pub count: usize,
    /// The index of the first value to be read from the array.
    pub offset: usize,
    /// The location of the array to access.
    pub source: AnyUri,
    /// The number of values that are to be considered a unit during each access to the
    /// array.
    pub stride: usize,
    pub params: Vec<Param>,
}

impl Accessor {
    /// What `<accessor>` may hold.
    pub open spec fn description() -> ElementConfigurationView {
        ElementConfigurationView {
            name: "accessor"@,
            attributes: seq![
                required_view("count"@, ValueKindView::Integer),
                defaulted_view("offset"@, ValueKindView::Integer, ValueView::Integer(0)),
                required_view("source"@, ValueKindView::Text),
                defaulted_view("stride"@, ValueKindView::Integer, ValueView::Integer(1)),
            ],
            content: ContentView::Children(
                seq![
                    slot_view("param"@, PARAM, ChildOccurrences::Many),
                ],
            ),
        }
    }

    /// What `<accessor>` may hold.
    pub fn configuration() -> (r: ElementConfiguration)
        ensures
            r@ == Self::description(),
    {
        let attributes = vec![
            required_attribute("count", ValueKind::Integer),
            defaulted_attribute("offset", ValueKind::Integer, Value::Integer(0)),
            required_attribute("source", ValueKind::Text),
            defaulted_attribute("stride", ValueKind::Integer, Value::Integer(1)),
        ];
        assert(declared_views(attributes@) =~= Self::description().attributes);
        let rules = vec![
            slot("param", PARAM, ChildOccurrences::Many),
        ];
        assert(rule_views(rules@) =~= Self::description().children());
        container("accessor", attributes, rules)
    }
}

impl ColladaElement for Accessor {
    open spec fn represents(self, node: NodeView) -> bool {
        &&& self.count == integer_or(node.attribute(0), 0)
        &&& self.offset == integer_or(node.attribute(1), 0)
        &&& self.source.0@ == text_or_empty(node.attribute(2))
        &&& self.stride == integer_or(node.attribute(3), 1)
        &&& represent_all(self.params@, node.children_of(0))
    }

    fn from_node(node: &Node) -> (r: Self) {
        Accessor {
            count: integer_or_from(node.attribute(0), 0),
            offset: integer_or_from(node.attribute(1), 0),
            source: AnyUri(text_or_empty_from(node.attribute(2))),
            stride: integer_or_from(node.attribute(3), 1),
            params: many(node, 0),
        }
    }
}

/// The array of a [`Source`], of one of five kinds.
#[derive(Debug, Clone, PartialEq)]
pub enum Array {
    Idref(IdrefArray),
    Name(NameArray),
    Bool(BoolArray),
    Float(FloatArray),
    Int(IntArray),
}

/// The names of the elements that stand for the variants of [`Array`], in
/// order.
pub open spec fn array_names() -> Seq<Seq<char>> {
    seq!["IDREF_array"@, "Name_array"@, "bool_array"@, "float_array"@, "int_array"@]
}

/// The names of the elements that stand for the variants of [`Array`], in
/// order.
pub fn collect_array_names() -> (r: Vec<&'static str>)
    ensures
        views(r@) == array_names(),
{
    let names = vec!["IDREF_array", "Name_array", "bool_array", "float_array", "int_array"];
    assert(views(names@) =~= array_names());
    names
}

impl ColladaElement for Array {
    open spec fn represents(self, node: NodeView) -> bool {
        match self {
            Array::Idref(v) => which(array_names(), node.name) == 0 && v.represents(node),
            Array::Name(v) => which(array_names(), node.name) == 1 && v.represents(node),
            Array::Bool(v) => which(array_names(), node.name) == 2 && v.represents(node),
            Array::Float(v) => which(array_names(), node.name) == 3 && v.represents(node),
            Array::Int(v) => which(array_names(), node.name) == 4 && v.represents(node),
        }
    }

    fn from_node(node: &Node) -> (r: Self) {
        let names = collect_array_names();
        match pick(names.as_slice(), node.name.as_str()) {
            0 => Array::Idref(IdrefArray::from_node(node)),
            1 => Array::Name(NameArray::from_node(node)),
            2 => Array::Bool(BoolArray::from_node(node)),
            3 => Array::Float(FloatArray::from_node(node)),
            _ => Array::Int(IntArray::from_node(node)),
        }
    }
}

/// Asset-management information about an element.
#[derive(Debug, Clone, PartialEq)]
pub struct Asset {
    pub contributors: Vec<Contributor>,
    pub created: DateTime,
    pub keywords: Option<String>,
    pub modified: DateTime,
    pub revision: Option<String>,
    pub subject: Option<String>,
    pub title: Option<String>,
    pub unit: Unit,
    pub up_axis: UpAxis,
}

impl Asset {
    /// What `<asset>` may hold.
    pub open spec fn description() -> ElementConfigurationView {
        ElementConfigurationView {
            name: "asset"@,
            attributes: Seq::empty(),
            content: ContentView::Children(
                seq![
                    slot_view("contributor"@, CONTRIBUTOR, ChildOccurrences::Many),
                    slot_view("created"@, CREATED, ChildOccurrences::Required),
                    slot_view("keywords"@, KEYWORDS, ChildOccurrences::Optional),
                    slot_view("modified"@, MODIFIED, ChildOccurrences::Required),
                    slot_view("revision"@, REVISION, ChildOccurrences::Optional),
                    slot_view("subject"@, SUBJECT, ChildOccurrences::Optional),
                    slot_view("title"@, TITLE, ChildOccurrences::Optional),
                    slot_view("unit"@, UNIT, ChildOccurrences::OptionalWithDefault),
                    slot_view("up_axis"@, UP_AXIS, ChildOccurrences::OptionalWithDefault),
                ],
            ),
        }
    }

    /// What `<asset>` may hold.
    pub fn configuration() -> (r: ElementConfiguration)
        ensures
            r@ == Self::description(),
    {
        let attributes: Vec<AttributeConfiguration> = Vec::new();
        assert(declared_views(attributes@) =~= Self::description().attributes);
        let rules = vec![
            slot("contributor", CONTRIBUTOR, ChildOccurrences::Many),
            slot("created", CREATED, ChildOccurrences::Required),
            slot("keywords", KEYWORDS, ChildOccurrences::Optional),
            slot("modified", MODIFIED, ChildOccurrences::Required),
            slot("revision", REVISION, ChildOccurrences::Optional),
            slot("subject", SUBJECT, ChildOccurrences::Optional),
            slot("title", TITLE, ChildOccurrences::Optional),
            slot("unit", UNIT, ChildOccurrences::OptionalWithDefault),
            slot("up_axis", UP_AXIS, ChildOccurrences::OptionalWithDefault),
        ];
        assert(rule_views(rules@) =~= Self::description().children());
        container("asset", attributes, rules)
    }
}

impl ColladaElement for Asset {
    open spec fn represents(self, node: NodeView) -> bool {
        &&& represent_all(self.contributors@, node.children_of(0))
        &&& self.created == time_or_epoch(node.child_text(1))
        &&& string_view(self.keywords) == text_of(node.child_text(2))
        &&& self.modified == time_or_epoch(node.child_text(3))
        &&& string_view(self.revision) == text_of(node.child_text(4))
        &&& string_view(self.subject) == text_of(node.child_text(5))
        &&& string_view(self.title) == text_of(node.child_text(6))
        &&& represent_defaulted(self.unit, node.child(7))
        &&& represent_defaulted(self.up_axis, node.child(8))
    }

    fn from_node(node: &Node) -> (r: Self) {
        Asset {
            contributors: many(node, 0),
            created: time_or_epoch_from(node.child_text(1)),
            keywords: text_from(node.child_text(2)),
            modified: time_or_epoch_from(node.child_text(3)),
            revision: text_from(node.child_text(4)),
            subject: text_from(node.child_text(5)),
            title: text_from(node.child_text(6)),
            unit: defaulted(node, 7),
            up_axis: defaulted(node, 8),
        }
    }
}

/// The element `<bool_array>`. What it holds is passed over.
#[derive(Debug, Clone, PartialEq)]
pub struct BoolArray;

impl ColladaElement for BoolArray {
    open spec fn represents(self, node: NodeView) -> bool {
        true
    }

    fn from_node(node: &Node) -> (r: Self) {
        BoolArray
    }
}

/// Information about a contributor to an asset.
#[derive(Debug, Clone, Default, PartialEq, Eq)]
pub struct Contributor {
    pub author: Option<String>,
    pub authoring_tool: Option<String>,
    pub comments: Option<String>,
    pub copyright: Option<String>,
    pub source_data: Option<AnyUri>,
}

impl Contributor {
    /// What `<contributor>` may hold.
    pub open spec fn description() -> ElementConfigurationView {
        ElementConfigurationView {
            name: "contributor"@,
            attributes: Seq::empty(),
            content: ContentView::Children(
                seq![
                    slot_view("author"@, AUTHOR, ChildOccurrences::Optional),
                    slot_view("authoring_tool"@, AUTHORING_TOOL, ChildOccurrences::Optional),
                    slot_view("comments"@, COMMENTS, ChildOccurrences::Optional),
                    slot_view("copyright"@, COPYRIGHT, ChildOccurrences::Optional),
                    slot_view("source_data"@, SOURCE_DATA, ChildOccurrences::Optional),
                ],
            ),
        }
    }

    /// What `<contributor>` may hold.
    pub fn configuration() -> (r: ElementConfiguration)
        ensures
            r@ == Self::description(),
    {
        let attributes: Vec<AttributeConfiguration> = Vec::new();
        assert(declared_views(attributes@) =~= Self::description().attributes);
        let rules = vec![
            slot("author", AUTHOR, ChildOccurrences::Optional),
            slot("authoring_tool", AUTHORING_TOOL, ChildOccurrences::Optional),
            slot("comments", COMMENTS, ChildOccurrences::Optional),
            slot("copyright", COPYRIGHT, ChildOccurrences::Optional),
            slot("source_data", SOURCE_DATA, ChildOccurrences::Optional),
        ];
        assert(rule_views(rules@) =~= Self::description().children());
        container("contributor", attributes, rules)
    }
}

impl ColladaElement for Contributor {
    open spec fn represents(self, node: NodeView) -> bool {
        &&& string_view(self.author) == text_of(node.child_text(0))
        &&& string_view(self.authoring_tool) == text_of(node.child_text(1))
        &&& string_view(self.comments) == text_of(node.child_text(2))
        &&& string_view(self.copyright) == text_of(node.child_text(3))
        &&& uri_view(self.source_data) == text_of(node.child_text(4))
    }

    fn from_node(node: &Node) -> (r: Self) {
        Contributor {
            author: text_from(node.child_text(0)),
            authoring_tool: text_from(node.child_text(1)),
            comments: text_from(node.child_text(2)),
            copyright: text_from(node.child_text(3)),
            source_data: uri_from(node.child_text(4)),
        }
    }
}

/// The element `<convex_mesh>`. What it holds is passed over.
#[derive(Debug, Clone, PartialEq)]
pub struct ConvexMesh;

impl ColladaElement for ConvexMesh {
    open spec fn represents(self, node: NodeView) -> bool {
        true
    }

    fn from_node(node: &Node) -> (r: Self) {
        ConvexMesh
    }
}

/// Provides arbitrary additional information about an element.
///
/// COLLADA allows for applications to provide extra information about any given
/// piece of data, including application-specific information that's not part of
/// the COLLADA specification. This data can be any syntactically valid XML data,
/// and is not parsed as part of this library.
///
/// There may be more than one [`Technique`] provided in `techniques`, but
/// generally only one is used by the consuming application. The application
/// should pick a technique with a supported profile.
#[derive(Debug, Clone, PartialEq)]
pub struct Extra {
    /// The identifier of the element, if present. Will be unique within the document.
    pub id: Option<String>,
    /// The text string name of the element, if present.
    pub name: Option<String>,
    /// A hint as to the type of information this element represents, if present.
    pub type_hint: Option<String>,
    /// Asset-management information for this element, if present.
    pub asset: Option<Asset>,
    /// The arbitrary additional information. There will always be at least one item in
    /// `techniques`.
    pub techniques: Vec<Technique>,
}

impl Extra {
    /// What `<extra>` may hold.
    pub open spec fn description() -> ElementConfigurationView {
        ElementConfigurationView {
            name: "extra"@,
            attributes: seq![
                optional_view("id"@, ValueKindView::Text),
                optional_view("name"@, ValueKindView::Text),
                optional_view("type"@, ValueKindView::Text),
            ],
            content: ContentView::Children(
                seq![
                    slot_view("asset"@, ASSET, ChildOccurrences::Optional),
                    slot_view("technique"@, TECHNIQUE, ChildOccurrences::RequiredMany),
                ],
            ),
        }
    }

    /// What `<extra>` may hold.
    pub fn configuration() -> (r: ElementConfiguration)
        ensures
            r@ == Self::description(),
    {
        let attributes = vec![
            optional_attribute("id", ValueKind::Text),
            optional_attribute("name", ValueKind::Text),
            optional_attribute("type", ValueKind::Text),
        ];
        assert(declared_views(attributes@) =~= Self::description().attributes);
        let rules = vec![
            slot("asset", ASSET, ChildOccurrences::Optional),
            slot("technique", TECHNIQUE, ChildOccurrences::RequiredMany),
        ];
        assert(rule_views(rules@) =~= Self::description().children());
        container("extra", attributes, rules)
    }
}

impl ColladaElement for Extra {
    open spec fn represents(self, node: NodeView) -> bool {
        &&& string_view(self.id) == text_of(node.attribute(0))
        &&& string_view(self.name) == text_of(node.attribute(1))
        &&& string_view(self.type_hint) == text_of(node.attribute(2))
        &&& represent_optional(self.asset, node.child(0))
        &&& represent_all(self.techniques@, node.children_of(1))
    }

    fn from_node(node: &Node) -> (r: Self) {
        Extra {
            id: text_from(node.attribute(0)),
            name: text_from(node.attribute(1)),
            type_hint: text_from(node.attribute(2)),
            asset: optional(node, 0),
            techniques: many(node, 1),
        }
    }
}

/// An array of decimal numbers.
#[derive(Debug, Clone, PartialEq)]
pub struct FloatArray {
    pub count: usize,
    pub id: Option<String>,
    pub name: Option<String>,
    pub digits: usize,
    pub magnitude: usize,
    pub data: DecimalList,
}

impl FloatArray {
    /// What `<float_array>` may hold.
    pub open spec fn description() -> ElementConfigurationView {
        ElementConfigurationView {
            name: "float_array"@,
            attributes: seq![
                required_view("count"@, ValueKindView::Integer),
                optional_view("id"@, ValueKindView::Text),
                optional_view("name"@, ValueKindView::Text),
                defaulted_view("digits"@, ValueKindView::Integer, ValueView::Integer(6)),
                defaulted_view("magnitude"@, ValueKindView::Integer, ValueView::Integer(38)),
            ],
            content: ContentView::Text { kind: ValueKindView::Decimals, occurrences: TextOccurrences::EmptyIfAbsent },
        }
    }

    /// What `<float_array>` may hold.
    pub fn configuration() -> (r: ElementConfiguration)
        ensures
            r@ == Self::description(),
    {
        let attributes = vec![
            required_attribute("count", ValueKind::Integer),
            optional_attribute("id", ValueKind::Text),
            optional_attribute("name", ValueKind::Text),
            defaulted_attribute("digits", ValueKind::Integer, Value::Integer(6)),
            defaulted_attribute("magnitude", ValueKind::Integer, Value::Integer(38)),
        ];
        assert(declared_views(attributes@) =~= Self::description().attributes);
        ElementConfiguration {
            name: "float_array",
            attributes,
            content: Content::Text { kind: ValueKind::Decimals, occurrences: TextOccurrences::EmptyIfAbsent },
        }
    }
}

impl ColladaElement for FloatArray {
    open spec fn represents(self, node: NodeView) -> bool {
        &&& self.count == integer_or(node.attribute(0), 0)
        &&& string_view(self.id) == text_of(node.attribute(1))
        &&& string_view(self.name) == text_of(node.attribute(2))
        &&& self.digits == integer_or(node.attribute(3), 6)
        &&& self.magnitude == integer_or(node.attribute(4), 38)
        &&& (self.data.text@, spans_view(self.data.spans@)) == decimals_of(node.text)
    }

    fn from_node(node: &Node) -> (r: Self) {
        FloatArray {
            count: integer_or_from(node.attribute(0), 0),
            id: text_from(node.attribute(1)),
            name: text_from(node.attribute(2)),
            digits: integer_or_from(node.attribute(3), 6),
            magnitude: integer_or_from(node.attribute(4), 38),
            data: decimals_from(node.text_value()),
        }
    }
}

/// A geometric element of unknown type.
///
/// Each variant wraps a single value containing a given type of geometric data.
#[derive(Debug, Clone, PartialEq)]
pub enum GeometricElement {
    ConvexMesh(ConvexMesh),
    Mesh(Mesh),
    Spline(Spline),
}

/// The names of the elements that stand for the variants of [`GeometricElement`], in
/// order.
pub open spec fn geometric_element_names() -> Seq<Seq<char>> {
    seq!["convex_mesh"@, "mesh"@, "spline"@]
}

/// The names of the elements that stand for the variants of [`GeometricElement`], in
/// order.
pub fn collect_geometric_element_names() -> (r: Vec<&'static str>)
    ensures
        views(r@) == geometric_element_names(),
{
    let names = vec!["convex_mesh", "mesh", "spline"];
    assert(views(names@) =~= geometric_element_names());
    names
}

impl ColladaElement for GeometricElement {
    open spec fn represents(self, node: NodeView) -> bool {
        match self {
            GeometricElement::ConvexMesh(v) => which(geometric_element_names(), node.name) == 0 && v.represents(node),
            GeometricElement::Mesh(v) => which(geometric_element_names(), node.name) == 1 && v.represents(node),
            GeometricElement::Spline(v) => which(geometric_element_names(), node.name) == 2 && v.represents(node),
        }
    }

    fn from_node(node: &Node) -> (r: Self) {
        let names = collect_geometric_element_names();
        match pick(names.as_slice(), node.name.as_str()) {
            0 => GeometricElement::ConvexMesh(ConvexMesh::from_node(node)),
            1 => GeometricElement::Mesh(Mesh::from_node(node)),
            _ => GeometricElement::Spline(Spline::from_node(node)),
        }
    }
}

/// Describes the visual shape and appearance of an object in a scene.
///
/// The primary purpose of `Geometry` is to provide access to a [`GeometricElement`], via
/// its `geometric_element` member.
#[derive(Debug, Clone, PartialEq)]
pub struct Geometry {
    /// A unique identifier for the geometry instance.
    pub id: Option<String>,
    /// The human-friendly name for this geometry instance.
    pub name: Option<String>,
    /// Metadata about this geometry instance and the data it contains.
    pub asset: Option<Asset>,
    /// The actual data for the geometry instance.
    pub geometric_element: GeometricElement,
    /// Arbitrary additional information about this geometry instance.
    pub extra: Vec<Extra>,
}

impl Geometry {
    /// What `<geometry>` may hold.
    pub open spec fn description() -> ElementConfigurationView {
        ElementConfigurationView {
            name: "geometry"@,
            attributes: seq![
                optional_view("id"@, ValueKindView::Text),
                optional_view("name"@, ValueKindView::Text),
            ],
            content: ContentView::Children(
                seq![
                    slot_view("asset"@, ASSET, ChildOccurrences::Optional),
                    choice_view(seq!["convex_mesh"@, "mesh"@, "spline"@], seq![CONVEX_MESH, MESH, SPLINE], ChildOccurrences::Required),
                    slot_view("extra"@, EXTRA, ChildOccurrences::Many),
                ],
            ),
        }
    }

    /// What `<geometry>` may hold.
    pub fn configuration() -> (r: ElementConfiguration)
        ensures
            r@ == Self::description(),
    {
        let attributes = vec![
            optional_attribute("id", ValueKind::Text),
            optional_attribute("name", ValueKind::Text),
        ];
        assert(declared_views(attributes@) =~= Self::description().attributes);
        let rules = vec![
            slot("asset", ASSET, ChildOccurrences::Optional),
            choice(collect_geometric_element_names(), vec![CONVEX_MESH, MESH, SPLINE], ChildOccurrences::Required),
            slot("extra", EXTRA, ChildOccurrences::Many),
        ];
        assert(rule_views(rules@) =~= Self::description().children());
        container("geometry", attributes, rules)
    }
}

impl ColladaElement for Geometry {
    open spec fn represents(self, node: NodeView) -> bool {
        &&& string_view(self.id) == text_of(node.attribute(0))
        &&& string_view(self.name) == text_of(node.attribute(1))
        &&& represent_optional(self.asset, node.child(0))
        &&& represent_required(self.geometric_element, node.child(1))
        &&& represent_all(self.extra@, node.children_of(2))
    }

    fn from_node(node: &Node) -> (r: Self) {
        Geometry {
            id: text_from(node.attribute(0)),
            name: text_from(node.attribute(1)),
            asset: optional(node, 0),
            geometric_element: required(node, 1),
            extra: many(node, 2),
        }
    }
}

/// The element `<IDREF_array>`. What it holds is passed over.
#[derive(Debug, Clone, PartialEq)]
pub struct IdrefArray;

impl ColladaElement for IdrefArray {
    open spec fn represents(self, node: NodeView) -> bool {
        true
    }

    fn from_node(node: &Node) -> (r: Self) {
        IdrefArray
    }
}

/// The element `<int_array>`. What it holds is passed over.
#[derive(Debug, Clone, PartialEq)]
pub struct IntArray;

impl ColladaElement for IntArray {
    open spec fn represents(self, node: NodeView) -> bool {
        true
    }

    fn from_node(node: &Node) -> (r: Self) {
        IntArray
    }
}

/// A single library of unknown type.
///
/// Each variant wraps a single value containing the library data.
#[derive(Debug, Clone, PartialEq)]
pub enum Library {
    Animations(LibraryAnimations),
    AnimationClips(LibraryAnimationClips),
    Cameras(LibraryCameras),
    Controllers(LibraryControllers),
    Effects(LibraryEffects),
    ForceFields(LibraryForceFields),
    Geometries(LibraryGeometries),
    Images(LibraryImages),
    Lights(LibraryLights),
    Materials(LibraryMaterials),
    Nodes(LibraryNodes),
    PhysicsMaterials(LibraryPhysicsMaterials),
    PhysicsModels(LibraryPhysicsModels),
    PhysicsScenes(LibraryPhysicsScenes),
    VisualScenes(LibraryVisualScenes),
}

/// The names of the elements that stand for the variants of [`Library`], in
/// order.
pub open spec fn library_names() -> Seq<Seq<char>> {
    seq!["library_animations"@, "library_animation_clips"@, "library_cameras"@, "library_controllers"@, "library_effects"@, "library_force_fields"@, "library_geometries"@, "library_images"@, "library_lights"@, "library_materials"@, "library_nodes"@, "library_physics_materials"@, "library_physics_models"@, "library_physics_scenes"@, "library_visual_scenes"@]
}

/// The names of the elements that stand for the variants of [`Library`], in
/// order.
pub fn collect_library_names() -> (r: Vec<&'static str>)
    ensures
        views(r@) == library_names(),
{
    let names = vec!["library_animations", "library_animation_clips", "library_cameras", "library_controllers", "library_effects", "library_force_fields", "library_geometries", "library_images", "library_lights", "library_materials", "library_nodes", "library_physics_materials", "library_physics_models", "library_physics_scenes", "library_visual_scenes"];
    assert(views(names@) =~= library_names());
    names
}

impl ColladaElement for Library {
    open spec fn represents(self, node: NodeView) -> bool {
        match self {
            Library::Animations(v) => which(library_names(), node.name) == 0 && v.represents(node),
            Library::AnimationClips(v) => which(library_names(), node.name) == 1 && v.represents(node),
            Library::Cameras(v) => which(library_names(), node.name) == 2 && v.represents(node),
            Library::Controllers(v) => which(library_names(), node.name) == 3 && v.represents(node),
            Library::Effects(v) => which(library_names(), node.name) == 4 && v.represents(node),
            Library::ForceFields(v) => which(library_names(), node.name) == 5 && v.represents(node),
            Library::Geometries(v) => which(library_names(), node.name) == 6 && v.represents(node),
            Library::Images(v) => which(library_names(), node.name) == 7 && v.represents(node),
            Library::Lights(v) => which(library_names(), node.name) == 8 && v.represents(node),
            Library::Materials(v) => which(library_names(), node.name) == 9 && v.represents(node),
            Library::Nodes(v) => which(library_names(), node.name) == 10 && v.represents(node),
            Library::PhysicsMaterials(v) => which(library_names(), node.name) == 11 && v.represents(node),
            Library::PhysicsModels(v) => which(library_names(), node.name) == 12 && v.represents(node),
            Library::PhysicsScenes(v) => which(library_names(), node.name) == 13 && v.represents(node),
            Library::VisualScenes(v) => which(library_names(), node.name) == 14 && v.represents(node),
        }
    }

    fn from_node(node: &Node) -> (r: Self) {
        let names = collect_library_names();
        match pick(names.as_slice(), node.name.as_str()) {
            0 => Library::Animations(LibraryAnimations::from_node(node)),
            1 => Library::AnimationClips(LibraryAnimationClips::from_node(node)),
            2 => Library::Cameras(LibraryCameras::from_node(node)),
            3 => Library::Controllers(LibraryControllers::from_node(node)),
            4 => Library::Effects(LibraryEffects::from_node(node)),
            5 => Library::ForceFields(LibraryForceFields::from_node(node)),
            6 => Library::Geometries(LibraryGeometries::from_node(node)),
            7 => Library::Images(LibraryImages::from_node(node)),
            8 => Library::Lights(LibraryLights::from_node(node)),
            9 => Library::Materials(LibraryMaterials::from_node(node)),
            10 => Library::Nodes(LibraryNodes::from_node(node)),
            11 => Library::PhysicsMaterials(LibraryPhysicsMaterials::from_node(node)),
            12 => Library::PhysicsModels(LibraryPhysicsModels::from_node(node)),
            13 => Library::PhysicsScenes(LibraryPhysicsScenes::from_node(node)),
            _ => Library::VisualScenes(LibraryVisualScenes::from_node(node)),
        }
    }
}

/// The element `<library_animations>`. What it holds is passed over.
#[derive(Debug, Clone, PartialEq)]
pub struct LibraryAnimations;

impl ColladaElement for LibraryAnimations {
    open spec fn represents(self, node: NodeView) -> bool {
        true
    }

    fn from_node(node: &Node) -> (r: Self) {
        LibraryAnimations
    }
}

/// The element `<library_animation_clips>`. What it holds is passed over.
#[derive(Debug, Clone, PartialEq)]
pub struct LibraryAnimationClips;

impl ColladaElement for LibraryAnimationClips {
    open spec fn represents(self, node: NodeView) -> bool {
        true
    }

    fn from_node(node: &Node) -> (r: Self) {
        LibraryAnimationClips
    }
}

/// The element `<library_cameras>`. What it holds is passed over.
#[derive(Debug, Clone, PartialEq)]
pub struct LibraryCameras;

impl ColladaElement for LibraryCameras {
    open spec fn represents(self, node: NodeView) -> bool {
        true
    }

    fn from_node(node: &Node) -> (r: Self) {
        LibraryCameras
    }
}

/// The element `<library_controllers>`. What it holds is passed over.
#[derive(Debug, Clone, PartialEq)]
pub struct LibraryControllers;

impl ColladaElement for LibraryControllers {
    open spec fn represents(self, node: NodeView) -> bool {
        true
    }

    fn from_node(node: &Node) -> (r: Self) {
        LibraryControllers
    }
}

/// The element `<library_effects>`. What it holds is passed over.
#[derive(Debug, Clone, PartialEq)]
pub struct LibraryEffects;

impl ColladaElement for LibraryEffects {
    open spec fn represents(self, node: NodeView) -> bool {
        true
    }

    fn from_node(node: &Node) -> (r: Self) {
        LibraryEffects
    }
}

/// The element `<library_force_fields>`. What it holds is passed over.
#[derive(Debug, Clone, PartialEq)]
pub struct LibraryForceFields;

impl ColladaElement for LibraryForceFields {
    open spec fn represents(self, node: NodeView) -> bool {
        true
    }

    fn from_node(node: &Node) -> (r: Self) {
        LibraryForceFields
    }
}

/// The element `<library_images>`. What it holds is passed over.
#[derive(Debug, Clone, PartialEq)]
pub struct LibraryImages;

impl ColladaElement for LibraryImages {
    open spec fn represents(self, node: NodeView) -> bool {
        true
    }

    fn from_node(node: &Node) -> (r: Self) {
        LibraryImages
    }
}

/// The element `<library_lights>`. What it holds is passed over.
#[derive(Debug, Clone, PartialEq)]
pub struct LibraryLights;

impl ColladaElement for LibraryLights {
    open spec fn represents(self, node: NodeView) -> bool {
        true
    }

    fn from_node(node: &Node) -> (r: Self) {
        LibraryLights
    }
}

/// The element `<library_materials>`. What it holds is passed over.
#[derive(Debug, Clone, PartialEq)]
pub struct LibraryMaterials;

impl ColladaElement for LibraryMaterials {
    open spec fn represents(self, node: NodeView) -> bool {
        true
    }

    fn from_node(node: &Node) -> (r: Self) {
        LibraryMaterials
    }
}

/// The element `<library_nodes>`. What it holds is passed over.
#[derive(Debug, Clone, PartialEq)]
pub struct LibraryNodes;

impl ColladaElement for LibraryNodes {
    open spec fn represents(self, node: NodeView) -> bool {
        true
    }

    fn from_node(node: &Node) -> (r: Self) {
        LibraryNodes
    }
}

/// The element `<library_physics_materials>`. What it holds is passed over.
#[derive(Debug, Clone, PartialEq)]
pub struct LibraryPhysicsMaterials;

impl ColladaElement for LibraryPhysicsMaterials {
    open spec fn represents(self, node: NodeView) -> bool {
        true
    }

    fn from_node(node: &Node) -> (r: Self) {
        LibraryPhysicsMaterials
    }
}

/// The element `<library_physics_models>`. What it holds is passed over.
#[derive(Debug, Clone, PartialEq)]
pub struct LibraryPhysicsModels;

impl ColladaElement for LibraryPhysicsModels {
    open spec fn represents(self, node: NodeView) -> bool {
        true
    }

    fn from_node(node: &Node) -> (r: Self) {
        LibraryPhysicsModels
    }
}

/// The element `<library_physics_scenes>`. What it holds is passed over.
#[derive(Debug, Clone, PartialEq)]
pub struct LibraryPhysicsScenes;

impl ColladaElement for LibraryPhysicsScenes {
    open spec fn represents(self, node: NodeView) -> bool {
        true
    }

    fn from_node(node: &Node) -> (r: Self) {
        LibraryPhysicsScenes
    }
}

/// The element `<library_visual_scenes>`. What it holds is passed over.
#[derive(Debug, Clone, PartialEq)]
pub struct LibraryVisualScenes;

impl ColladaElement for LibraryVisualScenes {
    open spec fn represents(self, node: NodeView) -> bool {
        true
    }

    fn from_node(node: &Node) -> (r: Self) {
        LibraryVisualScenes
    }
}

/// Contains geometric data for the document.
///
/// The geometric data is contained in `geometries` by one or more [`Geometry`] instances.
#[derive(Debug, Clone, PartialEq)]
pub struct LibraryGeometries {
    /// A unique identifier for the library.
    pub id: Option<String>,
    /// The human-friendly name for this library.
    pub name: Option<String>,
    /// Metada about the library and the data contained within it.
    pub asset: Option<Asset>,
    /// The geometric data contained within this library instance.
    ///
    /// There will always be at least one geometric element in a `LibraryGeometries`.
    pub geometries: Vec<Geometry>,
    /// Arbitrary additional information about this library.
    pub extras: Vec<Extra>,
}

impl LibraryGeometries {
    /// What `<library_geometries>` may hold.
    pub open spec fn description() -> ElementConfigurationView {
        ElementConfigurationView {
            name: "library_geometries"@,
            attributes: seq![
                optional_view("id"@, ValueKindView::Text),
                optional_view("name"@, ValueKindView::Text),
            ],
            content: ContentView::Children(
                seq![
                    slot_view("asset"@, ASSET, ChildOccurrences::Optional),
                    slot_view("geometry"@, GEOMETRY, ChildOccurrences::RequiredMany),
                    slot_view("extra"@, EXTRA, ChildOccurrences::Many),
                ],
            ),
        }
    }

    /// What `<library_geometries>` may hold.
    pub fn configuration() -> (r: ElementConfiguration)
        ensures
            r@ == Self::description(),
    {
        let attributes = vec![
            optional_attribute("id", ValueKind::Text),
            optional_attribute("name", ValueKind::Text),
        ];
        assert(declared_views(attributes@) =~= Self::description().attributes);
        let rules = vec![
            slot("asset", ASSET, ChildOccurrences::Optional),
            slot("geometry", GEOMETRY, ChildOccurrences::RequiredMany),
            slot("extra", EXTRA, ChildOccurrences::Many),
        ];
        assert(rule_views(rules@) =~= Self::description().children());
        container("library_geometries", attributes, rules)
    }
}

impl ColladaElement for LibraryGeometries {
    open spec fn represents(self, node: NodeView) -> bool {
        &&& string_view(self.id) == text_of(node.attribute(0))
        &&& string_view(self.name) == text_of(node.attribute(1))
        &&& represent_optional(self.asset, node.child(0))
        &&& represent_all(self.geometries@, node.children_of(1))
        &&& represent_all(self.extras@, node.children_of(2))
    }

    fn from_node(node: &Node) -> (r: Self) {
        LibraryGeometries {
            id: text_from(node.attribute(0)),
            name: text_from(node.attribute(1)),
            asset: optional(node, 0),
            geometries: many(node, 1),
            extras: many(node, 2),
        }
    }
}

/// The element `<lines>`. What it holds is passed over.
#[derive(Debug, Clone, PartialEq)]
pub struct Lines;

impl ColladaElement for Lines {
    open spec fn represents(self, node: NodeView) -> bool {
        true
    }

    fn from_node(node: &Node) -> (r: Self) {
        Lines
    }
}

/// The element `<linestrips>`. What it holds is passed over.
#[derive(Debug, Clone, PartialEq)]
pub struct Linestrips;

impl ColladaElement for Linestrips {
    open spec fn represents(self, node: NodeView) -> bool {
        true
    }

    fn from_node(node: &Node) -> (r: Self) {
        Linestrips
    }
}

/// Describes basic geometric meshes using vertex and primitive information.
///
/// The mesh vertices are collated into geometric primitives such as polygons, triangles,
/// or lines.
#[derive(Debug, Clone, PartialEq)]
pub struct Mesh {
    /// One or more [`Source`] instances containing the raw mesh data.
    pub sources: Vec<Source>,
    /// Describes the mesh's vertex attributes.
    pub vertices: Vertices,
    /// Geometric primitives that assemble values from the inputs into vertex attribute
    /// data.
    pub primitives: Vec<Primitive>,
    /// Arbitrary additional information about this mesh.
    pub extras: Vec<Extra>,
}

impl Mesh {
    /// What `<mesh>` may hold.
    pub open spec fn description() -> ElementConfigurationView {
        ElementConfigurationView {
            name: "mesh"@,
            attributes: Seq::empty(),
            content: ContentView::Children(
                seq![
                    slot_view("source"@, SOURCE, ChildOccurrences::RequiredMany),
                    slot_view("vertices"@, VERTICES, ChildOccurrences::Required),
                    choice_view(seq!["lines"@, "linestrips"@, "polygons"@, "polylist"@, "triangles"@, "trifans"@, "tristrips"@], seq![LINES, LINESTRIPS, POLYGONS, POLYLIST, TRIANGLES, TRIFANS, TRISTRIPS], ChildOccurrences::Many),
                    slot_view("extra"@, EXTRA, ChildOccurrences::Many),
                ],
            ),
        }
    }

    /// What `<mesh>` may hold.
    pub fn configuration() -> (r: ElementConfiguration)
        ensures
            r@ == Self::description(),
    {
        let attributes: Vec<AttributeConfiguration> = Vec::new();
        assert(declared_views(attributes@) =~= Self::description().attributes);
        let rules = vec![
            slot("source", SOURCE, ChildOccurrences::RequiredMany),
            slot("vertices", VERTICES, ChildOccurrences::Required),
            choice(collect_primitive_names(), vec![LINES, LINESTRIPS, POLYGONS, POLYLIST, TRIANGLES, TRIFANS, TRISTRIPS], ChildOccurrences::Many),
            slot("extra", EXTRA, ChildOccurrences::Many),
        ];
        assert(rule_views(rules@) =~= Self::description().children());
        container("mesh", attributes, rules)
    }
}

impl ColladaElement for Mesh {
    open spec fn represents(self, node: NodeView) -> bool {
        &&& represent_all(self.sources@, node.children_of(0))
        &&& represent_required(self.vertices, node.child(1))
        &&& represent_all(self.primitives@, node.children_of(2))
        &&& represent_all(self.extras@, node.children_of(3))
    }

    fn from_node(node: &Node) -> (r: Self) {
        Mesh {
            sources: many(node, 0),
            vertices: required(node, 1),
            primitives: many(node, 2),
            extras: many(node, 3),
        }
    }
}

/// The element `<Name_array>`. What it holds is passed over.
#[derive(Debug, Clone, PartialEq)]
pub struct NameArray;

impl ColladaElement for NameArray {
    open spec fn represents(self, node: NodeView) -> bool {
        true
    }

    fn from_node(node: &Node) -> (r: Self) {
        NameArray
    }
}

/// Declares parametric information for its parent element.
#[derive(Debug, Clone, PartialEq)]
pub struct Param {
    /// The name of the parameter.
    pub name: Option<String>,
    /// The subidentifier of this parameter.
    pub sid: Option<String>,
    /// The type of the value data.
    pub data_type: Option<String>,
    /// The user-defined meaning of the parameter.
    pub semantic: Option<String>,
}

impl Param {
    /// What `<param>` may hold.
    pub open spec fn description() -> ElementConfigurationView {
        ElementConfigurationView {
            name: "param"@,
            attributes: seq![
                optional_view("name"@, ValueKindView::Text),
                optional_view("sid"@, ValueKindView::Text),
                optional_view("type"@, ValueKindView::Text),
                optional_view("semantic"@, ValueKindView::Text),
            ],
            content: ContentView::Children(Seq::empty()),
        }
    }

    /// What `<param>` may hold.
    pub fn configuration() -> (r: ElementConfiguration)
        ensures
            r@ == Self::description(),
    {
        let attributes = vec![
            optional_attribute("name", ValueKind::Text),
            optional_attribute("sid", ValueKind::Text),
            optional_attribute("type", ValueKind::Text),
            optional_attribute("semantic", ValueKind::Text),
        ];
        assert(declared_views(attributes@) =~= Self::description().attributes);
        let rules: Vec<ChildConfiguration> = Vec::new();
        assert(rule_views(rules@) =~= Self::description().children());
        container("param", attributes, rules)
    }
}

impl ColladaElement for Param {
    open spec fn represents(self, node: NodeView) -> bool {
        &&& string_view(self.name) == text_of(node.attribute(0))
        &&& string_view(self.sid) == text_of(node.attribute(1))
        &&& string_view(self.data_type) == text_of(node.attribute(2))
        &&& string_view(self.semantic) == text_of(node.attribute(3))
    }

    fn from_node(node: &Node) -> (r: Self) {
        Param {
            name: text_from(node.attribute(0)),
            sid: text_from(node.attribute(1)),
            data_type: text_from(node.attribute(2)),
            semantic: text_from(node.attribute(3)),
        }
    }
}

/// The element `<polygons>`. What it holds is passed over.
#[derive(Debug, Clone, PartialEq)]
pub struct Polygons;

impl ColladaElement for Polygons {
    open spec fn represents(self, node: NodeView) -> bool {
        true
    }

    fn from_node(node: &Node) -> (r: Self) {
        Polygons
    }
}

/// A list of polygons that are not necessarily triangles.
///
/// Provides the information needed for a mesh to bind vertex attributes together and then
/// organize those vertices into individual polygons.
#[derive(Debug, Clone, PartialEq)]
pub struct Polylist {
    /// A human-friendly name for this polylist.
    pub name: Option<String>,
    /// The number of polygon primitives in the polylist.
    pub count: usize,
    /// The name of the material associated with this polylist.
    pub material: Option<String>,
    /// The input data for the polylist.
    pub inputs: Vec<SharedInput>,
    /// A list of integers, each specifying the number of vertices for one polygon in the
    /// polylist.
    pub vcount: Option<VCount>,
    /// A list of integers that specify the vertex attributes as indexes into the inputs.
    pub primitives: Option<Primitives>,
    /// Arbitrary additional information about this polylist.
    pub extras: Vec<Extra>,
}

impl Polylist {
    /// What `<polylist>` may hold.
    pub open spec fn description() -> ElementConfigurationView {
        ElementConfigurationView {
            name: "polylist"@,
            attributes: seq![
                optional_view("name"@, ValueKindView::Text),
                required_view("count"@, ValueKindView::Integer),
                optional_view("material"@, ValueKindView::Text),
            ],
            content: ContentView::Children(
                seq![
                    slot_view("input"@, SHARED_INPUT, ChildOccurrences::Many),
                    slot_view("vcount"@, VCOUNT, ChildOccurrences::Optional),
                    slot_view("p"@, P, ChildOccurrences::Optional),
                    slot_view("extra"@, EXTRA, ChildOccurrences::Many),
                ],
            ),
        }
    }

    /// What `<polylist>` may hold.
    pub fn configuration() -> (r: ElementConfiguration)
        ensures
            r@ == Self::description(),
    {
        let attributes = vec![
            optional_attribute("name", ValueKind::Text),
            required_attribute("count", ValueKind::Integer),
            optional_attribute("material", ValueKind::Text),
        ];
        assert(declared_views(attributes@) =~= Self::description().attributes);
        let rules = vec![
            slot("input", SHARED_INPUT, ChildOccurrences::Many),
            slot("vcount", VCOUNT, ChildOccurrences::Optional),
            slot("p", P, ChildOccurrences::Optional),
            slot("extra", EXTRA, ChildOccurrences::Many),
        ];
        assert(rule_views(rules@) =~= Self::description().children());
        container("polylist", attributes, rules)
    }
}

impl ColladaElement for Polylist {
    open spec fn represents(self, node: NodeView) -> bool {
        &&& string_view(self.name) == text_of(node.attribute(0))
        &&& self.count == integer_or(node.attribute(1), 0)
        &&& string_view(self.material) == text_of(node.attribute(2))
        &&& represent_all(self.inputs@, node.children_of(0))
        &&& represent_optional(self.vcount, node.child(1))
        &&& represent_optional(self.primitives, node.child(2))
        &&& represent_all(self.extras@, node.children_of(3))
    }

    fn from_node(node: &Node) -> (r: Self) {
        Polylist {
            name: text_from(node.attribute(0)),
            count: integer_or_from(node.attribute(1), 0),
            material: text_from(node.attribute(2)),
            inputs: many(node, 0),
            vcount: optional(node, 1),
            primitives: optional(node, 2),
            extras: many(node, 3),
        }
    }
}

/// A geometric primitive of a mesh, of one of seven kinds.
#[derive(Debug, Clone, PartialEq)]
pub enum Primitive {
    Lines(Lines),
    Linestrips(Linestrips),
    Polygons(Polygons),
    Polylist(Polylist),
    Triangles(Triangles),
    Trifans(Trifans),
    Tristrips(Tristrips),
}

/// The names of the elements that stand for the variants of [`Primitive`], in
/// order.
pub open spec fn primitive_names() -> Seq<Seq<char>> {
    seq!["lines"@, "linestrips"@, "polygons"@, "polylist"@, "triangles"@, "trifans"@, "tristrips"@]
}

/// The names of the elements that stand for the variants of [`Primitive`], in
/// order.
pub fn collect_primitive_names() -> (r: Vec<&'static str>)
    ensures
        views(r@) == primitive_names(),
{
    let names = vec!["lines", "linestrips", "polygons", "polylist", "triangles", "trifans", "tristrips"];
    assert(views(names@) =~= primitive_names());
    names
}

impl ColladaElement for Primitive {
    open spec fn represents(self, node: NodeView) -> bool {
        match self {
            Primitive::Lines(v) => which(primitive_names(), node.name) == 0 && v.represents(node),
            Primitive::Linestrips(v) => which(primitive_names(), node.name) == 1 && v.represents(node),
            Primitive::Polygons(v) => which(primitive_names(), node.name) == 2 && v.represents(node),
            Primitive::Polylist(v) => which(primitive_names(), node.name) == 3 && v.represents(node),
            Primitive::Triangles(v) => which(primitive_names(), node.name) == 4 && v.represents(node),
            Primitive::Trifans(v) => which(primitive_names(), node.name) == 5 && v.represents(node),
            Primitive::Tristrips(v) => which(primitive_names(), node.name) == 6 && v.represents(node),
        }
    }

    fn from_node(node: &Node) -> (r: Self) {
        let names = collect_primitive_names();
        match pick(names.as_slice(), node.name.as_str()) {
            0 => Primitive::Lines(Lines::from_node(node)),
            1 => Primitive::Linestrips(Linestrips::from_node(node)),
            2 => Primitive::Polygons(Polygons::from_node(node)),
            3 => Primitive::Polylist(Polylist::from_node(node)),
            4 => Primitive::Triangles(Triangles::from_node(node)),
            5 => Primitive::Trifans(Trifans::from_node(node)),
            _ => Primitive::Tristrips(Tristrips::from_node(node)),
        }
    }
}

/// The indices of a primitive, as they are written in `<p>`.
#[derive(Debug, Clone, PartialEq)]
pub struct Primitives {
    pub data: Vec<usize>,
}

impl Primitives {
    /// What `<p>` may hold.
    pub open spec fn description() -> ElementConfigurationView {
        ElementConfigurationView {
            name: "p"@,
            attributes: Seq::empty(),
            content: ContentView::Text { kind: ValueKindView::Integers, occurrences: TextOccurrences::EmptyIfAbsent },
        }
    }

    /// What `<p>` may hold.
    pub fn configuration() -> (r: ElementConfiguration)
        ensures
            r@ == Self::description(),
    {
        let attributes: Vec<AttributeConfiguration> = Vec::new();
        assert(declared_views(attributes@) =~= Self::description().attributes);
        ElementConfiguration {
            name: "p",
            attributes,
            content: Content::Text { kind: ValueKind::Integers, occurrences: TextOccurrences::EmptyIfAbsent },
        }
    }
}

impl ColladaElement for Primitives {
    open spec fn represents(self, node: NodeView) -> bool {
        &&& self.data@ == integers_of(node.text)
    }

    fn from_node(node: &Node) -> (r: Self) {
        Primitives {
            data: integers_from(node.text_value()),
        }
    }
}

/// The element `<scene>`. What it holds is passed over.
#[derive(Debug, Clone, PartialEq)]
pub struct Scene;

impl ColladaElement for Scene {
    open spec fn represents(self, node: NodeView) -> bool {
        true
    }

    fn from_node(node: &Node) -> (r: Self) {
        Scene
    }
}

/// Declares the input semantic of a data source and connects a consumer of that source.
///
/// Inputs that have the same `offset` value are driven by the same index value from the
/// consumer.
#[derive(Debug, Clone, PartialEq)]
pub struct SharedInput {
    /// The offset into the list of indices provided by the parent object.
    pub offset: usize,
    /// The user-defined meaning of the input connnection.
    pub semantic: String,
    /// The location of the data source.
    pub source: UriFragment,
    /// Which inputs to group as a single set.
    pub set: Option<usize>,
}

impl SharedInput {
    /// What `<input>` may hold.
    pub open spec fn description() -> ElementConfigurationView {
        ElementConfigurationView {
            name: "input"@,
            attributes: seq![
                required_view("offset"@, ValueKindView::Integer),
                required_view("semantic"@, ValueKindView::Text),
                required_view("source"@, ValueKindView::Fragment),
                optional_view("set"@, ValueKindView::Integer),
            ],
            content: ContentView::Children(Seq::empty()),
        }
    }

    /// What `<input>` may hold.
    pub fn configuration() -> (r: ElementConfiguration)
        ensures
            r@ == Self::description(),
    {
        let attributes = vec![
            required_attribute("offset", ValueKind::Integer),
            required_attribute("semantic", ValueKind::Text),
            required_attribute("source", ValueKind::Fragment),
            optional_attribute("set", ValueKind::Integer),
        ];
        assert(declared_views(attributes@) =~= Self::description().attributes);
        let rules: Vec<ChildConfiguration> = Vec::new();
        assert(rule_views(rules@) =~= Self::description().children());
        container("input", attributes, rules)
    }
}

impl ColladaElement for SharedInput {
    open spec fn represents(self, node: NodeView) -> bool {
        &&& self.offset == integer_or(node.attribute(0), 0)
        &&& self.semantic@ == text_or_empty(node.attribute(1))
        &&& self.source.0@ == text_or_empty(node.attribute(2))
        &&& self.set == integer_of(node.attribute(3))
    }

    fn from_node(node: &Node) -> (r: Self) {
        SharedInput {
            offset: integer_or_from(node.attribute(0), 0),
            semantic: text_or_empty_from(node.attribute(1)),
            source: UriFragment(text_or_empty_from(node.attribute(2))),
            set: integer_from(node.attribute(3)),
        }
    }
}

/// A data source: an array of values and the way to access it.
#[derive(Debug, Clone, PartialEq)]
pub struct Source {
    pub id: String,
    pub name: Option<String>,
    pub asset: Option<Asset>,
    pub array: Option<Array>,
    pub technique_common: Option<SourceTechniqueCommon>,
    pub techniques: Vec<Technique>,
}

impl Source {
    /// What `<source>` may hold.
    pub open spec fn description() -> ElementConfigurationView {
        ElementConfigurationView {
            name: "source"@,
            attributes: seq![
                required_view("id"@, ValueKindView::Text),
                optional_view("name"@, ValueKindView::Text),
            ],
            content: ContentView::Children(
                seq![
                    slot_view("asset"@, ASSET, ChildOccurrences::Optional),
                    choice_view(seq!["IDREF_array"@, "Name_array"@, "bool_array"@, "float_array"@, "int_array"@], seq![IDREF_ARRAY, NAME_ARRAY, BOOL_ARRAY, FLOAT_ARRAY, INT_ARRAY], ChildOccurrences::Optional),
                    slot_view("technique_common"@, TECHNIQUE_COMMON, ChildOccurrences::Optional),
                    slot_view("technique"@, TECHNIQUE, ChildOccurrences::Many),
                ],
            ),
        }
    }

    /// What `<source>` may hold.
    pub fn configuration() -> (r: ElementConfiguration)
        ensures
            r@ == Self::description(),
    {
        let attributes = vec![
            required_attribute("id", ValueKind::Text),
            optional_attribute("name", ValueKind::Text),
        ];
        assert(declared_views(attributes@) =~= Self::description().attributes);
        let rules = vec![
            slot("asset", ASSET, ChildOccurrences::Optional),
            choice(collect_array_names(), vec![IDREF_ARRAY, NAME_ARRAY, BOOL_ARRAY, FLOAT_ARRAY, INT_ARRAY], ChildOccurrences::Optional),
            slot("technique_common", TECHNIQUE_COMMON, ChildOccurrences::Optional),
            slot("technique", TECHNIQUE, ChildOccurrences::Many),
        ];
        assert(rule_views(rules@) =~= Self::description().children());
        container("source", attributes, rules)
    }
}

impl ColladaElement for Source {
    open spec fn represents(self, node: NodeView) -> bool {
        &&& self.id@ == text_or_empty(node.attribute(0))
        &&& string_view(self.name) == text_of(node.attribute(1))
        &&& represent_optional(self.asset, node.child(0))
        &&& represent_optional(self.array, node.child(1))
        &&& represent_optional(self.technique_common, node.child(2))
        &&& represent_all(self.techniques@, node.children_of(3))
    }

    fn from_node(node: &Node) -> (r: Self) {
        Source {
            id: text_or_empty_from(node.attribute(0)),
            name: text_from(node.attribute(1)),
            asset: optional(node, 0),
            array: optional(node, 1),
            technique_common: optional(node, 2),
            techniques: many(node, 3),
        }
    }
}

/// The common technique of a [`Source`]: its accessor.
#[derive(Debug, Clone, PartialEq)]
pub struct SourceTechniqueCommon {
    pub accessor: Accessor,
}

impl SourceTechniqueCommon {
    /// What `<technique_common>` may hold.
    pub open spec fn description() -> ElementConfigurationView {
        ElementConfigurationView {
            name: "technique_common"@,
            attributes: Seq::empty(),
            content: ContentView::Children(
                seq![
                    slot_view("accessor"@, ACCESSOR, ChildOccurrences::Required),
                ],
            ),
        }
    }

    /// What `<technique_common>` may hold.
    pub fn configuration() -> (r: ElementConfiguration)
        ensures
            r@ == Self::description(),
    {
        let attributes: Vec<AttributeConfiguration> = Vec::new();
        assert(declared_views(attributes@) =~= Self::description().attributes);
        let rules = vec![
            slot("accessor", ACCESSOR, ChildOccurrences::Required),
        ];
        assert(rule_views(rules@) =~= Self::description().children());
        container("technique_common", attributes, rules)
    }
}

impl ColladaElement for SourceTechniqueCommon {
    open spec fn represents(self, node: NodeView) -> bool {
        &&& represent_required(self.accessor, node.child(0))
    }

    fn from_node(node: &Node) -> (r: Self) {
        SourceTechniqueCommon {
            accessor: required(node, 0),
        }
    }
}

/// The element `<spline>`. What it holds is passed over.
#[derive(Debug, Clone, PartialEq)]
pub struct Spline;

impl ColladaElement for Spline {
    open spec fn represents(self, node: NodeView) -> bool {
        true
    }

    fn from_node(node: &Node) -> (r: Self) {
        Spline
    }
}

/// The element `<triangles>`. What it holds is passed over.
#[derive(Debug, Clone, PartialEq)]
pub struct Triangles;

impl ColladaElement for Triangles {
    open spec fn represents(self, node: NodeView) -> bool {
        true
    }

    fn from_node(node: &Node) -> (r: Self) {
        Triangles
    }
}

/// The element `<trifans>`. What it holds is passed over.
#[derive(Debug, Clone, PartialEq)]
pub struct Trifans;

impl ColladaElement for Trifans {
    open spec fn represents(self, node: NodeView) -> bool {
        true
    }

    fn from_node(node: &Node) -> (r: Self) {
        Trifans
    }
}

/// The element `<tristrips>`. What it holds is passed over.
#[derive(Debug, Clone, PartialEq)]
pub struct Tristrips;

impl ColladaElement for Tristrips {
    open spec fn represents(self, node: NodeView) -> bool {
        true
    }

    fn from_node(node: &Node) -> (r: Self) {
        Tristrips
    }
}

/// Declares the input semantic of a data source and connects a consumer of that source.
#[derive(Debug, Clone, PartialEq)]
pub struct UnsharedInput {
    /// The user-defined meaning of the input connnection.
    pub semantic: String,
    /// The location of the data source.
    pub source: UriFragment,
}

impl UnsharedInput {
    /// What `<input>` may hold.
    pub open spec fn description() -> ElementConfigurationView {
        ElementConfigurationView {
            name: "input"@,
            attributes: seq![
                required_view("semantic"@, ValueKindView::Text),
                required_view("source"@, ValueKindView::Fragment),
            ],
            content: ContentView::Children(Seq::empty()),
        }
    }

    /// What `<input>` may hold.
    pub fn configuration() -> (r: ElementConfiguration)
        ensures
            r@ == Self::description(),
    {
        let attributes = vec![
            required_attribute("semantic", ValueKind::Text),
            required_attribute("source", ValueKind::Fragment),
        ];
        assert(declared_views(attributes@) =~= Self::description().attributes);
        let rules: Vec<ChildConfiguration> = Vec::new();
        assert(rule_views(rules@) =~= Self::description().children());
        container("input", attributes, rules)
    }
}

impl ColladaElement for UnsharedInput {
    open spec fn represents(self, node: NodeView) -> bool {
        &&& self.semantic@ == text_or_empty(node.attribute(0))
        &&& self.source.0@ == text_or_empty(node.attribute(1))
    }

    fn from_node(node: &Node) -> (r: Self) {
        UnsharedInput {
            semantic: text_or_empty_from(node.attribute(0)),
            source: UriFragment(text_or_empty_from(node.attribute(1))),
        }
    }
}

/// The numbers of vertices of the polygons of a polylist, as they are written in
/// `<vcount>`.
#[derive(Debug, Clone, PartialEq)]
pub struct VCount {
    pub data: Vec<usize>,
}

impl VCount {
    /// What `<vcount>` may hold.
    pub open spec fn description() -> ElementConfigurationView {
        ElementConfigurationView {
            name: "vcount"@,
            attributes: Seq::empty(),
            content: ContentView::Text { kind: ValueKindView::Integers, occurrences: TextOccurrences::EmptyIfAbsent },
        }
    }

    /// What `<vcount>` may hold.
    pub fn configuration() -> (r: ElementConfiguration)
        ensures
            r@ == Self::description(),
    {
        let attributes: Vec<AttributeConfiguration> = Vec::new();
        assert(declared_views(attributes@) =~= Self::description().attributes);
        ElementConfiguration {
            name: "vcount",
            attributes,
            content: Content::Text { kind: ValueKind::Integers, occurrences: TextOccurrences::EmptyIfAbsent },
        }
    }
}

impl ColladaElement for VCount {
    open spec fn represents(self, node: NodeView) -> bool {
        &&& self.data@ == integers_of(node.text)
    }

    fn from_node(node: &Node) -> (r: Self) {
        VCount {
            data: integers_from(node.text_value()),
        }
    }
}

/// Declares the attributes and identity of mesh-vertices.
#[derive(Debug, Clone, PartialEq)]
pub struct Vertices {
    /// A unique identifier of the vertices instance.
    pub id: String,
    /// The name of the vertices instance.
    pub name: Option<String>,
    /// The input data for the vertices.
    ///
    /// There will be at least one element in `inputs`.
    pub inputs: Vec<UnsharedInput>,
    /// Arbitrary additional data about the vertices.
    pub extras: Vec<Extra>,
}

impl Vertices {
    /// What `<vertices>` may hold.
    pub open spec fn description() -> ElementConfigurationView {
        ElementConfigurationView {
            name: "vertices"@,
            attributes: seq![
                required_view("id"@, ValueKindView::Text),
                optional_view("name"@, ValueKindView::Text),
            ],
            content: ContentView::Children(
                seq![
                    slot_view("input"@, INPUT, ChildOccurrences::RequiredMany),
                    slot_view("extra"@, EXTRA, ChildOccurrences::Many),
                ],
            ),
        }
    }

    /// What `<vertices>` may hold.
    pub fn configuration() -> (r: ElementConfiguration)
        ensures
            r@ == Self::description(),
    {
        let attributes = vec![
            required_attribute("id", ValueKind::Text),
            optional_attribute("name", ValueKind::Text),
        ];
        assert(declared_views(attributes@) =~= Self::description().attributes);
        let rules = vec![
            slot("input", INPUT, ChildOccurrences::RequiredMany),
            slot("extra", EXTRA, ChildOccurrences::Many),
        ];
        assert(rule_views(rules@) =~= Self::description().children());
        container("vertices", attributes, rules)
    }
}

impl ColladaElement for Vertices {
    open spec fn represents(self, node: NodeView) -> bool {
        &&& self.id@ == text_or_empty(node.attribute(0))
        &&& string_view(self.name) == text_of(node.attribute(1))
        &&& represent_all(self.inputs@, node.children_of(0))
        &&& represent_all(self.extras@, node.children_of(1))
    }

    fn from_node(node: &Node) -> (r: Self) {
        Vertices {
            id: text_or_empty_from(node.attribute(0)),
            name: text_from(node.attribute(1)),
            inputs: many(node, 0),
            extras: many(node, 1),
        }
    }
}

/// The descriptions of the elements of version 1.4, each at its place.
pub open spec fn schema_view() -> SchemaView {
    SchemaView {
        elements: seq![
            Collada::description(),
            Asset::description(),
            Contributor::description(),
            leaf_view("author"@, ValueKindView::Text, TextOccurrences::Optional),
            leaf_view("authoring_tool"@, ValueKindView::Text, TextOccurrences::Optional),
            leaf_view("comments"@, ValueKindView::Text, TextOccurrences::Optional),
            leaf_view("copyright"@, ValueKindView::Text, TextOccurrences::Optional),
            leaf_view("source_data"@, ValueKindView::Text, TextOccurrences::Optional),
            leaf_view("created"@, ValueKindView::Time, TextOccurrences::Required),
            leaf_view("keywords"@, ValueKindView::Text, TextOccurrences::Optional),
            leaf_view("modified"@, ValueKindView::Time, TextOccurrences::Required),
            leaf_view("revision"@, ValueKindView::Text, TextOccurrences::Optional),
            leaf_view("subject"@, ValueKindView::Text, TextOccurrences::Optional),
            leaf_view("title"@, ValueKindView::Text, TextOccurrences::Optional),
            Unit::description(),
            UpAxis::description(),
            Extra::description(),
            Technique::description(),
            ignored_view("library_animations"@),
            ignored_view("library_animation_clips"@),
            ignored_view("library_cameras"@),
            ignored_view("library_controllers"@),
            ignored_view("library_effects"@),
            ignored_view("library_force_fields"@),
            LibraryGeometries::description(),
            ignored_view("library_images"@),
            ignored_view("library_lights"@),
            ignored_view("library_materials"@),
            ignored_view("library_nodes"@),
            ignored_view("library_physics_materials"@),
            ignored_view("library_physics_models"@),
            ignored_view("library_physics_scenes"@),
            ignored_view("library_visual_scenes"@),
            ignored_view("scene"@),
            Geometry::description(),
            ignored_view("convex_mesh"@),
            Mesh::description(),
            ignored_view("spline"@),
            Source::description(),
            ignored_view("IDREF_array"@),
            ignored_view("Name_array"@),
            ignored_view("bool_array"@),
            FloatArray::description(),
            ignored_view("int_array"@),
            SourceTechniqueCommon::description(),
            Accessor::description(),
            Param::description(),
            Vertices::description(),
            UnsharedInput::description(),
            ignored_view("lines"@),
            ignored_view("linestrips"@),
            ignored_view("polygons"@),
            Polylist::description(),
            ignored_view("triangles"@),
            ignored_view("trifans"@),
            ignored_view("tristrips"@),
            SharedInput::description(),
            VCount::description(),
            Primitives::description(),
        ],
    }
}

/// The descriptions of the elements of version 1.4, each at its place.
pub fn schema() -> (r: Schema)
    ensures
        r@ == schema_view(),
{
    let mut elements: Vec<ElementConfiguration> = Vec::new();
    let ghost all = schema_view().elements;
    elements.push(Collada::configuration());
    elements.push(Asset::configuration());
    elements.push(Contributor::configuration());
    elements.push(leaf("author", ValueKind::Text, TextOccurrences::Optional));
    elements.push(leaf("authoring_tool", ValueKind::Text, TextOccurrences::Optional));
    elements.push(leaf("comments", ValueKind::Text, TextOccurrences::Optional));
    elements.push(leaf("copyright", ValueKind::Text, TextOccurrences::Optional));
    elements.push(leaf("source_data", ValueKind::Text, TextOccurrences::Optional));
    assert(elements@.len() == 8 && forall|i: int| 0 <= i < 8 ==> (#[trigger] elements@[i])@ == all[i]);
    elements.push(leaf("created", ValueKind::Time, TextOccurrences::Required));
    elements.push(leaf("keywords", ValueKind::Text, TextOccurrences::Optional));
    elements.push(leaf("modified", ValueKind::Time, TextOccurrences::Required));
    elements.push(leaf("revision", ValueKind::Text, TextOccurrences::Optional));
    elements.push(leaf("subject", ValueKind::Text, TextOccurrences::Optional));
    elements.push(leaf("title", ValueKind::Text, TextOccurrences::Optional));
    elements.push(Unit::configuration());
    elements.push(UpAxis::configuration());
    assert(elements@.len() == 16 && forall|i: int| 0 <= i < 16 ==> (#[trigger] elements@[i])@ == all[i]);
    elements.push(Extra::configuration());
    elements.push(Technique::configuration());
    elements.push(ignored("library_animations"));
    elements.push(ignored("library_animation_clips"));
    elements.push(ignored("library_cameras"));
    elements.push(ignored("library_controllers"));
    elements.push(ignored("library_effects"));
    elements.push(ignored("library_force_fields"));
    assert(elements@.len() == 24 && forall|i: int| 0 <= i < 24 ==> (#[trigger] elements@[i])@ == all[i]);
    elements.push(LibraryGeometries::configuration());
    elements.push(ignored("library_images"));
    elements.push(ignored("library_lights"));
    elements.push(ignored("library_materials"));
    elements.push(ignored("library_nodes"));
    elements.push(ignored("library_physics_materials"));
    elements.push(ignored("library_physics_models"));
    elements.push(ignored("library_physics_scenes"));
    assert(elements@.len() == 32 && forall|i: int| 0 <= i < 32 ==> (#[trigger] elements@[i])@ == all[i]);
    elements.push(ignored("library_visual_scenes"));
    elements.push(ignored("scene"));
    elements.push(Geometry::configuration());
    elements.push(ignored("convex_mesh"));
    elements.push(Mesh::configuration());
    elements.push(ignored("spline"));
    elements.push(Source::configuration());
    elements.push(ignored("IDREF_array"));
    assert(elements@.len() == 40 && forall|i: int| 0 <= i < 40 ==> (#[trigger] elements@[i])@ == all[i]);
    elements.push(ignored("Name_array"));
    elements.push(ignored("bool_array"));
    elements.push(FloatArray::configuration());
    elements.push(ignored("int_array"));
    elements.push(SourceTechniqueCommon::configuration());
    elements.push(Accessor::configuration());
    elements.push(Param::configuration());
    elements.push(Vertices::configuration());
    assert(elements@.len() == 48 && forall|i: int| 0 <= i < 48 ==> (#[trigger] elements@[i])@ == all[i]);
    elements.push(UnsharedInput::configuration());
    elements.push(ignored("lines"));
    elements.push(ignored("linestrips"));
    elements.push(ignored("polygons"));
    elements.push(Polylist::configuration());
    elements.push(ignored("triangles"));
    elements.push(ignored("trifans"));
    elements.push(ignored("tristrips"));
    assert(elements@.len() == 56 && forall|i: int| 0 <= i < 56 ==> (#[trigger] elements@[i])@ == all[i]);
    elements.push(SharedInput::configuration());
    elements.push(VCount::configuration());
    elements.push(Primitives::configuration());
    assert(elements@.len() == 59 && forall|i: int| 0 <= i < 59 ==> (#[trigger] elements@[i])@ == all[i]);
    let r = Schema { elements };
    assert(r@.elements =~= all);
    r
}

impl Collada {
    /// The versions of the format that a document may ask for.
    pub open spec fn versions() -> Seq<Seq<char>> {
        seq!["1.4.0"@, "1.4.1"@]
    }

    /// The node of the root element of the document `tokens`, or the first
    /// error in it.
    pub open spec fn document(tokens: Seq<Token>) -> core::result::Result<NodeView, ErrorView> {
        document_spec(schema_view(), COLLADA as int, Self::versions(), tokens)
    }

    /// Reads a COLLADA document from its tokens.
    pub fn parse(tokens: &[Token]) -> (r: Result<Collada>)
        ensures
            match Self::document(tokens@) {
                Ok(node) => r is Ok && r->Ok_0.represents(node),
                Err(e) => r is Err && r->Err_0@ == e,
            },
    {
        let versions = vec!["1.4.0", "1.4.1"];
        assert(views(versions@) =~= Self::versions());
        let schema = schema();
        match parse_document(&schema, COLLADA, versions.as_slice(), tokens) {
            Ok(node) => Ok(Collada::from_node(&node)),
            Err(e) => Err(e),
        }
    }

    /// Reads a COLLADA document from a string.
    pub fn from_str(source: &str) -> (r: Result<Collada>)
        ensures
            match deep_doctype(source.spec_bytes()) {
                Some(at) => r is Err && r->Err_0@ == refusal_error(source.spec_bytes(), at),
                None => match Self::document(document_tokens(source.spec_bytes())) {
                    Ok(node) => r is Ok && r->Ok_0.represents(node),
                    Err(e) => r is Err && r->Err_0@ == e,
                },
            },
    {
        let tokens = tokenize(source.as_bytes());
        proof {
            if deep_doctype(source.spec_bytes()) is Some {
                lemma_malformed_document(schema_view(), COLLADA as int, Self::versions(), tokens@);
            }
        }
        Self::parse(tokens.as_slice())
    }
}

impl Accessor {
    /// The place in the array at which the element number `index` begins.
    pub open spec fn start(self, index: int) -> int {
        self.offset + self.stride * index
    }

    /// The element number `index` of `array`: `stride` values from
    /// `offset + stride * index` on.
    pub open spec fn element<T>(self, array: Seq<T>, index: int) -> Seq<T> {
        array.subrange(self.start(index), self.start(index) + self.stride)
    }

    /// Whether the element number `index` lies within an array of the length
    /// `len`.
    pub open spec fn reaches(self, len: int, index: int) -> bool {
        self.start(index) + self.stride <= len
    }

    /// The first `n` elements of `array`, one after another.
    pub open spec fn elements<T>(self, array: Seq<T>, n: int) -> Seq<T>
        decreases n,
    {
        if n <= 0 {
            Seq::empty()
        } else {
            self.elements(array, n - 1) + self.element(array, n - 1)
        }
    }

    /// Access a source array using the accessor.
    ///
    /// Returns the sub-slice of `array` that holds the element number `index`.
    /// The element must lie within the array.
    pub fn access<'b, T>(&self, array: &'b [T], index: usize) -> (r: &'b [T])
        requires
            self.reaches(array@.len() as int, index as int),
        ensures
            r@ == self.element(array@, index as int),
    {
        let len = array.len();
        assert(0 <= self.stride * index) by (nonlinear_arith);
        let start = self.offset + self.stride * index;
        let end = start + self.stride;
        slice_subrange(array, start, end)
    }

    /// Access a source array using the accessor, if the element number `index`
    /// lies within the array.
    pub fn checked_access<'b, T>(&self, array: &'b [T], index: usize) -> (r: Option<&'b [T]>)
        ensures
            match r {
                Some(found) => self.reaches(array@.len() as int, index as int) && found@
                    == self.element(array@, index as int),
                None => !self.reaches(array@.len() as int, index as int),
            },
    {
        let len = array.len();
        assert(0 <= self.stride * index) by (nonlinear_arith);
        let scaled = match self.stride.checked_mul(index) {
            Some(s) => s,
            None => {
                return None;
            },
        };
        let start = match self.offset.checked_add(scaled) {
            Some(s) => s,
            None => {
                return None;
            },
        };
        let end = match start.checked_add(self.stride) {
            Some(s) => s,
            None => {
                return None;
            },
        };
        if end > len {
            return None;
        }
        Some(slice_subrange(array, start, end))
    }
}

/// Addressing with an accessor takes an array apart without loss: for an
/// array of the length `offset + stride * count`, each of the `count` elements
/// holds `stride` values, each begins where the one before it ends, and one
/// after another they are the array from `offset` on.
pub proof fn lemma_access_partitions<T>(accessor: Accessor, array: Seq<T>)
    requires
        array.len() == accessor.offset + accessor.stride * accessor.count,
    ensures
        forall|i: int|
            0 <= i < accessor.count ==> (#[trigger] accessor.element(array, i)).len()
                == accessor.stride,
        forall|i: int|
            0 <= i < accessor.count ==> #[trigger] accessor.start(i) + accessor.stride
                == accessor.start(i + 1),
        accessor.start(0) == accessor.offset,
        accessor.start(accessor.count as int) == array.len(),
        accessor.elements(array, accessor.count as int) == array.skip(accessor.offset as int),
{
    let stride = accessor.stride as int;
    let count = accessor.count as int;
    assert forall|i: int| 0 <= i < count implies (#[trigger] accessor.element(array, i)).len()
        == stride by {
        lemma_element_in_range(accessor, array.len() as int, i);
    }
    assert forall|i: int| 0 <= i < count implies #[trigger] accessor.start(i) + stride
        == accessor.start(i + 1) by {
        assert(stride * (i + 1) == stride * i + stride) by (nonlinear_arith);
    }
    assert(stride * 0 == 0) by (nonlinear_arith);
    lemma_elements(accessor, array, count);
    assert(array.subrange(accessor.offset as int, accessor.start(count)) =~= array.skip(
        accessor.offset as int,
    ));
}

/// Each of the first `count` elements lies within an array of the length
/// `offset + stride * count`.
pub proof fn lemma_element_in_range(accessor: Accessor, len: int, i: int)
    requires
        len == accessor.offset + accessor.stride * accessor.count,
        0 <= i < accessor.count,
    ensures
        accessor.offset <= accessor.start(i),
        accessor.start(i) + accessor.stride <= len,
{
    let stride = accessor.stride as int;
    let count = accessor.count as int;
    assert(0 <= stride * i && stride * i + stride <= stride * count) by (nonlinear_arith)
        requires
            0 <= stride,
            0 <= i < count,
    ;
}

/// The first `n` elements, one after another, are the array from `offset` to
/// the start of the element number `n`.
pub proof fn lemma_elements<T>(accessor: Accessor, array: Seq<T>, n: int)
    requires
        array.len() == accessor.offset + accessor.stride * accessor.count,
        0 <= n <= accessor.count,
    ensures
        accessor.elements(array, n) == array.subrange(accessor.offset as int, accessor.start(n)),
    decreases n,
{
    let stride = accessor.stride as int;
    if n > 0 {
        lemma_elements(accessor, array, n - 1);
        lemma_element_in_range(accessor, array.len() as int, n - 1);
        assert(stride * n == stride * (n - 1) + stride) by (nonlinear_arith);
        assert(accessor.elements(array, n) =~= array.subrange(
            accessor.offset as int,
            accessor.start(n),
        ));
    } else {
        assert(stride * 0 == 0) by (nonlinear_arith);
        assert(accessor.elements(array, n) =~= array.subrange(
            accessor.offset as int,
            accessor.start(n),
        ));
    }
}

impl Array {
    /// The array as an array of decimal numbers, if it is one.
    pub fn as_float_array(&self) -> (r: Option<&FloatArray>)
        ensures
            match *self {
                Array::Float(a) => r matches Some(found) && *found == a,
                _ => r is None,
            },
    {
        match self {
            Array::Float(float_array) => Some(float_array),
            _ => None,
        }
    }
}

impl GeometricElement {
    /// Attempts to downcast the geometric element to a [`ConvexMesh`].
    ///
    /// Returns a reference to the inner [`ConvexMesh`] if there is one, returns
    /// `None` otherwise.
    pub fn as_convex_mesh(&self) -> (r: Option<&ConvexMesh>)
        ensures
            match *self {
                GeometricElement::ConvexMesh(m) => r matches Some(found) && *found == m,
                _ => r is None,
            },
    {
        match self {
            GeometricElement::ConvexMesh(mesh) => Some(mesh),
            _ => None,
        }
    }

    /// Attempts to downcast the geometric element to a [`Mesh`].
    ///
    /// Returns a reference to the inner [`Mesh`] if there is one, returns `None`
    /// otherwise.
    pub fn as_mesh(&self) -> (r: Option<&Mesh>)
        ensures
            match *self {
                GeometricElement::Mesh(m) => r matches Some(found) && *found == m,
                _ => r is None,
            },
    {
        match self {
            GeometricElement::Mesh(mesh) => Some(mesh),
            _ => None,
        }
    }

    /// Attempts to downcast the geometric element to a [`Spline`].
    ///
    /// Returns a reference to the inner [`Spline`] if there is one, returns
    /// `None` otherwise.
    pub fn as_spline(&self) -> (r: Option<&Spline>)
        ensures
            match *self {
                GeometricElement::Spline(m) => r matches Some(found) && *found == m,
                _ => r is None,
            },
    {
        match self {
            GeometricElement::Spline(mesh) => Some(mesh),
            _ => None,
        }
    }
}

impl Library {
    /// The library as a library of geometries, if it is one.
    pub fn as_library_geometries(&self) -> (r: Option<&LibraryGeometries>)
        ensures
            match *self {
                Library::Geometries(l) => r matches Some(found) && *found == l,
                _ => r is None,
            },
    {
        match self {
            Library::Geometries(library_geometries) => Some(library_geometries),
            _ => None,
        }
    }
}

impl Primitive {
    /// The primitive as a polylist, if it is one.
    pub fn as_polylist(&self) -> (r: Option<&Polylist>)
        ensures
            match *self {
                Primitive::Polylist(p) => r matches Some(found) && *found == p,
                _ => r is None,
            },
    {
        match self {
            Primitive::Polylist(polylist) => Some(polylist),
            _ => None,
        }
    }
}

impl Source {
    /// Returns the [`Accessor`] in the source's `technique_common` member.
    pub fn common_accessor(&self) -> (r: Option<&Accessor>)
        ensures
            match self.technique_common {
                Some(technique) => r matches Some(found) && *found == technique.accessor,
                None => r is None,
            },
    {
        match &self.technique_common {
            Some(technique) => Some(&technique.accessor),
            None => None,
        }
    }
}

/// The place of the first of `sources` from `from` on whose identifier is
/// `id`; the number of sources where there is none.
pub open spec fn source_place(sources: Seq<Source>, from: int, id: Seq<char>) -> int
    decreases sources.len() - from,
{
    if from < 0 || from >= sources.len() {
        sources.len() as int
    } else if sources[from].id@ == id {
        from
    } else {
        source_place(sources, from + 1, id)
    }
}

impl Mesh {
    /// Returns the source which matches `id`, or `None` if no sources match.
    pub fn find_source<'a>(&'a self, id: &str) -> (r: Option<&'a Source>)
        ensures
            match r {
                Some(found) => source_place(self.sources@, 0, id@) < self.sources@.len() && *found
                    == self.sources@[source_place(self.sources@, 0, id@)],
                None => source_place(self.sources@, 0, id@) == self.sources@.len(),
            },
    {
        let mut i: usize = 0;
        while i < self.sources.len()
            invariant
                i <= self.sources@.len(),
                source_place(self.sources@, 0, id@) == source_place(self.sources@, i as int, id@),
            decreases self.sources@.len() - i,
        {
            if str_eq(self.sources[i].id.as_str(), id) {
                return Some(&self.sources[i]);
            }
            i += 1;
        }
        None
    }
}

/// The largest offset among `inputs`; -1 where there are none.
pub open spec fn max_offset(inputs: Seq<SharedInput>) -> int
    decreases inputs.len(),
{
    if inputs.len() == 0 {
        -1
    } else if inputs.last().offset > max_offset(inputs.drop_last()) {
        inputs.last().offset as int
    } else {
        max_offset(inputs.drop_last())
    }
}

/// How many vertices the first `k` polygons have together.
pub open spec fn vertices_before(vcount: Seq<usize>, k: int) -> int
    decreases k,
{
    if k <= 0 || k > vcount.len() {
        0
    } else {
        vertices_before(vcount, k - 1) + vcount[k - 1]
    }
}

/// The polygons up to the number `k` have no more vertices than all of them.
pub proof fn lemma_vertices_before(vcount: Seq<usize>, k: int)
    requires
        0 <= k <= vcount.len(),
    ensures
        0 <= vertices_before(vcount, k) <= vertices_before(vcount, vcount.len() as int),
    decreases vcount.len() - k,
{
    lemma_vertices_nonnegative(vcount, k);
    if k < vcount.len() {
        lemma_vertices_before(vcount, k + 1);
    }
}

/// The polygons up to any number have no fewer than no vertices.
pub proof fn lemma_vertices_nonnegative(vcount: Seq<usize>, k: int)
    ensures
        0 <= vertices_before(vcount, k),
    decreases k,
{
    if 0 < k <= vcount.len() {
        lemma_vertices_nonnegative(vcount, k - 1);
    }
}

/// The largest offset among `inputs`, if there are any.
pub fn largest_offset(inputs: &[SharedInput]) -> (r: Option<usize>)
    ensures
        match r {
            Some(largest) => inputs@.len() > 0 && largest == max_offset(inputs@),
            None => inputs@.len() == 0,
        },
{
    if inputs.len() == 0 {
        return None;
    }
    let mut largest: usize = inputs[0].offset;
    let mut i: usize = 1;
    assert(inputs@.take(1).drop_last() =~= Seq::<SharedInput>::empty());
    assert(inputs@.take(1).last() == inputs@[0]);
    assert(max_offset(inputs@.take(1).drop_last()) == -1);
    while i < inputs.len()
        invariant
            1 <= i <= inputs@.len(),
            largest == max_offset(inputs@.take(i as int)),
        decreases inputs@.len() - i,
    {
        assert(inputs@.take(i + 1).drop_last() =~= inputs@.take(i as int));
        if inputs[i].offset > largest {
            largest = inputs[i].offset;
        }
        i += 1;
    }
    assert(inputs@.take(inputs@.len() as int) =~= inputs@);
    Some(largest)
}

/// Represents a single attribute of a vertex.
///
/// A vertex attribute has two properties:
///
/// * An offset, used to determine which input(s) this attribute references.
/// * An index, which is used to index into the data specified by the
///   referenced input.
#[derive(Debug, Clone, Copy, PartialEq, Eq)]
pub struct VertexAttribute {
    /// The index within the relevant source array which has this attribute's
    /// value.
    pub index: usize,
    /// The offset of the attribute.
    ///
    /// This value will match the `offset` member of one or more inputs. If the
    /// attribute matches more than one input, then the attribute indexes into
    /// all of the inputs it matches.
    pub offset: usize,
}

/// A single vertex in a polygon.
///
/// A vertex is composed of one or more attributes: one index for each offset
/// that the inputs of the primitive use.
#[derive(Debug, Clone, PartialEq)]
pub struct Vertex<'a> {
    pub attributes: &'a [usize],
}

impl<'a> Vertex<'a> {
    /// Returns an iterator over the attributes in the vertex.
    pub fn iter(&self) -> (r: VertexIter<'a>)
        ensures
            r.attributes@ == self.attributes@,
            r.offset == 0,
    {
        VertexIter { attributes: self.attributes, offset: 0 }
    }
}

/// Hands out the attributes of a vertex, in the order of their offsets.
#[derive(Debug, Clone)]
pub struct VertexIter<'a> {
    pub attributes: &'a [usize],
    /// The offset of the attribute that comes next.
    pub offset: usize,
}

impl<'a> VertexIter<'a> {
    /// The next attribute: its offset is its place in the vertex, its index
    /// is what the vertex holds at that place.
    pub fn next(&mut self) -> (r: Option<VertexAttribute>)
        ensures
            final(self).attributes@ == old(self).attributes@,
            old(self).offset < old(self).attributes@.len() ==> r == Some(
                VertexAttribute {
                    index: old(self).attributes@[old(self).offset as int],
                    offset: old(self).offset,
                },
            ) && final(self).offset == old(self).offset + 1,
            old(self).offset >= old(self).attributes@.len() ==> r is None && final(self).offset
                == old(self).offset,
    {
        if self.offset < self.attributes.len() {
            let attribute = VertexAttribute {
                index: self.attributes[self.offset],
                offset: self.offset,
            };
            self.offset = self.offset + 1;
            Some(attribute)
        } else {
            None
        }
    }
}

/// One polygon of a polylist: for each of its vertices, `width` indices.
#[derive(Debug, Clone)]
pub struct Polygon<'a> {
    /// The number of vertices.
    pub len: usize,
    /// The indices of all the vertices, one vertex after another.
    pub indices: &'a [usize],
    /// The number of indices of each vertex.
    pub width: usize,
}

impl<'a> Polygon<'a> {
    /// Whether the polygon holds `width` indices for each of its vertices.
    pub open spec fn wf(self) -> bool {
        &&& self.width > 0
        &&& self.indices@.len() == self.len * self.width
    }

    /// The indices of the vertex number `vertex`.
    pub open spec fn vertex(self, vertex: int) -> Seq<usize> {
        self.indices@.subrange(vertex * self.width, vertex * self.width + self.width)
    }

    /// Returns an iterator over the vertices of the polygon.
    pub fn iter(&self) -> (r: PolygonIter<'a>)
        ensures
            r.polygon == *self,
            r.vertex == 0,
    {
        PolygonIter { polygon: Polygon { len: self.len, indices: self.indices, width: self.width }, vertex: 0 }
    }

    /// Returns the number of vertices in this polygon.
    pub fn len(&self) -> (r: usize)
        ensures
            r == self.len,
    {
        self.len
    }
}

/// Hands out the vertices of a polygon in order.
pub struct PolygonIter<'a> {
    pub polygon: Polygon<'a>,
    /// The number of the vertex that comes next.
    pub vertex: usize,
}

impl<'a> PolygonIter<'a> {
    /// The next vertex of the polygon.
    pub fn next(&mut self) -> (r: Option<Vertex<'a>>)
        requires
            old(self).polygon.wf(),
        ensures
            final(self).polygon == old(self).polygon,
            old(self).vertex < old(self).polygon.len ==> ({
                &&& r matches Some(v)
                &&& v.attributes@ == old(self).polygon.vertex(old(self).vertex as int)
                &&& v.attributes@.len() == old(self).polygon.width
                &&& final(self).vertex == old(self).vertex + 1
            }),
            old(self).vertex >= old(self).polygon.len ==> r is None && final(self).vertex == old(self).vertex,
    {
        if self.vertex < self.polygon.len {
            let width = self.polygon.width;
            let vertex = self.vertex;
            let len = self.polygon.len;
            let available = self.polygon.indices.len();
            assert(0 <= vertex * width && vertex * width + width <= len * width) by (nonlinear_arith)
                requires
                    vertex < len,
                    0 < width,
            ;
            let start = vertex * width;
            let attributes = slice_subrange(self.polygon.indices, start, start + width);
            self.vertex = vertex + 1;
            Some(Vertex { attributes })
        } else {
            None
        }
    }
}

/// Hands out the inputs of a polylist that have a given offset.
#[derive(Debug, Clone)]
pub struct InputsForOffset<'a> {
    pub inputs: &'a [SharedInput],
    /// The place of the input that is looked at next.
    pub cursor: usize,
    pub offset: usize,
}

/// The place of the first of `inputs` from `from` on that has the offset
/// `offset`; the number of inputs where there is none.
pub open spec fn input_place(inputs: Seq<SharedInput>, from: int, offset: usize) -> int
    decreases inputs.len() - from,
{
    if from < 0 || from >= inputs.len() {
        inputs.len() as int
    } else if inputs[from].offset == offset {
        from
    } else {
        input_place(inputs, from + 1, offset)
    }
}

impl<'a> InputsForOffset<'a> {
    /// The next input with the offset.
    pub fn next(&mut self) -> (r: Option<&'a SharedInput>)
        ensures
            final(self).inputs@ == old(self).inputs@,
            final(self).offset == old(self).offset,
            ({
                let place = input_place(
                    old(self).inputs@,
                    old(self).cursor as int,
                    old(self).offset,
                );
                match r {
                    Some(input) => place < old(self).inputs@.len() && *input == old(self).inputs@[place] && final(self).cursor == place + 1,
                    None => place == old(self).inputs@.len() && final(self).cursor >= old(self).inputs@.len(),
                }
            }),
    {
        let ghost first = self.cursor;
        while self.cursor < self.inputs.len()
            invariant
                self.inputs@ == old(self).inputs@,
                self.offset == old(self).offset,
                first == old(self).cursor,
                first <= self.cursor,
                input_place(self.inputs@, first as int, self.offset) == input_place(
                    self.inputs@,
                    self.cursor as int,
                    self.offset,
                ),
            decreases self.inputs@.len() - self.cursor,
        {
            let input = &self.inputs[self.cursor];
            self.cursor = self.cursor + 1;
            if input.offset == self.offset {
                return Some(input);
            }
        }
        None
    }
}

impl Polylist {
    /// The number of indices that each vertex has: one more than the largest
    /// offset of the inputs.
    pub open spec fn width(self) -> int {
        max_offset(self.inputs@) + 1
    }

    /// The numbers of vertices of the polygons; none where the polylist has no
    /// counts or no indices.
    pub open spec fn counts(self) -> Seq<usize> {
        match (self.vcount, self.primitives) {
            (Some(vcount), Some(_)) => vcount.data@,
            _ => Seq::empty(),
        }
    }

    /// The indices of the polylist; none where it has none.
    pub open spec fn indices(self) -> Seq<usize> {
        match self.primitives {
            Some(primitives) => primitives.data@,
            None => Seq::empty(),
        }
    }

    /// Whether the polygons can be told apart: there is an input, so that the
    /// number of indices of a vertex is defined.
    pub open spec fn indexable(self) -> bool {
        &&& self.inputs@.len() > 0
        &&& self.width() <= usize::MAX
    }

    /// The indices of the polygon number `k`.
    pub open spec fn polygon(self, k: int) -> Seq<usize> {
        self.indices().subrange(
            vertices_before(self.counts(), k) * self.width(),
            vertices_before(self.counts(), k + 1) * self.width(),
        )
    }

    /// The numbers of vertices of the polygons.
    fn vertex_counts(&self) -> (r: Option<&[usize]>)
        ensures
            match r {
                Some(counts) => counts@ == self.counts(),
                None => self.counts().len() == 0,
            },
    {
        match (&self.vcount, &self.primitives) {
            (Some(vcount), Some(_)) => Some(vcount.data.as_slice()),
            _ => None,
        }
    }

    /// Returns an iterator over the polygons in the polylist, if it has an
    /// input.
    pub fn checked_iter<'a>(&'a self) -> (r: Option<PolylistIter<'a>>)
        ensures
            match r {
                Some(iter) => self.indexable() && *iter.polylist == *self && iter.polygon == 0
                    && iter.wf(),
                None => !self.indexable(),
            },
    {
        match largest_offset(self.inputs.as_slice()) {
            Some(largest) if largest < usize::MAX => Some(
                PolylistIter {
                    polylist: self,
                    num_indices_per_vertex: largest + 1,
                    polygon: 0,
                    verts_so_far: 0,
                },
            ),
            _ => None,
        }
    }

    /// Returns an iterator over the polygons in the polylist, which must have
    /// an input.
    pub fn iter<'a>(&'a self) -> (r: PolylistIter<'a>)
        requires
            self.indexable(),
        ensures
            *r.polylist == *self,
            r.polygon == 0,
            r.wf(),
    {
        let largest = match largest_offset(self.inputs.as_slice()) {
            Some(largest) => largest,
            None => 0,
        };
        PolylistIter {
            polylist: self,
            num_indices_per_vertex: largest + 1,
            polygon: 0,
            verts_so_far: 0,
        }
    }

    /// Returns the number of polygons in the polylist.
    pub fn len(&self) -> (r: usize)
        ensures
            r == self.count,
    {
        self.count
    }

    /// Returns an iterator yielding all inputs that match `offset`.
    ///
    /// When matching a vertex attribute to an input, the attribute's offset is
    /// matched against the input's offset. It's possible for multiple inputs
    /// to share the same offset.
    pub fn inputs_for_offset<'a>(&'a self, offset: usize) -> (r: InputsForOffset<'a>)
        ensures
            r.inputs@ == self.inputs@,
            r.cursor == 0,
            r.offset == offset,
    {
        InputsForOffset { inputs: self.inputs.as_slice(), cursor: 0, offset }
    }
}

/// Hands out the polygons of a polylist in order.
pub struct PolylistIter<'a> {
    pub polylist: &'a Polylist,
    pub num_indices_per_vertex: usize,
    /// The number of the polygon that comes next.
    pub polygon: usize,
    /// How many vertices the polygons before it have together.
    pub verts_so_far: usize,
}

impl<'a> PolylistIter<'a> {
    /// Whether the iterator stands at a polygon of a polylist whose polygons
    /// can be told apart.
    pub open spec fn wf(self) -> bool {
        &&& self.polylist.indexable()
        &&& self.num_indices_per_vertex == self.polylist.width()
        &&& self.polygon <= self.polylist.counts().len()
        &&& self.verts_so_far == vertices_before(self.polylist.counts(), self.polygon as int)
    }

    /// Whether the polylist has the indices of the polygon that comes next, if
    /// one does.
    pub open spec fn has_next_indices(self) -> bool {
        self.polygon < self.polylist.counts().len() ==> (self.verts_so_far
            + self.polylist.counts()[self.polygon as int]) * self.num_indices_per_vertex
            <= self.polylist.indices().len()
    }

    /// Whether the polylist has the indices of the polygon that comes next, if
    /// one does.
    pub fn next_has_indices(&self) -> (r: bool)
        requires
            self.wf(),
        ensures
            r == self.has_next_indices(),
    {
        let polylist = self.polylist;
        let (counts, indices) = match (&polylist.vcount, &polylist.primitives) {
            (Some(vcount), Some(primitives)) => (
                vcount.data.as_slice(),
                primitives.data.as_slice(),
            ),
            _ => {
                return true;
            },
        };
        if self.polygon >= counts.len() {
            return true;
        }
        let available = indices.len();
        let width = self.num_indices_per_vertex;
        let before = self.verts_so_far;
        let num_verts = counts[self.polygon];
        match before.checked_add(num_verts) {
            Some(vertices) => match vertices.checked_mul(width) {
                Some(needed) => needed <= available,
                None => false,
            },
            None => {
                assert((before + num_verts) * width >= before + num_verts) by (nonlinear_arith)
                    requires
                        before + num_verts >= 0,
                        width >= 1,
                ;
                false
            },
        }
    }

    /// The next polygon: as many vertices as the counts say, from the indices
    /// that follow those of the polygons before it. The polylist must have
    /// those indices.
    pub fn next(&mut self) -> (r: Option<Polygon<'a>>)
        requires
            old(self).wf(),
            old(self).has_next_indices(),
        ensures
            final(self).wf(),
            final(self).polylist == old(self).polylist,
            old(self).polygon < old(self).polylist.counts().len() ==> ({
                &&& r matches Some(p)
                &&& p.wf()
                &&& p.len == old(self).polylist.counts()[old(self).polygon as int]
                &&& p.width == old(self).polylist.width()
                &&& p.indices@ == old(self).polylist.polygon(old(self).polygon as int)
                &&& final(self).polygon == old(self).polygon + 1
            }),
            old(self).polygon >= old(self).polylist.counts().len() ==> r is None && final(self).polygon == old(self).polygon,
    {
        let polylist = self.polylist;
        let (counts, indices) = match (&polylist.vcount, &polylist.primitives) {
            (Some(vcount), Some(primitives)) => (
                vcount.data.as_slice(),
                primitives.data.as_slice(),
            ),
            _ => {
                return None;
            },
        };
        if self.polygon >= counts.len() {
            return None;
        }
        let num_verts = counts[self.polygon];
        let width = self.num_indices_per_vertex;
        let before = self.verts_so_far;
        let available = indices.len();
        proof {
            lemma_vertices_nonnegative(counts@, self.polygon as int);
            assert(0 <= before * width && before * width <= (before + num_verts) * width && (before
                + num_verts) * width == before * width + num_verts * width && before + num_verts
                <= (before + num_verts) * width) by (nonlinear_arith)
                requires
                    0 <= before,
                    0 <= num_verts,
                    1 <= width,
            ;
        }
        let start = before * width;
        let block = slice_subrange(indices, start, (before + num_verts) * width);
        self.verts_so_far = before + num_verts;
        self.polygon = self.polygon + 1;
        Some(Polygon { len: num_verts, indices: block, width })
    }
}

/// A `<float_array>` that the engine accepts has 6 digits where it writes no
/// `digits`, and the magnitude 38 where it writes no `magnitude`.
pub proof fn lemma_float_array_defaults(
    tokens: Seq<Token>,
    cursor: int,
    slot: int,
    array: FloatArray,
)
    requires
        0 < cursor <= tokens.len(),
        parse_element_spec(schema_view(), FLOAT_ARRAY as int, tokens, cursor, slot).0 matches Ok(
            node,
        ) && array.represents(node),
    ensures
        unwritten(tokens, cursor - 1, "digits"@) ==> array.digits == 6,
        unwritten(tokens, cursor - 1, "magnitude"@) ==> array.magnitude == 38,
{
    let schema = schema_view();
    assert(schema.elements[FLOAT_ARRAY as int] == FloatArray::description());
    if unwritten(tokens, cursor - 1, "digits"@) {
        lemma_element_default(
            schema,
            FLOAT_ARRAY as int,
            tokens,
            cursor,
            slot,
            3,
            ValueView::Integer(6),
        );
    }
    if unwritten(tokens, cursor - 1, "magnitude"@) {
        lemma_element_default(
            schema,
            FLOAT_ARRAY as int,
            tokens,
            cursor,
            slot,
            4,
            ValueView::Integer(38),
        );
    }
}

/// An `<accessor>` that the engine accepts has the offset 0 where it writes
/// no `offset`, and the stride 1 where it writes no `stride`.
pub proof fn lemma_accessor_defaults(
    tokens: Seq<Token>,
    cursor: int,
    slot: int,
    accessor: Accessor,
)
    requires
        0 < cursor <= tokens.len(),
        parse_element_spec(schema_view(), ACCESSOR as int, tokens, cursor, slot).0 matches Ok(
            node,
        ) && accessor.represents(node),
    ensures
        unwritten(tokens, cursor - 1, "offset"@) ==> accessor.offset == 0,
        unwritten(tokens, cursor - 1, "stride"@) ==> accessor.stride == 1,
{
    let schema = schema_view();
    assert(schema.elements[ACCESSOR as int] == Accessor::description());
    if unwritten(tokens, cursor - 1, "offset"@) {
        lemma_element_default(schema, ACCESSOR as int, tokens, cursor, slot, 1, ValueView::Integer(0));
    }
    if unwritten(tokens, cursor - 1, "stride"@) {
        lemma_element_default(schema, ACCESSOR as int, tokens, cursor, slot, 3, ValueView::Integer(1));
    }
}

/// A `<float_array>` is never refused for want of `digits` or `magnitude`,
/// nor an `<accessor>` for want of `offset` or `stride`.
pub proof fn lemma_defaults_are_not_missing(written: Seq<AttributeView>)
    ensures
        check_attributes_spec(FloatArray::description(), written) != Err::<
            Seq<Option<ValueView>>,
            ErrorKindView,
        >(ErrorKindView::MissingAttribute { element: "float_array"@, attribute: "digits"@ }),
        check_attributes_spec(FloatArray::description(), written) != Err::<
            Seq<Option<ValueView>>,
            ErrorKindView,
        >(ErrorKindView::MissingAttribute { element: "float_array"@, attribute: "magnitude"@ }),
        check_attributes_spec(Accessor::description(), written) != Err::<
            Seq<Option<ValueView>>,
            ErrorKindView,
        >(ErrorKindView::MissingAttribute { element: "accessor"@, attribute: "offset"@ }),
        check_attributes_spec(Accessor::description(), written) != Err::<
            Seq<Option<ValueView>>,
            ErrorKindView,
        >(ErrorKindView::MissingAttribute { element: "accessor"@, attribute: "stride"@ }),
{
    reveal_strlit("count");
    reveal_strlit("id");
    reveal_strlit("name");
    reveal_strlit("digits");
    reveal_strlit("magnitude");
    reveal_strlit("offset");
    reveal_strlit("source");
    reveal_strlit("stride");
    assert("offset"@[0] != "source"@[0] && "offset"@[0] != "stride"@[0]);
    assert("stride"@[1] != "source"@[1]);
    let array = FloatArray::description();
    let accessor = Accessor::description();
    if check_attributes_spec(array, written) == Err::<Seq<Option<ValueView>>, ErrorKindView>(
        ErrorKindView::MissingAttribute { element: "float_array"@, attribute: "digits"@ },
    ) {
        let j = lemma_missing_attribute(array, written, "digits"@);
        assert(array.attributes[j].name.len() != 6 || j == 3);
    }
    if check_attributes_spec(array, written) == Err::<Seq<Option<ValueView>>, ErrorKindView>(
        ErrorKindView::MissingAttribute { element: "float_array"@, attribute: "magnitude"@ },
    ) {
        let j = lemma_missing_attribute(array, written, "magnitude"@);
        assert(array.attributes[j].name.len() != 9 || j == 4);
    }
    if check_attributes_spec(accessor, written) == Err::<Seq<Option<ValueView>>, ErrorKindView>(
        ErrorKindView::MissingAttribute { element: "accessor"@, attribute: "offset"@ },
    ) {
        let j = lemma_missing_attribute(accessor, written, "offset"@);
        assert(j == 1 || accessor.attributes[j].name != "offset"@);
    }
    if check_attributes_spec(accessor, written) == Err::<Seq<Option<ValueView>>, ErrorKindView>(
        ErrorKindView::MissingAttribute { element: "accessor"@, attribute: "stride"@ },
    ) {
        let j = lemma_missing_attribute(accessor, written, "stride"@);
        assert(j == 3 || accessor.attributes[j].name != "stride"@);
    }
}

/// The node of the library of geometries number `i` of a document.
proof fn lemma_library_node(
    tokens: Seq<Token>,
    root: NodeView,
    document: Collada,
    i: int,
    library: LibraryGeometries,
) -> (node: NodeView)
    requires
        read_through(schema_view(), COLLADA as int, tokens, root),
        document.represents(root),
        0 <= i < document.libraries@.len(),
        document.libraries@[i] == Library::Geometries(library),
    ensures
        library.represents(node),
        read_through(schema_view(), LIBRARY_GEOMETRIES as int, tokens, node),
{
    let schema = schema_view();
    assert(schema.elements[COLLADA as int] == Collada::description());
    let node = root.children_of(1)[i];
    assert(document.libraries@[i].represents(node));
    lemma_child_read(schema, COLLADA as int, tokens, root, 1, i);
    node
}

/// The node of the geometry number `j` of a library.
proof fn lemma_geometry_node(
    tokens: Seq<Token>,
    above: NodeView,
    library: LibraryGeometries,
    j: int,
) -> (node: NodeView)
    requires
        read_through(schema_view(), LIBRARY_GEOMETRIES as int, tokens, above),
        library.represents(above),
        0 <= j < library.geometries@.len(),
    ensures
        library.geometries@[j].represents(node),
        read_through(schema_view(), GEOMETRY as int, tokens, node),
{
    let schema = schema_view();
    assert(schema.elements[LIBRARY_GEOMETRIES as int] == LibraryGeometries::description());
    let node = above.children_of(1)[j];
    assert(library.geometries@[j].represents(node));
    lemma_child_read(schema, LIBRARY_GEOMETRIES as int, tokens, above, 1, j);
    lemma_position_of(seq!["geometry"@], node.name);
    node
}

/// The node of the mesh of a geometry.
proof fn lemma_mesh_node(tokens: Seq<Token>, above: NodeView, geometry: Geometry, mesh: Mesh) -> (node:
    NodeView)
    requires
        read_through(schema_view(), GEOMETRY as int, tokens, above),
        geometry.represents(above),
        geometry.geometric_element == GeometricElement::Mesh(mesh),
    ensures
        mesh.represents(node),
        read_through(schema_view(), MESH as int, tokens, node),
{
    let schema = schema_view();
    assert(schema.elements[GEOMETRY as int] == Geometry::description());
    let cursor = choose|cursor: int| #[trigger]
        read_at(schema, GEOMETRY as int, tokens, cursor, above);
    lemma_node_conforms(schema, GEOMETRY as int, tokens, cursor, above.slot);
    lemma_owed_child_present(Geometry::description().children(), above, 1);
    let node = above.child(1)->0;
    lemma_child_read(schema, GEOMETRY as int, tokens, above, 1, 0);
    node
}

/// The node of the source number `k` of a mesh.
proof fn lemma_source_node(tokens: Seq<Token>, above: NodeView, mesh: Mesh, k: int) -> (node:
    NodeView)
    requires
        read_through(schema_view(), MESH as int, tokens, above),
        mesh.represents(above),
        0 <= k < mesh.sources@.len(),
    ensures
        mesh.sources@[k].represents(node),
        read_through(schema_view(), SOURCE as int, tokens, node),
{
    let schema = schema_view();
    assert(schema.elements[MESH as int] == Mesh::description());
    let node = above.children_of(0)[k];
    assert(mesh.sources@[k].represents(node));
    lemma_child_read(schema, MESH as int, tokens, above, 0, k);
    lemma_position_of(seq!["source"@], node.name);
    node
}

/// The node of the source number `k` of the mesh of the geometry number `j`
/// of the library number `i` of a document that is accepted.
proof fn lemma_document_source_node(
    tokens: Seq<Token>,
    document: Collada,
    i: int,
    library: LibraryGeometries,
    j: int,
    mesh: Mesh,
    k: int,
) -> (node: NodeView)
    requires
        Collada::document(tokens) matches Ok(root) && document.represents(root),
        0 <= i < document.libraries@.len(),
        document.libraries@[i] == Library::Geometries(library),
        0 <= j < library.geometries@.len(),
        library.geometries@[j].geometric_element == GeometricElement::Mesh(mesh),
        0 <= k < mesh.sources@.len(),
    ensures
        mesh.sources@[k].represents(node),
        read_through(schema_view(), SOURCE as int, tokens, node),
{
    let root = Collada::document(tokens)->Ok_0;
    lemma_document_read(schema_view(), COLLADA as int, Collada::versions(), tokens);
    let first = lemma_library_node(tokens, root, document, i, library);
    let second = lemma_geometry_node(tokens, first, library, j);
    let third = lemma_mesh_node(tokens, second, library.geometries@[j], mesh);
    lemma_source_node(tokens, third, mesh, k)
}

/// In a document that is accepted, a float array of a source of a mesh holds
/// what one `<float_array>` of the document holds, and has 6 digits where
/// that element writes no `digits`, and the magnitude 38 where it writes no
/// `magnitude`. The result is the place where the contents of the element
/// begin.
pub proof fn lemma_document_float_array(
    tokens: Seq<Token>,
    document: Collada,
    i: int,
    library: LibraryGeometries,
    j: int,
    mesh: Mesh,
    k: int,
    array: FloatArray,
) -> (cursor: int)
    requires
        Collada::document(tokens) matches Ok(root) && document.represents(root),
        0 <= i < document.libraries@.len(),
        document.libraries@[i] == Library::Geometries(library),
        0 <= j < library.geometries@.len(),
        library.geometries@[j].geometric_element == GeometricElement::Mesh(mesh),
        0 <= k < mesh.sources@.len(),
        mesh.sources@[k].array == Some(Array::Float(array)),
    ensures
        0 < cursor <= tokens.len(),
        name_at(tokens, cursor - 1) == "float_array"@,
        exists|node: NodeView| #[trigger]
            read_at(schema_view(), FLOAT_ARRAY as int, tokens, cursor, node) && array.represents(
                node,
            ),
        unwritten(tokens, cursor - 1, "digits"@) ==> array.digits == 6,
        unwritten(tokens, cursor - 1, "magnitude"@) ==> array.magnitude == 38,
{
    let schema = schema_view();
    let above = lemma_document_source_node(tokens, document, i, library, j, mesh, k);
    assert(schema.elements[SOURCE as int] == Source::description());
    let node = above.child(1)->0;
    assert(Array::Float(array).represents(node));
    lemma_child_read(schema, SOURCE as int, tokens, above, 1, 0);
    lemma_position_of(array_names(), node.name);
    let cursor = choose|cursor: int| #[trigger]
        read_at(schema, FLOAT_ARRAY as int, tokens, cursor, node);
    lemma_node_identity(schema, FLOAT_ARRAY as int, tokens, cursor, node.slot);
    lemma_float_array_defaults(tokens, cursor, node.slot, array);
    cursor
}

/// In a document that is accepted, the accessor of a source of a mesh holds
/// what one `<accessor>` of the document holds, and has the offset 0 where
/// that element writes no `offset`, and the stride 1 where it writes no
/// `stride`. The result is the place where the contents of the element begin.
pub proof fn lemma_document_accessor(
    tokens: Seq<Token>,
    document: Collada,
    i: int,
    library: LibraryGeometries,
    j: int,
    mesh: Mesh,
    k: int,
    common: SourceTechniqueCommon,
) -> (cursor: int)
    requires
        Collada::document(tokens) matches Ok(root) && document.represents(root),
        0 <= i < document.libraries@.len(),
        document.libraries@[i] == Library::Geometries(library),
        0 <= j < library.geometries@.len(),
        library.geometries@[j].geometric_element == GeometricElement::Mesh(mesh),
        0 <= k < mesh.sources@.len(),
        mesh.sources@[k].technique_common == Some(common),
    ensures
        0 < cursor <= tokens.len(),
        name_at(tokens, cursor - 1) == "accessor"@,
        exists|node: NodeView| #[trigger]
            read_at(schema_view(), ACCESSOR as int, tokens, cursor, node)
                && common.accessor.represents(node),
        unwritten(tokens, cursor - 1, "offset"@) ==> common.accessor.offset == 0,
        unwritten(tokens, cursor - 1, "stride"@) ==> common.accessor.stride == 1,
{
    let schema = schema_view();
    let above = lemma_document_source_node(tokens, document, i, library, j, mesh, k);
    assert(schema.elements[SOURCE as int] == Source::description());
    let middle = above.child(2)->0;
    assert(common.represents(middle));
    lemma_child_read(schema, SOURCE as int, tokens, above, 2, 0);
    lemma_position_of(seq!["technique_common"@], middle.name);
    assert(schema.elements[TECHNIQUE_COMMON as int] == SourceTechniqueCommon::description());
    let place = choose|cursor: int| #[trigger]
        read_at(schema, TECHNIQUE_COMMON as int, tokens, cursor, middle);
    lemma_node_conforms(schema, TECHNIQUE_COMMON as int, tokens, place, middle.slot);
    lemma_owed_child_present(SourceTechniqueCommon::description().children(), middle, 0);
    let node = middle.child(0)->0;
    lemma_child_read(schema, TECHNIQUE_COMMON as int, tokens, middle, 0, 0);
    lemma_position_of(seq!["accessor"@], node.name);
    let cursor = choose|cursor: int| #[trigger]
        read_at(schema, ACCESSOR as int, tokens, cursor, node);
    lemma_node_identity(schema, ACCESSOR as int, tokens, cursor, node.slot);
    lemma_accessor_defaults(tokens, cursor, node.slot, common.accessor);
    cursor
}

/// Where a polylist has indices for all the vertices of all its polygons, it
/// has them for the polygon that an iterator over it comes to next.
pub proof fn lemma_indices_for_all(iter: PolylistIter)
    requires
        iter.wf(),
        vertices_before(iter.polylist.counts(), iter.polylist.counts().len() as int)
            * iter.polylist.width() <= iter.polylist.indices().len(),
    ensures
        iter.has_next_indices(),
{
    let counts = iter.polylist.counts();
    if iter.polygon < counts.len() {
        let next = vertices_before(counts, iter.polygon + 1);
        let total = vertices_before(counts, counts.len() as int);
        let width = iter.polylist.width();
        lemma_vertices_before(counts, iter.polygon + 1);
        assert(next * width <= total * width) by (nonlinear_arith)
            requires
                0 <= next <= total,
                0 <= width,
        ;
    }
}

impl std::ops::Deref for Primitives {
    type Target = [usize];

    fn deref(&self) -> (r: &[usize])
        ensures
            r@ == self.data@,
    {
        self.data.as_slice()
    }
}

impl std::ops::Deref for VCount {
    type Target = [usize];

    fn deref(&self) -> (r: &[usize])
        ensures
            r@ == self.data@,
    {
        self.data.as_slice()
    }
}

} // verus!
