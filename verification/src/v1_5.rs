//! Type definitions matching the COLLADA `1.5.0` specification.

use crate::common::{AnyUri, DateTime, Decimal, Technique, Unit, UpAxis};
use crate::document::{document_spec, lemma_malformed_document, parse_document};
use crate::element::{
    choice_from, choice_of, defaulted, many, optional, pick, represent_all, represent_defaulted,
    represent_optional, represent_required, required, string_view, text_from, text_of,
    text_or_empty, text_or_empty_from, time_or_epoch, time_or_epoch_from, uri_from, uri_view,
    which, ColladaElement,
};
use crate::error::{ErrorView, Result};
use crate::node::{Node, NodeView};
use crate::schema::{
    choice, choice_view, container, declared_views, ignored, ignored_view, leaf, leaf_view,
    optional_attribute, optional_view, required_attribute, required_view, rule_views, slot,
    slot_view, AttributeConfiguration, ChildOccurrences, Content,
    ContentView, ElementConfiguration, ElementConfigurationView, Schema, SchemaView,
    TextOccurrences,
};
use crate::source::{deep_doctype, document_tokens, refusal_error, tokenize};
use crate::text::views;
use crate::token::Token;
use crate::value::{ValueKind, ValueKindView};
use vstd::prelude::*;
use vstd::string::*;

verus! {

/// The place of `<COLLADA>` in the schema.
pub const COLLADA: usize = 0;

/// The place of `<asset>` in the schema.
pub const ASSET: usize = 1;

/// The place of `<contributor>` in the schema.
pub const CONTRIBUTOR: usize = 2;

/// The place of `<author>` in the schema.
pub const AUTHOR: usize = 3;

/// The place of `<author_email>` in the schema.
pub const AUTHOR_EMAIL: usize = 4;

/// The place of `<author_website>` in the schema.
pub const AUTHOR_WEBSITE: usize = 5;

/// The place of `<authoring_tool>` in the schema.
pub const AUTHORING_TOOL: usize = 6;

/// The place of `<comments>` in the schema.
pub const COMMENTS: usize = 7;

/// The place of `<copyright>` in the schema.
pub const COPYRIGHT: usize = 8;

/// The place of `<source_data>` in the schema.
pub const SOURCE_DATA: usize = 9;

/// The place of `<coverage>` in the schema.
pub const COVERAGE: usize = 10;

/// The place of `<geographic_location>` in the schema.
pub const GEOGRAPHIC_LOCATION: usize = 11;

/// The place of `<longitude>` in the schema.
pub const LONGITUDE: usize = 12;

/// The place of `<latitude>` in the schema.
pub const LATITUDE: usize = 13;

/// The place of `<altitude>` in the schema.
pub const ALTITUDE: usize = 14;

/// The place of `<created>` in the schema.
pub const CREATED: usize = 15;

/// The place of `<keywords>` in the schema.
pub const KEYWORDS: usize = 16;

/// The place of `<modified>` in the schema.
pub const MODIFIED: usize = 17;

/// The place of `<revision>` in the schema.
pub const REVISION: usize = 18;

/// The place of `<subject>` in the schema.
pub const SUBJECT: usize = 19;

/// The place of `<title>` in the schema.
pub const TITLE: usize = 20;

/// The place of `<unit>` in the schema.
pub const UNIT: usize = 21;

/// The place of `<up_axis>` in the schema.
pub const UP_AXIS: usize = 22;

/// The place of `<extra>` in the schema.
pub const EXTRA: usize = 23;

/// The place of `<technique>` in the schema.
pub const TECHNIQUE: usize = 24;

/// The place of `<library_animations>` in the schema.
pub const LIBRARY_ANIMATIONS: usize = 25;

/// The place of `<library_animation_clips>` in the schema.
pub const LIBRARY_ANIMATION_CLIPS: usize = 26;

/// The place of `<library_articulated_systems>` in the schema.
pub const LIBRARY_ARTICULATED_SYSTEMS: usize = 27;

/// The place of `<library_cameras>` in the schema.
pub const LIBRARY_CAMERAS: usize = 28;

/// The place of `<library_controllers>` in the schema.
pub const LIBRARY_CONTROLLERS: usize = 29;

/// The place of `<library_effects>` in the schema.
pub const LIBRARY_EFFECTS: usize = 30;

/// The place of `<library_force_fields>` in the schema.
pub const LIBRARY_FORCE_FIELDS: usize = 31;

/// The place of `<library_formulas>` in the schema.
pub const LIBRARY_FORMULAS: usize = 32;

/// The place of `<library_geometries>` in the schema.
pub const LIBRARY_GEOMETRIES: usize = 33;

/// The place of `<library_images>` in the schema.
pub const LIBRARY_IMAGES: usize = 34;

/// The place of `<library_joints>` in the schema.
pub const LIBRARY_JOINTS: usize = 35;

/// The place of `<library_kinematics_models>` in the schema.
pub const LIBRARY_KINEMATICS_MODELS: usize = 36;

/// The place of `<library_kinematics_scenes>` in the schema.
pub const LIBRARY_KINEMATICS_SCENES: usize = 37;

/// The place of `<library_lights>` in the schema.
pub const LIBRARY_LIGHTS: usize = 38;

/// The place of `<library_materials>` in the schema.
pub const LIBRARY_MATERIALS: usize = 39;

/// The place of `<library_nodes>` in the schema.
pub const LIBRARY_NODES: usize = 40;

/// The place of `<library_physics_materials>` in the schema.
pub const LIBRARY_PHYSICS_MATERIALS: usize = 41;

/// The place of `<library_physics_models>` in the schema.
pub const LIBRARY_PHYSICS_MODELS: usize = 42;

/// The place of `<library_physics_scenes>` in the schema.
pub const LIBRARY_PHYSICS_SCENES: usize = 43;

/// The place of `<library_visual_scenes>` in the schema.
pub const LIBRARY_VISUAL_SCENES: usize = 44;

/// The place of `<scene>` in the schema.
pub const SCENE: usize = 45;

/// Represents a parsed COLLADA document.
#[derive(Debug, PartialEq)]
pub struct Collada {
    /// The version string for the COLLADA specification used by the document.
    ///
    /// Will be "1.5.0".
    pub version: String,
    /// Included for completeness in parsing, not actually used.
    pub xmlns: Option<String>,
    /// The base uri for any relative URIs in the document.
    ///
    /// Specified by the `base` attribute on the root `<COLLADA>` element.
    pub base_uri: Option<AnyUri>,
    /// Global metadata about the COLLADA document.
    pub asset: Asset,
    pub libraries: Vec<Library>,
    pub scene: Option<Scene>,
    pub extras: Vec<Extra>,
}

impl Collada {
    /// What `<COLLADA>` may hold.
    pub open spec fn description() -> ElementConfigurationView {
        ElementConfigurationView {
            name: "COLLADA"@,
            attributes: seq![
                required_view("version"@, ValueKindView::Text),
                optional_view("xmlns"@, ValueKindView::Text),
                optional_view("base"@, ValueKindView::Text),
            ],
            content: ContentView::Children(
                seq![
                    slot_view("asset"@, ASSET, ChildOccurrences::Required),
                    choice_view(seq!["library_animations"@, "library_animation_clips"@, "library_articulated_systems"@, "library_cameras"@, "library_controllers"@, "library_effects"@, "library_force_fields"@, "library_formulas"@, "library_geometries"@, "library_images"@, "library_joints"@, "library_kinematics_models"@, "library_kinematics_scenes"@, "library_lights"@, "library_materials"@, "library_nodes"@, "library_physics_materials"@, "library_physics_models"@, "library_physics_scenes"@, "library_visual_scenes"@], seq![LIBRARY_ANIMATIONS, LIBRARY_ANIMATION_CLIPS, LIBRARY_ARTICULATED_SYSTEMS, LIBRARY_CAMERAS, LIBRARY_CONTROLLERS, LIBRARY_EFFECTS, LIBRARY_FORCE_FIELDS, LIBRARY_FORMULAS, LIBRARY_GEOMETRIES, LIBRARY_IMAGES, LIBRARY_JOINTS, LIBRARY_KINEMATICS_MODELS, LIBRARY_KINEMATICS_SCENES, LIBRARY_LIGHTS, LIBRARY_MATERIALS, LIBRARY_NODES, LIBRARY_PHYSICS_MATERIALS, LIBRARY_PHYSICS_MODELS, LIBRARY_PHYSICS_SCENES, LIBRARY_VISUAL_SCENES], ChildOccurrences::Many),
                    slot_view("scene"@, SCENE, ChildOccurrences::Optional),
                    slot_view("extra"@, EXTRA, ChildOccurrences::Many),
                ],
            ),
        }
    }

    /// What `<COLLADA>` may hold.
    pub fn configuration() -> (r: ElementConfiguration)
        ensures
            r@ == Self::description(),
    {
        let attributes = vec![
            required_attribute("version", ValueKind::Text),
            optional_attribute("xmlns", ValueKind::Text),
            optional_attribute("base", ValueKind::Text),
        ];
        assert(declared_views(attributes@) =~= Self::description().attributes);
        let rules = vec![
            slot("asset", ASSET, ChildOccurrences::Required),
            choice(collect_library_names(), vec![LIBRARY_ANIMATIONS, LIBRARY_ANIMATION_CLIPS, LIBRARY_ARTICULATED_SYSTEMS, LIBRARY_CAMERAS, LIBRARY_CONTROLLERS, LIBRARY_EFFECTS, LIBRARY_FORCE_FIELDS, LIBRARY_FORMULAS, LIBRARY_GEOMETRIES, LIBRARY_IMAGES, LIBRARY_JOINTS, LIBRARY_KINEMATICS_MODELS, LIBRARY_KINEMATICS_SCENES, LIBRARY_LIGHTS, LIBRARY_MATERIALS, LIBRARY_NODES, LIBRARY_PHYSICS_MATERIALS, LIBRARY_PHYSICS_MODELS, LIBRARY_PHYSICS_SCENES, LIBRARY_VISUAL_SCENES], ChildOccurrences::Many),
            slot("scene", SCENE, ChildOccurrences::Optional),
            slot("extra", EXTRA, ChildOccurrences::Many),
        ];
        assert(rule_views(rules@) =~= Self::description().children());
        container("COLLADA", attributes, rules)
    }
}

impl ColladaElement for Collada {
    open spec fn represents(self, node: NodeView) -> bool {
        &&& self.version@ == text_or_empty(node.attribute(0))
        &&& string_view(self.xmlns) == text_of(node.attribute(1))
        &&& uri_view(self.base_uri) == text_of(node.attribute(2))
        &&& represent_required(self.asset, node.child(0))
        &&& represent_all(self.libraries@, node.children_of(1))
        &&& represent_optional(self.scene, node.child(2))
        &&& represent_all(self.extras@, node.children_of(3))
    }

    fn from_node(node: &Node) -> (r: Self) {
        Collada {
            version: text_or_empty_from(node.attribute(0)),
            xmlns: text_from(node.attribute(1)),
            base_uri: uri_from(node.attribute(2)),
            asset: required(node, 0),
            libraries: many(node, 1),
            scene: optional(node, 2),
            extras: many(node, 3),
        }
    }
}

/// Asset-management information about an element.
///
/// Includes both asset metadata, such as a list of contributors and keywords, as well
/// as functional information, such as units of distance and the up axis for the asset.
///
/// `coverage` and `extras` were added in COLLADA version `1.5.0`.
#[derive(Debug, PartialEq)]
pub struct Asset {
    /// The list of contributors who worked on the asset.
    pub contributors: Vec<Contributor>,
    /// Specifies the location of the visual scene in physical space.
    pub coverage: Option<Coverage>,
    /// Specifies the date and time that the asset was created.
    pub created: DateTime,
    /// A list of keywords used as search criteria for the asset.
    pub keywords: Option<String>,
    /// Contains the date and time that the parent element was last modified.
    pub modified: DateTime,
    /// Contains revision information about the asset.
    pub revision: Option<String>,
    /// Contains a description of the topical subject of the asset.
    pub subject: Option<String>,
    /// Contains title information for the asset.
    pub title: Option<String>,
    /// Defines the unit of distance for this asset.
    pub unit: Unit,
    /// Describes the coordinate system of the asset.
    pub up_axis: UpAxis,
    /// Provides arbitrary additional data about the asset.
    pub extras: Vec<Extra>,
}

impl Asset {
    /// What `<asset>` may hold.
    pub open spec fn description() -> ElementConfigurationView {
        ElementConfigurationView {
            name: "asset"@,
            attributes: Seq::empty(),
            content: ContentView::Children(
                seq![
                    slot_view("contributor"@, CONTRIBUTOR, ChildOccurrences::Many),
                    slot_view("coverage"@, COVERAGE, ChildOccurrences::Optional),
                    slot_view("created"@, CREATED, ChildOccurrences::Required),
                    slot_view("keywords"@, KEYWORDS, ChildOccurrences::Optional),
                    slot_view("modified"@, MODIFIED, ChildOccurrences::Required),
                    slot_view("revision"@, REVISION, ChildOccurrences::Optional),
                    slot_view("subject"@, SUBJECT, ChildOccurrences::Optional),
                    slot_view("title"@, TITLE, ChildOccurrences::Optional),
                    slot_view("unit"@, UNIT, ChildOccurrences::OptionalWithDefault),
                    slot_view("up_axis"@, UP_AXIS, ChildOccurrences::OptionalWithDefault),
                    slot_view("extra"@, EXTRA, ChildOccurrences::Many),
                ],
            ),
        }
    }

    /// What `<asset>` may hold.
    pub fn configuration() -> (r: ElementConfiguration)
        ensures
            r@ == Self::description(),
    {
        let attributes: Vec<AttributeConfiguration> = Vec::new();
        assert(declared_views(attributes@) =~= Self::description().attributes);
        let rules = vec![
            slot("contributor", CONTRIBUTOR, ChildOccurrences::Many),
            slot("coverage", COVERAGE, ChildOccurrences::Optional),
            slot("created", CREATED, ChildOccurrences::Required),
            slot("keywords", KEYWORDS, ChildOccurrences::Optional),
            slot("modified", MODIFIED, ChildOccurrences::Required),
            slot("revision", REVISION, ChildOccurrences::Optional),
            slot("subject", SUBJECT, ChildOccurrences::Optional),
            slot("title", TITLE, ChildOccurrences::Optional),
            slot("unit", UNIT, ChildOccurrences::OptionalWithDefault),
            slot("up_axis", UP_AXIS, ChildOccurrences::OptionalWithDefault),
            slot("extra", EXTRA, ChildOccurrences::Many),
        ];
        assert(rule_views(rules@) =~= Self::description().children());
        container("asset", attributes, rules)
    }
}

/// The location of the visual scene in physical space.
#[derive(Debug, Clone, PartialEq)]
pub struct Coverage {
    pub geographic_location: Option<GeographicLocation>,
}

impl Coverage {
    /// What `<coverage>` may hold.
    pub open spec fn description() -> ElementConfigurationView {
        ElementConfigurationView {
            name: "coverage"@,
            attributes: Seq::empty(),
            content: ContentView::Children(
                seq![
                    slot_view("geographic_location"@, GEOGRAPHIC_LOCATION, ChildOccurrences::Optional),
                ],
            ),
        }
    }

    /// What `<coverage>` may hold.
    pub fn configuration() -> (r: ElementConfiguration)
        ensures
            r@ == Self::description(),
    {
        let attributes: Vec<AttributeConfiguration> = Vec::new();
        assert(declared_views(attributes@) =~= Self::description().attributes);
        let rules = vec![
            slot("geographic_location", GEOGRAPHIC_LOCATION, ChildOccurrences::Optional),
        ];
        assert(rule_views(rules@) =~= Self::description().children());
        container("coverage", attributes, rules)
    }
}

impl ColladaElement for Coverage {
    open spec fn represents(self, node: NodeView) -> bool {
        &&& represent_optional(self.geographic_location, node.child(0))
    }

    fn from_node(node: &Node) -> (r: Self) {
        Coverage {
            geographic_location: optional(node, 0),
        }
    }
}

/// Information about a contributor to an asset.
///
/// `author_email` and `author_website` were added in COLLADA version `1.5.0`.
#[derive(Debug, Clone, Default, PartialEq, Eq)]
pub struct Contributor {
    /// The author's name, if present.
    pub author: Option<String>,
    /// The author's full email address, if present.
    pub author_email: Option<String>,
    /// The URL for the author's website, if present.
    pub author_website: Option<AnyUri>,
    /// The name of the authoring tool.
    pub authoring_tool: Option<String>,
    /// Free-form comments from the author.
    pub comments: Option<String>,
    /// Copyright information about the asset.
    pub copyright: Option<String>,
    /// A URI reference to the source data for the asset.
    pub source_data: Option<AnyUri>,
}

impl Contributor {
    /// What `<contributor>` may hold.
    pub open spec fn description() -> ElementConfigurationView {
        ElementConfigurationView {
            name: "contributor"@,
            attributes: Seq::empty(),
            content: ContentView::Children(
                seq![
                    slot_view("author"@, AUTHOR, ChildOccurrences::Optional),
                    slot_view("author_email"@, AUTHOR_EMAIL, ChildOccurrences::Optional),
                    slot_view("author_website"@, AUTHOR_WEBSITE, ChildOccurrences::Optional),
                    slot_view("authoring_tool"@, AUTHORING_TOOL, ChildOccurrences::Optional),
                    slot_view("comments"@, COMMENTS, ChildOccurrences::Optional),
                    slot_view("copyright"@, COPYRIGHT, ChildOccurrences::Optional),
                    slot_view("source_data"@, SOURCE_DATA, ChildOccurrences::Optional),
                ],
            ),
        }
    }

    /// What `<contributor>` may hold.
    pub fn configuration() -> (r: ElementConfiguration)
        ensures
            r@ == Self::description(),
    {
        let attributes: Vec<AttributeConfiguration> = Vec::new();
        assert(declared_views(attributes@) =~= Self::description().attributes);
        let rules = vec![
            slot("author", AUTHOR, ChildOccurrences::Optional),
            slot("author_email", AUTHOR_EMAIL, ChildOccurrences::Optional),
            slot("author_website", AUTHOR_WEBSITE, ChildOccurrences::Optional),
            slot("authoring_tool", AUTHORING_TOOL, ChildOccurrences::Optional),
            slot("comments", COMMENTS, ChildOccurrences::Optional),
            slot("copyright", COPYRIGHT, ChildOccurrences::Optional),
            slot("source_data", SOURCE_DATA, ChildOccurrences::Optional),
        ];
        assert(rule_views(rules@) =~= Self::description().children());
        container("contributor", attributes, rules)
    }
}

impl ColladaElement for Contributor {
    open spec fn represents(self, node: NodeView) -> bool {
        &&& string_view(self.author) == text_of(node.child_text(0))
        &&& string_view(self.author_email) == text_of(node.child_text(1))
        &&& uri_view(self.author_website) == text_of(node.child_text(2))
        &&& string_view(self.authoring_tool) == text_of(node.child_text(3))
        &&& string_view(self.comments) == text_of(node.child_text(4))
        &&& string_view(self.copyright) == text_of(node.child_text(5))
        &&& uri_view(self.source_data) == text_of(node.child_text(6))
    }

    fn from_node(node: &Node) -> (r: Self) {
        Contributor {
            author: text_from(node.child_text(0)),
            author_email: text_from(node.child_text(1)),
            author_website: uri_from(node.child_text(2)),
            authoring_tool: text_from(node.child_text(3)),
            comments: text_from(node.child_text(4)),
            copyright: text_from(node.child_text(5)),
            source_data: uri_from(node.child_text(6)),
        }
    }
}

/// Provides arbitrary additional information about an element.
#[derive(Debug, PartialEq)]
pub struct Extra {
    /// The identifier of the element, if present. Will be unique within the document.
    pub id: Option<String>,
    /// The text string name of the element, if present.
    pub name: Option<String>,
    /// A hint as to the type of information this element represents, if present.
    pub type_hint: Option<String>,
    /// Asset-management information for this element, if present.
    pub asset: Option<Asset>,
    /// The arbitrary additional information. There will always be at least one item in
    /// `techniques`.
    pub techniques: Vec<Technique>,
}

impl Extra {
    /// What `<extra>` may hold.
    pub open spec fn description() -> ElementConfigurationView {
        ElementConfigurationView {
            name: "extra"@,
            attributes: seq![
                optional_view("id"@, ValueKindView::Text),
                optional_view("name"@, ValueKindView::Text),
                optional_view("type"@, ValueKindView::Text),
            ],
            content: ContentView::Children(
                seq![
                    slot_view("asset"@, ASSET, ChildOccurrences::Optional),
                    slot_view("technique"@, TECHNIQUE, ChildOccurrences::RequiredMany),
                ],
            ),
        }
    }

    /// What `<extra>` may hold.
    pub fn configuration() -> (r: ElementConfiguration)
        ensures
            r@ == Self::description(),
    {
        let attributes = vec![
            optional_attribute("id", ValueKind::Text),
            optional_attribute("name", ValueKind::Text),
            optional_attribute("type", ValueKind::Text),
        ];
        assert(declared_views(attributes@) =~= Self::description().attributes);
        let rules = vec![
            slot("asset", ASSET, ChildOccurrences::Optional),
            slot("technique", TECHNIQUE, ChildOccurrences::RequiredMany),
        ];
        assert(rule_views(rules@) =~= Self::description().children());
        container("extra", attributes, rules)
    }
}

/// Defines geographic location information for an asset.
///
/// A geographic location is given in latitude, longitude, and altitude coordinates as
/// defined by the WGS 84 world geodetic system.
#[derive(Debug, Clone, PartialEq)]
pub struct GeographicLocation {
    /// The longitude of the location.
    pub longitude: Decimal,
    /// The latitude of the location.
    pub latitude: Decimal,
    /// Specifies the altitude, either relative to global sea level or relative to ground
    /// level.
    pub altitude: Altitude,
}

impl GeographicLocation {
    /// What `<geographic_location>` may hold.
    pub open spec fn description() -> ElementConfigurationView {
        ElementConfigurationView {
            name: "geographic_location"@,
            attributes: Seq::empty(),
            content: ContentView::Children(
                seq![
                    slot_view("longitude"@, LONGITUDE, ChildOccurrences::Required),
                    slot_view("latitude"@, LATITUDE, ChildOccurrences::Required),
                    slot_view("altitude"@, ALTITUDE, ChildOccurrences::Required),
                ],
            ),
        }
    }

    /// What `<geographic_location>` may hold.
    pub fn configuration() -> (r: ElementConfiguration)
        ensures
            r@ == Self::description(),
    {
        let attributes: Vec<AttributeConfiguration> = Vec::new();
        assert(declared_views(attributes@) =~= Self::description().attributes);
        let rules = vec![
            slot("longitude", LONGITUDE, ChildOccurrences::Required),
            slot("latitude", LATITUDE, ChildOccurrences::Required),
            slot("altitude", ALTITUDE, ChildOccurrences::Required),
        ];
        assert(rule_views(rules@) =~= Self::description().children());
        container("geographic_location", attributes, rules)
    }
}

impl ColladaElement for GeographicLocation {
    open spec fn represents(self, node: NodeView) -> bool {
        &&& self.longitude.0@ == text_or_empty(node.child_text(0))
        &&& self.latitude.0@ == text_or_empty(node.child_text(1))
        &&& represent_required(self.altitude, node.child(2))
    }

    fn from_node(node: &Node) -> (r: Self) {
        GeographicLocation {
            longitude: Decimal(text_or_empty_from(node.child_text(0))),
            latitude: Decimal(text_or_empty_from(node.child_text(1))),
            altitude: required(node, 2),
        }
    }
}

/// A single library of unknown type.
#[derive(Debug, Clone, PartialEq)]
pub enum Library {
    Animations(LibraryAnimations),
    AnimationClips(LibraryAnimationClips),
    ArticulatedSystmes(LibraryArticulatedSystems),
    Cameras(LibraryCameras),
    Controllers(LibraryControllers),
    Effects(LibraryEffects),
    ForceFields(LibraryForceFields),
    Formulas(LibraryFormulas),
    Geometries(LibraryGeometries),
    Images(LibraryImages),
    Joints(LibraryJoints),
    KinematicsModels(LibraryKinematicsModels),
    KinematicsScenes(LibraryKinematicsScenes),
    Lights(LibraryLights),
    Materials(LibraryMaterials),
    Nodes(LibraryNodes),
    PhysicsMaterials(LibraryPhysicsMaterials),
    PhysicsModels(LibraryPhysicsModels),
    PhysicsScenes(LibraryPhysicsScenes),
    VisualScenes(LibraryVisualScenes),
}

/// The names of the elements that stand for the variants of [`Library`], in
/// order.
pub open spec fn library_names() -> Seq<Seq<char>> {
    seq!["library_animations"@, "library_animation_clips"@, "library_articulated_systems"@, "library_cameras"@, "library_controllers"@, "library_effects"@, "library_force_fields"@, "library_formulas"@, "library_geometries"@, "library_images"@, "library_joints"@, "library_kinematics_models"@, "library_kinematics_scenes"@, "library_lights"@, "library_materials"@, "library_nodes"@, "library_physics_materials"@, "library_physics_models"@, "library_physics_scenes"@, "library_visual_scenes"@]
}

/// The names of the elements that stand for the variants of [`Library`], in
/// order.
pub fn collect_library_names() -> (r: Vec<&'static str>)
    ensures
        views(r@) == library_names(),
{
    let names = vec!["library_animations", "library_animation_clips", "library_articulated_systems", "library_cameras", "library_controllers", "library_effects", "library_force_fields", "library_formulas", "library_geometries", "library_images", "library_joints", "library_kinematics_models", "library_kinematics_scenes", "library_lights", "library_materials", "library_nodes", "library_physics_materials", "library_physics_models", "library_physics_scenes", "library_visual_scenes"];
    assert(views(names@) =~= library_names());
    names
}

impl ColladaElement for Library {
    open spec fn represents(self, node: NodeView) -> bool {
        match self {
            Library::Animations(v) => which(library_names(), node.name) == 0 && v.represents(node),
            Library::AnimationClips(v) => which(library_names(), node.name) == 1 && v.represents(node),
            Library::ArticulatedSystmes(v) => which(library_names(), node.name) == 2 && v.represents(node),
            Library::Cameras(v) => which(library_names(), node.name) == 3 && v.represents(node),
            Library::Controllers(v) => which(library_names(), node.name) == 4 && v.represents(node),
            Library::Effects(v) => which(library_names(), node.name) == 5 && v.represents(node),
            Library::ForceFields(v) => which(library_names(), node.name) == 6 && v.represents(node),
            Library::Formulas(v) => which(library_names(), node.name) == 7 && v.represents(node),
            Library::Geometries(v) => which(library_names(), node.name) == 8 && v.represents(node),
            Library::Images(v) => which(library_names(), node.name) == 9 && v.represents(node),
            Library::Joints(v) => which(library_names(), node.name) == 10 && v.represents(node),
            Library::KinematicsModels(v) => which(library_names(), node.name) == 11 && v.represents(node),
            Library::KinematicsScenes(v) => which(library_names(), node.name) == 12 && v.represents(node),
            Library::Lights(v) => which(library_names(), node.name) == 13 && v.represents(node),
            Library::Materials(v) => which(library_names(), node.name) == 14 && v.represents(node),
            Library::Nodes(v) => which(library_names(), node.name) == 15 && v.represents(node),
            Library::PhysicsMaterials(v) => which(library_names(), node.name) == 16 && v.represents(node),
            Library::PhysicsModels(v) => which(library_names(), node.name) == 17 && v.represents(node),
            Library::PhysicsScenes(v) => which(library_names(), node.name) == 18 && v.represents(node),
            Library::VisualScenes(v) => which(library_names(), node.name) == 19 && v.represents(node),
        }
    }

    fn from_node(node: &Node) -> (r: Self) {
        let names = collect_library_names();
        match pick(names.as_slice(), node.name.as_str()) {
            0 => Library::Animations(LibraryAnimations::from_node(node)),
            1 => Library::AnimationClips(LibraryAnimationClips::from_node(node)),
            2 => Library::ArticulatedSystmes(LibraryArticulatedSystems::from_node(node)),
            3 => Library::Cameras(LibraryCameras::from_node(node)),
            4 => Library::Controllers(LibraryControllers::from_node(node)),
            5 => Library::Effects(LibraryEffects::from_node(node)),
            6 => Library::ForceFields(LibraryForceFields::from_node(node)),
            7 => Library::Formulas(LibraryFormulas::from_node(node)),
            8 => Library::Geometries(LibraryGeometries::from_node(node)),
            9 => Library::Images(LibraryImages::from_node(node)),
            10 => Library::Joints(LibraryJoints::from_node(node)),
            11 => Library::KinematicsModels(LibraryKinematicsModels::from_node(node)),
            12 => Library::KinematicsScenes(LibraryKinematicsScenes::from_node(node)),
            13 => Library::Lights(LibraryLights::from_node(node)),
            14 => Library::Materials(LibraryMaterials::from_node(node)),
            15 => Library::Nodes(LibraryNodes::from_node(node)),
            16 => Library::PhysicsMaterials(LibraryPhysicsMaterials::from_node(node)),
            17 => Library::PhysicsModels(LibraryPhysicsModels::from_node(node)),
            18 => Library::PhysicsScenes(LibraryPhysicsScenes::from_node(node)),
            _ => Library::VisualScenes(LibraryVisualScenes::from_node(node)),
        }
    }
}

/// The element `<library_animations>`. What it holds is passed over.
#[derive(Debug, Clone, PartialEq)]
pub struct LibraryAnimations;

impl ColladaElement for LibraryAnimations {
    open spec fn represents(self, node: NodeView) -> bool {
        true
    }

    fn from_node(node: &Node) -> (r: Self) {
        LibraryAnimations
    }
}

/// The element `<library_animation_clips>`. What it holds is passed over.
#[derive(Debug, Clone, PartialEq)]
pub struct LibraryAnimationClips;

impl ColladaElement for LibraryAnimationClips {
    open spec fn represents(self, node: NodeView) -> bool {
        true
    }

    fn from_node(node: &Node) -> (r: Self) {
        LibraryAnimationClips
    }
}

/// The element `<library_articulated_systems>`. What it holds is passed over.
#[derive(Debug, Clone, PartialEq)]
pub struct LibraryArticulatedSystems;

impl ColladaElement for LibraryArticulatedSystems {
    open spec fn represents(self, node: NodeView) -> bool {
        true
    }

    fn from_node(node: &Node) -> (r: Self) {
        LibraryArticulatedSystems
    }
}

/// The element `<library_cameras>`. What it holds is passed over.
#[derive(Debug, Clone, PartialEq)]
pub struct LibraryCameras;

impl ColladaElement for LibraryCameras {
    open spec fn represents(self, node: NodeView) -> bool {
        true
    }

    fn from_node(node: &Node) -> (r: Self) {
        LibraryCameras
    }
}

/// The element `<library_controllers>`. What it holds is passed over.
#[derive(Debug, Clone, PartialEq)]
pub struct LibraryControllers;

impl ColladaElement for LibraryControllers {
    open spec fn represents(self, node: NodeView) -> bool {
        true
    }

    fn from_node(node: &Node) -> (r: Self) {
        LibraryControllers
    }
}

/// The element `<library_effects>`. What it holds is passed over.
#[derive(Debug, Clone, PartialEq)]
pub struct LibraryEffects;

impl ColladaElement for LibraryEffects {
    open spec fn represents(self, node: NodeView) -> bool {
        true
    }

    fn from_node(node: &Node) -> (r: Self) {
        LibraryEffects
    }
}

/// The element `<library_force_fields>`. What it holds is passed over.
#[derive(Debug, Clone, PartialEq)]
pub struct LibraryForceFields;

impl ColladaElement for LibraryForceFields {
    open spec fn represents(self, node: NodeView) -> bool {
        true
    }

    fn from_node(node: &Node) -> (r: Self) {
        LibraryForceFields
    }
}

/// The element `<library_formulas>`. What it holds is passed over.
#[derive(Debug, Clone, PartialEq)]
pub struct LibraryFormulas;

impl ColladaElement for LibraryFormulas {
    open spec fn represents(self, node: NodeView) -> bool {
        true
    }

    fn from_node(node: &Node) -> (r: Self) {
        LibraryFormulas
    }
}

/// The element `<library_geometries>`. What it holds is passed over.
#[derive(Debug, Clone, PartialEq)]
pub struct LibraryGeometries;

impl ColladaElement for LibraryGeometries {
    open spec fn represents(self, node: NodeView) -> bool {
        true
    }

    fn from_node(node: &Node) -> (r: Self) {
        LibraryGeometries
    }
}

/// The element `<library_images>`. What it holds is passed over.
#[derive(Debug, Clone, PartialEq)]
pub struct LibraryImages;

impl ColladaElement for LibraryImages {
    open spec fn represents(self, node: NodeView) -> bool {
        true
    }

    fn from_node(node: &Node) -> (r: Self) {
        LibraryImages
    }
}

/// The element `<library_joints>`. What it holds is passed over.
#[derive(Debug, Clone, PartialEq)]
pub struct LibraryJoints;

impl ColladaElement for LibraryJoints {
    open spec fn represents(self, node: NodeView) -> bool {
        true
    }

    fn from_node(node: &Node) -> (r: Self) {
        LibraryJoints
    }
}

/// The element `<library_kinematics_models>`. What it holds is passed over.
#[derive(Debug, Clone, PartialEq)]
pub struct LibraryKinematicsModels;

impl ColladaElement for LibraryKinematicsModels {
    open spec fn represents(self, node: NodeView) -> bool {
        true
    }

    fn from_node(node: &Node) -> (r: Self) {
        LibraryKinematicsModels
    }
}

/// The element `<library_kinematics_scenes>`. What it holds is passed over.
#[derive(Debug, Clone, PartialEq)]
pub struct LibraryKinematicsScenes;

impl ColladaElement for LibraryKinematicsScenes {
    open spec fn represents(self, node: NodeView) -> bool {
        true
    }

    fn from_node(node: &Node) -> (r: Self) {
        LibraryKinematicsScenes
    }
}

/// The element `<library_lights>`. What it holds is passed over.
#[derive(Debug, Clone, PartialEq)]
pub struct LibraryLights;

impl ColladaElement for LibraryLights {
    open spec fn represents(self, node: NodeView) -> bool {
        true
    }

    fn from_node(node: &Node) -> (r: Self) {
        LibraryLights
    }
}

/// The element `<library_materials>`. What it holds is passed over.
#[derive(Debug, Clone, PartialEq)]
pub struct LibraryMaterials;

impl ColladaElement for LibraryMaterials {
    open spec fn represents(self, node: NodeView) -> bool {
        true
    }

    fn from_node(node: &Node) -> (r: Self) {
        LibraryMaterials
    }
}

/// The element `<library_nodes>`. What it holds is passed over.
#[derive(Debug, Clone, PartialEq)]
pub struct LibraryNodes;

impl ColladaElement for LibraryNodes {
    open spec fn represents(self, node: NodeView) -> bool {
        true
    }

    fn from_node(node: &Node) -> (r: Self) {
        LibraryNodes
    }
}

/// The element `<library_physics_materials>`. What it holds is passed over.
#[derive(Debug, Clone, PartialEq)]
pub struct LibraryPhysicsMaterials;

impl ColladaElement for LibraryPhysicsMaterials {
    open spec fn represents(self, node: NodeView) -> bool {
        true
    }

    fn from_node(node: &Node) -> (r: Self) {
        LibraryPhysicsMaterials
    }
}

/// The element `<library_physics_models>`. What it holds is passed over.
#[derive(Debug, Clone, PartialEq)]
pub struct LibraryPhysicsModels;

impl ColladaElement for LibraryPhysicsModels {
    open spec fn represents(self, node: NodeView) -> bool {
        true
    }

    fn from_node(node: &Node) -> (r: Self) {
        LibraryPhysicsModels
    }
}

/// The element `<library_physics_scenes>`. What it holds is passed over.
#[derive(Debug, Clone, PartialEq)]
pub struct LibraryPhysicsScenes;

impl ColladaElement for LibraryPhysicsScenes {
    open spec fn represents(self, node: NodeView) -> bool {
        true
    }

    fn from_node(node: &Node) -> (r: Self) {
        LibraryPhysicsScenes
    }
}

/// The element `<library_visual_scenes>`. What it holds is passed over.
#[derive(Debug, Clone, PartialEq)]
pub struct LibraryVisualScenes;

impl ColladaElement for LibraryVisualScenes {
    open spec fn represents(self, node: NodeView) -> bool {
        true
    }

    fn from_node(node: &Node) -> (r: Self) {
        LibraryVisualScenes
    }
}

/// The element `<scene>`. What it holds is passed over.
#[derive(Debug, Clone, PartialEq)]
pub struct Scene;

impl ColladaElement for Scene {
    open spec fn represents(self, node: NodeView) -> bool {
        true
    }

    fn from_node(node: &Node) -> (r: Self) {
        Scene
    }
}

/// The descriptions of the elements of version 1.5, each at its place.
pub open spec fn schema_view() -> SchemaView {
    SchemaView {
        elements: seq![
            Collada::description(),
            Asset::description(),
            Contributor::description(),
            leaf_view("author"@, ValueKindView::Text, TextOccurrences::Optional),
            leaf_view("author_email"@, ValueKindView::Text, TextOccurrences::Optional),
            leaf_view("author_website"@, ValueKindView::Text, TextOccurrences::Optional),
            leaf_view("authoring_tool"@, ValueKindView::Text, TextOccurrences::Optional),
            leaf_view("comments"@, ValueKindView::Text, TextOccurrences::Optional),
            leaf_view("copyright"@, ValueKindView::Text, TextOccurrences::Optional),
            leaf_view("source_data"@, ValueKindView::Text, TextOccurrences::Optional),
            Coverage::description(),
            GeographicLocation::description(),
            leaf_view("longitude"@, ValueKindView::Decimal, TextOccurrences::Required),
            leaf_view("latitude"@, ValueKindView::Decimal, TextOccurrences::Required),
            Altitude::description(),
            leaf_view("created"@, ValueKindView::Time, TextOccurrences::Required),
            leaf_view("keywords"@, ValueKindView::Text, TextOccurrences::Optional),
            leaf_view("modified"@, ValueKindView::Time, TextOccurrences::Required),
            leaf_view("revision"@, ValueKindView::Text, TextOccurrences::Optional),
            leaf_view("subject"@, ValueKindView::Text, TextOccurrences::Optional),
            leaf_view("title"@, ValueKindView::Text, TextOccurrences::Optional),
            Unit::description(),
            UpAxis::description(),
            Extra::description(),
            Technique::description(),
            ignored_view("library_animations"@),
            ignored_view("library_animation_clips"@),
            ignored_view("library_articulated_systems"@),
            ignored_view("library_cameras"@),
            ignored_view("library_controllers"@),
            ignored_view("library_effects"@),
            ignored_view("library_force_fields"@),
            ignored_view("library_formulas"@),
            ignored_view("library_geometries"@),
            ignored_view("library_images"@),
            ignored_view("library_joints"@),
            ignored_view("library_kinematics_models"@),
            ignored_view("library_kinematics_scenes"@),
            ignored_view("library_lights"@),
            ignored_view("library_materials"@),
            ignored_view("library_nodes"@),
            ignored_view("library_physics_materials"@),
            ignored_view("library_physics_models"@),
            ignored_view("library_physics_scenes"@),
            ignored_view("library_visual_scenes"@),
            ignored_view("scene"@),
        ],
    }
}

/// The descriptions of the elements of version 1.5, each at its place.
pub fn schema() -> (r: Schema)
    ensures
        r@ == schema_view(),
{
    let mut elements: Vec<ElementConfiguration> = Vec::new();
    let ghost all = schema_view().elements;
    elements.push(Collada::configuration());
    elements.push(Asset::configuration());
    elements.push(Contributor::configuration());
    elements.push(leaf("author", ValueKind::Text, TextOccurrences::Optional));
    elements.push(leaf("author_email", ValueKind::Text, TextOccurrences::Optional));
    elements.push(leaf("author_website", ValueKind::Text, TextOccurrences::Optional));
    elements.push(leaf("authoring_tool", ValueKind::Text, TextOccurrences::Optional));
    elements.push(leaf("comments", ValueKind::Text, TextOccurrences::Optional));
    assert(elements@.len() == 8 && forall|i: int| 0 <= i < 8 ==> (#[trigger] elements@[i])@ == all[i]);
    elements.push(leaf("copyright", ValueKind::Text, TextOccurrences::Optional));
    elements.push(leaf("source_data", ValueKind::Text, TextOccurrences::Optional));
    elements.push(Coverage::configuration());
    elements.push(GeographicLocation::configuration());
    elements.push(leaf("longitude", ValueKind::Decimal, TextOccurrences::Required));
    elements.push(leaf("latitude", ValueKind::Decimal, TextOccurrences::Required));
    elements.push(Altitude::configuration());
    elements.push(leaf("created", ValueKind::Time, TextOccurrences::Required));
    assert(elements@.len() == 16 && forall|i: int| 0 <= i < 16 ==> (#[trigger] elements@[i])@ == all[i]);
    elements.push(leaf("keywords", ValueKind::Text, TextOccurrences::Optional));
    elements.push(leaf("modified", ValueKind::Time, TextOccurrences::Required));
    elements.push(leaf("revision", ValueKind::Text, TextOccurrences::Optional));
    elements.push(leaf("subject", ValueKind::Text, TextOccurrences::Optional));
    elements.push(leaf("title", ValueKind::Text, TextOccurrences::Optional));
    elements.push(Unit::configuration());
    elements.push(UpAxis::configuration());
    elements.push(Extra::configuration());
    assert(elements@.len() == 24 && forall|i: int| 0 <= i < 24 ==> (#[trigger] elements@[i])@ == all[i]);
    elements.push(Technique::configuration());
    elements.push(ignored("library_animations"));
    elements.push(ignored("library_animation_clips"));
    elements.push(ignored("library_articulated_systems"));
    elements.push(ignored("library_cameras"));
    elements.push(ignored("library_controllers"));
    elements.push(ignored("library_effects"));
    elements.push(ignored("library_force_fields"));
    assert(elements@.len() == 32 && forall|i: int| 0 <= i < 32 ==> (#[trigger] elements@[i])@ == all[i]);
    elements.push(ignored("library_formulas"));
    elements.push(ignored("library_geometries"));
    elements.push(ignored("library_images"));
    elements.push(ignored("library_joints"));
    elements.push(ignored("library_kinematics_models"));
    elements.push(ignored("library_kinematics_scenes"));
    elements.push(ignored("library_lights"));
    elements.push(ignored("library_materials"));
    assert(elements@.len() == 40 && forall|i: int| 0 <= i < 40 ==> (#[trigger] elements@[i])@ == all[i]);
    elements.push(ignored("library_nodes"));
    elements.push(ignored("library_physics_materials"));
    elements.push(ignored("library_physics_models"));
    elements.push(ignored("library_physics_scenes"));
    elements.push(ignored("library_visual_scenes"));
    elements.push(ignored("scene"));
    assert(elements@.len() == 46 && forall|i: int| 0 <= i < 46 ==> (#[trigger] elements@[i])@ == all[i]);
    let r = Schema { elements };
    assert(r@.elements =~= all);
    r
}

/// Whether `asset` holds what `node` holds.
pub open spec fn asset_represents(asset: Asset, node: NodeView) -> bool
    decreases asset,
{
    &&& represent_all(asset.contributors@, node.children_of(0))
    &&& represent_optional(asset.coverage, node.child(1))
    &&& asset.created == time_or_epoch(node.child_text(2))
    &&& string_view(asset.keywords) == text_of(node.child_text(3))
    &&& asset.modified == time_or_epoch(node.child_text(4))
    &&& string_view(asset.revision) == text_of(node.child_text(5))
    &&& string_view(asset.subject) == text_of(node.child_text(6))
    &&& string_view(asset.title) == text_of(node.child_text(7))
    &&& represent_defaulted(asset.unit, node.child(8))
    &&& represent_defaulted(asset.up_axis, node.child(9))
    &&& asset.extras@.len() == node.children_of(10).len()
    &&& forall|i: int|
        0 <= i < asset.extras@.len() ==> extra_represents(
            #[trigger] asset.extras[i],
            node.children_of(10)[i],
        )
}

/// Whether `extra` holds what `node` holds.
pub open spec fn extra_represents(extra: Extra, node: NodeView) -> bool
    decreases extra,
{
    &&& string_view(extra.id) == text_of(node.attribute(0))
    &&& string_view(extra.name) == text_of(node.attribute(1))
    &&& string_view(extra.type_hint) == text_of(node.attribute(2))
    &&& match node.child(0) {
        Some(c) => extra.asset is Some && asset_represents(extra.asset->0, c),
        None => extra.asset is None,
    }
    &&& represent_all(extra.techniques@, node.children_of(1))
}

/// The asset for `node`.
pub fn asset_from_node(node: &Node) -> (r: Asset)
    ensures
        asset_represents(r, node@),
    decreases node,
{
    let places = node.children_places(10);
    let mut extras: Vec<Extra> = Vec::new();
    let mut i: usize = 0;
    while i < places.len()
        invariant
            i <= places@.len(),
            places@.len() == node@.children_of(10).len(),
            forall|j: int|
                0 <= j < places@.len() ==> (#[trigger] places@[j]) < node.children@.len()
                    && node.children@[places@[j] as int]@ == node@.children_of(10)[j],
            extras@.len() == i,
            forall|j: int|
                0 <= j < i ==> extra_represents(#[trigger] extras@[j], node@.children_of(10)[j]),
        decreases places@.len() - i,
    {
        let place = places[i];
        extras.push(extra_from_node(&node.children[place]));
        i += 1;
    }
    Asset {
        contributors: many(node, 0),
        coverage: optional(node, 1),
        created: time_or_epoch_from(node.child_text(2)),
        keywords: text_from(node.child_text(3)),
        modified: time_or_epoch_from(node.child_text(4)),
        revision: text_from(node.child_text(5)),
        subject: text_from(node.child_text(6)),
        title: text_from(node.child_text(7)),
        unit: defaulted(node, 8),
        up_axis: defaulted(node, 9),
        extras,
    }
}

/// The extra for `node`.
pub fn extra_from_node(node: &Node) -> (r: Extra)
    ensures
        extra_represents(r, node@),
    decreases node,
{
    let asset = match node.child_place(0) {
        Some(place) => Some(asset_from_node(&node.children[place])),
        None => None,
    };
    Extra {
        id: text_from(node.attribute(0)),
        name: text_from(node.attribute(1)),
        type_hint: text_from(node.attribute(2)),
        asset,
        techniques: many(node, 1),
    }
}

impl ColladaElement for Asset {
    open spec fn represents(self, node: NodeView) -> bool {
        asset_represents(self, node)
    }

    fn from_node(node: &Node) -> (r: Self) {
        asset_from_node(node)
    }
}

impl ColladaElement for Extra {
    open spec fn represents(self, node: NodeView) -> bool {
        extra_represents(self, node)
    }

    fn from_node(node: &Node) -> (r: Self) {
        extra_from_node(node)
    }
}

/// Specifies the altitude of a [`GeographicLocation`].
#[derive(Debug, Clone, PartialEq)]
pub enum Altitude {
    /// The altitude is relative to global sea level.
    Absolute(Decimal),
    /// The altitude is relative to ground level at the specified latitude and
    /// longitude.
    RelativeToGround(Decimal),
}

impl Altitude {
    /// The words that the attribute `mode` may hold, in the order of the
    /// variants.
    pub open spec fn modes() -> Seq<Seq<char>> {
        seq!["absolute"@, "relativeToGround"@]
    }

    /// What `<altitude>` may hold: the attribute `mode`, which is one of two
    /// words, and a decimal number.
    pub open spec fn description() -> ElementConfigurationView {
        ElementConfigurationView {
            name: "altitude"@,
            attributes: seq![required_view("mode"@, ValueKindView::Enumerated(Self::modes()))],
            content: ContentView::Text {
                kind: ValueKindView::Decimal,
                occurrences: TextOccurrences::Required,
            },
        }
    }

    /// What `<altitude>` may hold.
    pub fn configuration() -> (r: ElementConfiguration)
        ensures
            r@ == Self::description(),
    {
        let modes = vec!["absolute", "relativeToGround"];
        assert(views(modes@) =~= Self::modes());
        let attributes = vec![required_attribute("mode", ValueKind::Enumerated(modes))];
        assert(declared_views(attributes@) =~= Self::description().attributes);
        ElementConfiguration {
            name: "altitude",
            attributes,
            content: Content::Text {
                kind: ValueKind::Decimal,
                occurrences: TextOccurrences::Required,
            },
        }
    }
}

impl ColladaElement for Altitude {
    open spec fn represents(self, node: NodeView) -> bool {
        match self {
            Altitude::Absolute(value) => choice_of(node.attribute(0)) != Some(1int) && value.0@
                == text_or_empty(node.text),
            Altitude::RelativeToGround(value) => choice_of(node.attribute(0)) == Some(1int)
                && value.0@ == text_or_empty(node.text),
        }
    }

    fn from_node(node: &Node) -> (r: Self) {
        let value = Decimal(text_or_empty_from(node.text_value()));
        match choice_from(node.attribute(0)) {
            Some(1) => Altitude::RelativeToGround(value),
            _ => Altitude::Absolute(value),
        }
    }
}

impl Collada {
    /// The versions of the format that a document may ask for.
    pub open spec fn versions() -> Seq<Seq<char>> {
        seq!["1.5.0"@]
    }

    /// The node of the root element of the document `tokens`, or the first
    /// error in it.
    pub open spec fn document(tokens: Seq<Token>) -> core::result::Result<NodeView, ErrorView> {
        document_spec(schema_view(), COLLADA as int, Self::versions(), tokens)
    }

    /// Reads a COLLADA document from its tokens.
    pub fn parse(tokens: &[Token]) -> (r: Result<Collada>)
        ensures
            match Self::document(tokens@) {
                Ok(node) => r is Ok && r->Ok_0.represents(node),
                Err(e) => r is Err && r->Err_0@ == e,
            },
    {
        let versions = vec!["1.5.0"];
        assert(views(versions@) =~= Self::versions());
        let schema = schema();
        match parse_document(&schema, COLLADA, versions.as_slice(), tokens) {
            Ok(node) => Ok(Collada::from_node(&node)),
            Err(e) => Err(e),
        }
    }

    /// Reads a COLLADA document from a string.
    pub fn from_str(source: &str) -> (r: Result<Collada>)
        ensures
            match deep_doctype(source.spec_bytes()) {
                Some(at) => r is Err && r->Err_0@ == refusal_error(source.spec_bytes(), at),
                None => match Self::document(document_tokens(source.spec_bytes())) {
                    Ok(node) => r is Ok && r->Ok_0.represents(node),
                    Err(e) => r is Err && r->Err_0@ == e,
                },
            },
    {
        let tokens = tokenize(source.as_bytes());
        proof {
            if deep_doctype(source.spec_bytes()) is Some {
                lemma_malformed_document(schema_view(), COLLADA as int, Self::versions(), tokens@);
            }
        }
        Self::parse(tokens.as_slice())
    }
}

} // verus!
