use vstd::prelude::*;
use vstd::string::StringExecFns;

use crate::geometry::{home_viewport, Viewport, WorldPoint, F32_ONE};
use crate::ids::{new_random_id, DimensionId};
use crate::object::{is_fresh_object, is_random_id, kind_default_size, ObjectKind, SmartObject};

verus! {

/// An independent zoomable workspace with its own camera and objects.
#[derive(Debug, Clone)]
pub struct Dimension {
    pub id: DimensionId,
    pub name: String,
    pub viewport: Viewport,
    pub objects: Vec<SmartObject>,
}

/// `d` is a new, empty dimension called `name`, with the home camera.
pub open spec fn is_new_dimension(d: Dimension, id: DimensionId, name: Seq<char>) -> bool {
    &&& d.id == id
    &&& d.name@ == name
    &&& d.viewport == home_viewport()
    &&& d.objects@.len() == 0
}

/// The objects every demo dimension starts with, in canvas order: kind, title, body and
/// position (bit patterns of the `f32` coordinates).
pub open spec fn demo_object(i: int) -> (ObjectKind, Seq<char>, Seq<char>, WorldPoint) {
    if i == 0 {
        (
            ObjectKind::Note,
            "Welcome to OS/3 Hyperspace"@,
            "Scroll to zoom • Middle/Space-drag to pan • Drag corners to resize\nDouble-click empty to spawn Note • Click Link to jump dimensions\nPremium glass cards with window chrome on selected objects."@,
            WorldPoint { x: 0x42a0_0000, y: 0x42c8_0000 },
        )
    } else if i == 1 {
        (
            ObjectKind::Agent,
            "Local Agent"@,
            "AI runtime hooks. Local-first, always yours.\nClick to invoke stub agent.\nGlows to show it's alive."@,
            WorldPoint { x: 0x43be_0000, y: 0x430c_0000 },
        )
    } else if i == 2 {
        (
            ObjectKind::App,
            "Terminal"@,
            "main@HYPERION-7X ~ %\nOS/3 Hyperspace 0.3.0 (Nebula)\n> help\n  zoom, pan, spawn, link, ai\n> _"@,
            WorldPoint { x: 0x4434_0000, y: 0x4334_0000 },
        )
    } else if i == 3 {
        (
            ObjectKind::Folder,
            "Projects"@,
            "alpha-build/\ndesign-system/\nmodules/\n  kernel.os3\n  hyperspace.dll\n  README.md\n(Zoom in for details • Future: real contents)"@,
            WorldPoint { x: 0x435c_0000, y: 0x43be_0000 },
        )
    } else if i == 4 {
        (
            ObjectKind::Link,
            "Link to Work"@,
            "Portal to another dimension.\nSet target in Inspector • Click to navigate.\nRenders as glowing wormhole."@,
            WorldPoint { x: 0x4411_0000, y: 0x43aa_0000 },
        )
    } else {
        (
            ObjectKind::App,
            "System / About"@,
            "OS/3 HYPERSPACE\nNebula 0.3.0\nHyperion Quantum 8-Core\nLocal-first • Infinite canvas\nBuilt for the AI era."@,
            WorldPoint { x: 0x4466_0000, y: 0x43d2_0000 },
        )
    }
}

/// Number of objects in a demo dimension.
pub const DEMO_OBJECT_COUNT: usize = 6;

/// Position of the Link object ("Link to Work") among the demo objects.
pub const DEMO_LINK_INDEX: usize = 4;

/// `o` is the `i`-th demo object (with some random identifier); the Link object leads to
/// `link`, every other demo object leads nowhere.
pub open spec fn is_demo_object(o: SmartObject, i: int, link: Option<DimensionId>) -> bool {
    let (kind, title, body, position) = demo_object(i);
    &&& is_random_id(o.id)
    &&& o.kind == kind
    &&& o.title@ == title
    &&& o.body@ == body
    &&& o.position == position
    &&& o.size == kind_default_size(kind)
    &&& o.link_target == (if i == DEMO_LINK_INDEX {
        link
    } else {
        None
    })
}

/// `d` is a demo dimension called `name`, panned by `offset` (bit patterns of `f32`s),
/// whose Link object leads to `link`.
pub open spec fn is_demo_dimension(
    d: Dimension,
    name: Seq<char>,
    offset: (u32, u32),
    link: Option<DimensionId>,
) -> bool {
    &&& is_random_id(d.id)
    &&& d.name@ == name
    &&& d.viewport == (Viewport { pan_x: offset.0, pan_y: offset.1, zoom: F32_ONE })
    &&& d.objects@.len() == DEMO_OBJECT_COUNT
    &&& forall|i: int|
        0 <= i < DEMO_OBJECT_COUNT ==> #[trigger] is_demo_object(d.objects@[i], i, link)
}

/// A demo object: `base` with its body replaced.
fn demo_entry(base: SmartObject, body: &str) -> (o: SmartObject)
    ensures
        o == (SmartObject { body: o.body, ..base }),
        o.body@ == body@,
{
    base.with_body(String::from_str(body))
}

impl Dimension {
    /// A new, empty dimension with the given identifier.
    pub fn with_id(id: DimensionId, name: String) -> (d: Self)
        ensures
            is_new_dimension(d, id, name@),
    {
        Dimension { id, name, viewport: Viewport::default(), objects: Vec::new() }
    }

    /// A new, empty dimension with a random identifier.
    pub fn new(name: String) -> (d: Self)
        ensures
            is_random_id(d.id),
            is_new_dimension(d, d.id, name@),
    {
        Self::with_id(new_random_id(), name)
    }

    /// A dimension filled with the demo objects and panned by `origin_offset`; its Link
    /// object has no target yet.
    pub fn demo(name: String, origin_offset: (u32, u32)) -> (d: Self)
        ensures
            is_demo_dimension(d, name@, origin_offset, None),
    {
        let mut dimension = Self::new(name);
        dimension.viewport.pan_x = origin_offset.0;
        dimension.viewport.pan_y = origin_offset.1;
        let o0 = demo_entry(
            SmartObject::note(
                String::from_str("Welcome to OS/3 Hyperspace"),
                WorldPoint { x: 0x42a0_0000, y: 0x42c8_0000 },
            ),
            "Scroll to zoom • Middle/Space-drag to pan • Drag corners to resize\nDouble-click empty to spawn Note • Click Link to jump dimensions\nPremium glass cards with window chrome on selected objects.",
        );
        let o1 = demo_entry(
            SmartObject::agent(
                String::from_str("Local Agent"),
                WorldPoint { x: 0x43be_0000, y: 0x430c_0000 },
            ),
            "AI runtime hooks. Local-first, always yours.\nClick to invoke stub agent.\nGlows to show it's alive.",
        );
        let o2 = demo_entry(
            SmartObject::app(
                String::from_str("Terminal"),
                WorldPoint { x: 0x4434_0000, y: 0x4334_0000 },
            ),
            "main@HYPERION-7X ~ %\nOS/3 Hyperspace 0.3.0 (Nebula)\n> help\n  zoom, pan, spawn, link, ai\n> _",
        );
        let o3 = demo_entry(
            SmartObject::folder(
                String::from_str("Projects"),
                WorldPoint { x: 0x435c_0000, y: 0x43be_0000 },
            ),
            "alpha-build/\ndesign-system/\nmodules/\n  kernel.os3\n  hyperspace.dll\n  README.md\n(Zoom in for details • Future: real contents)",
        );
        let o4 = demo_entry(
            SmartObject::new(
                ObjectKind::Link,
                String::from_str("Link to Work"),
                WorldPoint { x: 0x4411_0000, y: 0x43aa_0000 },
            ),
            "Portal to another dimension.\nSet target in Inspector • Click to navigate.\nRenders as glowing wormhole.",
        );
        let o5 = demo_entry(
            SmartObject::app(
                String::from_str("System / About"),
                WorldPoint { x: 0x4466_0000, y: 0x43d2_0000 },
            ),
            "OS/3 HYPERSPACE\nNebula 0.3.0\nHyperion Quantum 8-Core\nLocal-first • Infinite canvas\nBuilt for the AI era.",
        );
        dimension.objects = vec![o0, o1, o2, o3, o4, o5];
        assert(is_demo_object(dimension.objects@[0], 0, None));
        assert(is_demo_object(dimension.objects@[1], 1, None));
        assert(is_demo_object(dimension.objects@[2], 2, None));
        assert(is_demo_object(dimension.objects@[3], 3, None));
        assert(is_demo_object(dimension.objects@[4], 4, None));
        assert(is_demo_object(dimension.objects@[5], 5, None));
        dimension
    }
}

} // verus!
