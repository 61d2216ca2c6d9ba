use vstd::prelude::*;

use crate::geometry::{WorldPoint, WorldSize};
use crate::ids::{new_random_id, SmartObjectId, UUID_V4_PATTERN, UUID_VERSION_VARIANT_MASK};

verus! {

/// The kinds of Smart Object that can live on a dimension's canvas.
#[derive(Debug, Clone, Copy, PartialEq, Eq, Structural)]
pub enum ObjectKind {
    Note,
    App,
    Folder,
    Agent,
    Link,
}

/// Display label of each kind.
pub open spec fn kind_label(kind: ObjectKind) -> Seq<char> {
    match kind {
        ObjectKind::Note => "Note"@,
        ObjectKind::App => "App"@,
        ObjectKind::Folder => "Folder"@,
        ObjectKind::Agent => "Agent"@,
        ObjectKind::Link => "Link"@,
    }
}

/// Accent colour (red, green, blue) of each kind.
pub open spec fn kind_accent(kind: ObjectKind) -> Seq<u8> {
    match kind {
        ObjectKind::Note => seq![255u8, 196u8, 86u8],
        ObjectKind::App => seq![96u8, 165u8, 250u8],
        ObjectKind::Folder => seq![74u8, 222u8, 128u8],
        ObjectKind::Agent => seq![192u8, 132u8, 252u8],
        ObjectKind::Link => seq![248u8, 113u8, 113u8],
    }
}

/// Icon symbol of each kind.
pub open spec fn kind_symbol(kind: ObjectKind) -> Seq<char> {
    match kind {
        ObjectKind::Note => "📝"@,
        ObjectKind::App => "🚀"@,
        ObjectKind::Folder => "📁"@,
        ObjectKind::Agent => "🧠"@,
        ObjectKind::Link => "🌀"@,
    }
}

/// Size a new object of each kind gets, as bit patterns of its `f32` width and height:
/// Note 280×180, App 240×160, Folder 220×140, Agent 260×190, Link 200×120.
pub open spec fn kind_default_size(kind: ObjectKind) -> WorldSize {
    match kind {
        ObjectKind::Note => WorldSize { width: 0x438c_0000, height: 0x4334_0000 },
        ObjectKind::App => WorldSize { width: 0x4370_0000, height: 0x4320_0000 },
        ObjectKind::Folder => WorldSize { width: 0x435c_0000, height: 0x430c_0000 },
        ObjectKind::Agent => WorldSize { width: 0x4382_0000, height: 0x433e_0000 },
        ObjectKind::Link => WorldSize { width: 0x4348_0000, height: 0x42f0_0000 },
    }
}

impl ObjectKind {
    /// Human readable name of the kind.
    pub fn label(self) -> (label: &'static str)
        ensures
            label@ == kind_label(self),
    {
        match self {
            ObjectKind::Note => "Note",
            ObjectKind::App => "App",
            ObjectKind::Folder => "Folder",
            ObjectKind::Agent => "Agent",
            ObjectKind::Link => "Link",
        }
    }

    /// Accent colour of the kind as red, green, blue.
    pub fn accent(self) -> (rgb: [u8; 3])
        ensures
            rgb@ == kind_accent(self),
    {
        match self {
            ObjectKind::Note => [255, 196, 86],
            ObjectKind::App => [96, 165, 250],
            ObjectKind::Folder => [74, 222, 128],
            ObjectKind::Agent => [192, 132, 252],
            ObjectKind::Link => [248, 113, 113],
        }
    }

    /// A unicode symbol for per-kind iconography in the shell.
    pub fn symbol(self) -> (symbol: &'static str)
        ensures
            symbol@ == kind_symbol(self),
    {
        match self {
            ObjectKind::Note => "📝",
            ObjectKind::App => "🚀",
            ObjectKind::Folder => "📁",
            ObjectKind::Agent => "🧠",
            ObjectKind::Link => "🌀",
        }
    }
}

/// The size a new object of `kind` gets.
pub fn default_size(kind: ObjectKind) -> (size: WorldSize)
    ensures
        size == kind_default_size(kind),
{
    match kind {
        ObjectKind::Note => WorldSize { width: 0x438c_0000, height: 0x4334_0000 },
        ObjectKind::App => WorldSize { width: 0x4370_0000, height: 0x4320_0000 },
        ObjectKind::Folder => WorldSize { width: 0x435c_0000, height: 0x430c_0000 },
        ObjectKind::Agent => WorldSize { width: 0x4382_0000, height: 0x433e_0000 },
        ObjectKind::Link => WorldSize { width: 0x4348_0000, height: 0x42f0_0000 },
    }
}

/// A typed entity on a dimension's canvas.
#[derive(Debug, Clone)]
pub struct SmartObject {
    pub id: SmartObjectId,
    pub kind: ObjectKind,
    pub title: String,
    pub body: String,
    pub position: WorldPoint,
    pub size: WorldSize,
    /// For Link kind: the dimension the link leads to.
    pub link_target: Option<SmartObjectId>,
}

/// `o` is a freshly made object of `kind` titled `title` at `position`: empty body,
/// the kind's default size, no link target.
pub open spec fn is_fresh_object(
    o: SmartObject,
    kind: ObjectKind,
    title: Seq<char>,
    position: WorldPoint,
) -> bool {
    &&& o.kind == kind
    &&& o.title@ == title
    &&& o.body@ == Seq::<char>::empty()
    &&& o.position == position
    &&& o.size == kind_default_size(kind)
    &&& o.link_target is None
}

/// `id` has the version and variant bits of a random UUID.
pub open spec fn is_random_id(id: u128) -> bool {
    id & UUID_VERSION_VARIANT_MASK == UUID_V4_PATTERN
}

impl SmartObject {
    /// A fresh object of `kind` with the given identifier.
    pub fn with_id(id: SmartObjectId, kind: ObjectKind, title: String, position: WorldPoint) -> (o: Self)
        ensures
            o.id == id,
            is_fresh_object(o, kind, title@, position),
    {
        SmartObject {
            id,
            kind,
            title,
            body: String::new(),
            position,
            size: default_size(kind),
            link_target: None,
        }
    }

    /// A fresh object of `kind` with a new random identifier.
    pub fn new(kind: ObjectKind, title: String, position: WorldPoint) -> (o: Self)
        ensures
            is_random_id(o.id),
            is_fresh_object(o, kind, title@, position),
    {
        Self::with_id(new_random_id(), kind, title, position)
    }

    /// A fresh Note.
    pub fn note(title: String, position: WorldPoint) -> (o: Self)
        ensures
            is_random_id(o.id),
            is_fresh_object(o, ObjectKind::Note, title@, position),
    {
        Self::new(ObjectKind::Note, title, position)
    }

    /// A fresh App.
    pub fn app(title: String, position: WorldPoint) -> (o: Self)
        ensures
            is_random_id(o.id),
            is_fresh_object(o, ObjectKind::App, title@, position),
    {
        Self::new(ObjectKind::App, title, position)
    }

    /// A fresh Folder.
    pub fn folder(title: String, position: WorldPoint) -> (o: Self)
        ensures
            is_random_id(o.id),
            is_fresh_object(o, ObjectKind::Folder, title@, position),
    {
        Self::new(ObjectKind::Folder, title, position)
    }

    /// A fresh Agent.
    pub fn agent(title: String, position: WorldPoint) -> (o: Self)
        ensures
            is_random_id(o.id),
            is_fresh_object(o, ObjectKind::Agent, title@, position),
    {
        Self::new(ObjectKind::Agent, title, position)
    }

    /// The same object with its body replaced.
    pub fn with_body(self, body: String) -> (o: Self)
        ensures
            o == (SmartObject { body, ..self }),
    {
        let mut o = self;
        o.body = body;
        o
    }

    /// A field-by-field copy.
    pub fn duplicate(&self) -> (o: Self)
        ensures
            o == *self,
    {
        SmartObject {
            id: self.id,
            kind: self.kind,
            title: self.title.clone(),
            body: self.body.clone(),
            position: self.position,
            size: self.size,
            link_target: self.link_target,
        }
    }
}

} // verus!
