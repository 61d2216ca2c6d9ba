use vstd::prelude::*;
use vstd::string::StringExecFns;

use crate::canvas::{handle_events, handles_events, opt_text, CanvasEvent, CanvasOutcome};
use crate::agent::{stub_reply, AgentMessage, AgentRole, AgentRuntime, LocalAgentRuntime};
use crate::dimension::{is_new_dimension, Dimension};
use crate::error::{error_message, HyperspaceError};
use crate::geometry::WorldPoint;
use crate::ids::{DimensionId, SmartObjectId};
use crate::object::{is_fresh_object, is_random_id, kind_label, ObjectKind, SmartObject};
use crate::state::{
    dimension_ids, first_position, has_objects, lemma_first_position, is_object_removal, lookup_dimension,
    replaces_dimension, HyperspaceState,
};
use crate::store::{synced_all, synced_bucket, InMemoryObjectStore, ObjectRecord, ObjectStore};
use crate::text::{decimal, decimal_text, trim, trimmed};

verus! {

/// What the store holds: per dimension, its records keyed by object identifier.
pub type StoreContents = Map<DimensionId, Map<SmartObjectId, ObjectRecord>>;

/// The store's contents after the active dimension of `state` is synced into `contents`.
pub open spec fn synced_active(contents: StoreContents, state: HyperspaceState) -> StoreContents {
    match lookup_dimension(state.dimensions@, state.active_dimension) {
        Some(d) => contents.insert(d.id, synced_bucket(d.id, d.objects@)),
        None => contents,
    }
}

/// Title of an object spawned from the shell.
pub open spec fn spawn_title(kind: ObjectKind) -> Seq<char> {
    match kind {
        ObjectKind::Note => "New Note"@,
        ObjectKind::App => "New App"@,
        ObjectKind::Folder => "New Folder"@,
        ObjectKind::Agent => "New Agent"@,
        ObjectKind::Link => "New Link"@,
    }
}

/// An object spawned from the shell is titled "New " followed by its kind's label.
pub proof fn lemma_spawn_title_names_the_kind(kind: ObjectKind)
    ensures
        spawn_title(kind) == "New "@ + kind_label(kind),
{
    reveal_strlit("New ");
    match kind {
        ObjectKind::Note => {
            reveal_strlit("New Note");
            reveal_strlit("Note");
            assert(spawn_title(kind) =~= "New "@ + kind_label(kind));
        },
        ObjectKind::App => {
            reveal_strlit("New App");
            reveal_strlit("App");
            assert(spawn_title(kind) =~= "New "@ + kind_label(kind));
        },
        ObjectKind::Folder => {
            reveal_strlit("New Folder");
            reveal_strlit("Folder");
            assert(spawn_title(kind) =~= "New "@ + kind_label(kind));
        },
        ObjectKind::Agent => {
            reveal_strlit("New Agent");
            reveal_strlit("Agent");
            assert(spawn_title(kind) =~= "New "@ + kind_label(kind));
        },
        ObjectKind::Link => {
            reveal_strlit("New Link");
            reveal_strlit("Link");
            assert(spawn_title(kind) =~= "New "@ + kind_label(kind));
        },
    }
}

/// Body of an object spawned from the shell.
pub open spec fn spawn_body() -> Seq<char> {
    "Smart Object placeholder"@
}

/// Name of a dimension created from the shell: the typed name without surrounding white
/// space, or `Dimension <count + 1>` when that is empty.
pub open spec fn new_dimension_title(typed: Seq<char>, count: nat) -> Seq<char> {
    if trimmed(typed).len() == 0 {
        "Dimension "@ + decimal(count + 1)
    } else {
        trimmed(typed)
    }
}

/// Title of an object spawned from the shell.
pub fn spawn_title_text(kind: ObjectKind) -> (t: &'static str)
    ensures
        t@ == spawn_title(kind),
        t@ == "New "@ + kind_label(kind),
{
    proof {
        lemma_spawn_title_names_the_kind(kind);
    }
    match kind {
        ObjectKind::Note => "New Note",
        ObjectKind::App => "New App",
        ObjectKind::Folder => "New Folder",
        ObjectKind::Agent => "New Agent",
        ObjectKind::Link => "New Link",
    }
}

/// The shell's workspace session: the state, its in-memory store, the agent runtime and
/// the shell's bookkeeping (selection, status line, unsaved changes, panel toggles).
pub struct Session {
    pub state: HyperspaceState,
    pub store: InMemoryObjectStore,
    pub agent: LocalAgentRuntime,
    pub selected_object: Option<SmartObjectId>,
    pub new_dimension_name: String,
    pub status: String,
    pub show_hud: bool,
    pub dirty: bool,
    /// A "fit canvas to content" is requested for the next frame.
    pub pending_fit: bool,
}

impl Session {
    /// A session over a loaded `state`, with every dimension synced into the store.
    pub fn new(state: HyperspaceState, status: String) -> (s: Self)
        ensures
            s.state == state,
            s.store.contents() == synced_all(Map::empty(), state.dimensions@),
            s.selected_object is None,
            s.new_dimension_name@ == Seq::<char>::empty(),
            s.status == status,
            s.show_hud,
            !s.dirty,
            !s.pending_fit,
    {
        let store = InMemoryObjectStore::from_state(&state);
        Session {
            state,
            store,
            agent: LocalAgentRuntime::new(),
            selected_object: None,
            new_dimension_name: String::new(),
            status,
            show_hud: true,
            dirty: false,
            pending_fit: false,
        }
    }

    /// Identifier of the active dimension.
    pub fn active_dimension_id(&self) -> (id: DimensionId)
        ensures
            id == self.state.active_dimension,
    {
        self.state.active_dimension
    }

    /// Records that the workspace has unsaved changes.
    pub fn mark_dirty(&mut self)
        ensures
            final(self).dirty,
            final(self).state == old(self).state,
            final(self).store.contents() == old(self).store.contents(),
            final(self).selected_object == old(self).selected_object,
            final(self).new_dimension_name == old(self).new_dimension_name,
            final(self).status == old(self).status,
            final(self).show_hud == old(self).show_hud,
            final(self).pending_fit == old(self).pending_fit,
    {
        self.dirty = true;
    }

    /// Copies the active dimension's objects into the store.
    pub fn sync_active_dimension(&mut self)
        ensures
            final(self).store.contents() == synced_active(old(self).store.contents(), old(self).state),
            final(self).state == old(self).state,
            final(self).selected_object == old(self).selected_object,
            final(self).new_dimension_name == old(self).new_dimension_name,
            final(self).status == old(self).status,
            final(self).show_hud == old(self).show_hud,
            final(self).dirty == old(self).dirty,
            final(self).pending_fit == old(self).pending_fit,
    {
        match self.state.active_dimension() {
            Some(dimension) => {
                let _ = self.store.sync_dimension(dimension);
            },
            None => {},
        }
    }
}

/// `o` is an object the shell placed: a random identifier, `kind`, `title`, `body`, at
/// `at`, with the kind's default size and no link target.
pub open spec fn is_placed_object(
    o: SmartObject,
    kind: ObjectKind,
    title: Seq<char>,
    body: Seq<char>,
    at: WorldPoint,
) -> bool {
    &&& is_random_id(o.id)
    &&& o.kind == kind
    &&& o.title@ == title
    &&& o.body@ == body
    &&& o.position == at
    &&& o.size == crate::object::kind_default_size(kind)
    &&& o.link_target is None
}

/// `after` is `before` with `o` appended to the objects of its active dimension, found at
/// position `i`.
pub open spec fn appends_to_active(after: HyperspaceState, before: HyperspaceState, i: int, o: SmartObject) -> bool {
    &&& after.active_dimension == before.active_dimension
    &&& replaces_dimension(after.dimensions@, before.dimensions@, i, after.dimensions@[i])
    &&& has_objects(after.dimensions@[i], before.dimensions@[i], before.dimensions@[i].objects@.push(o))
}

/// The prompt sent when the user asks about the active dimension.
pub open spec fn dimension_prompt(state: HyperspaceState) -> Seq<char> {
    match lookup_dimension(state.dimensions@, state.active_dimension) {
        Some(d) => "Describe dimension '"@ + d.name@ + "'"@,
        None => "Describe the workspace"@,
    }
}

impl Session {
    /// Appends `object` to the active dimension; returns whether there was one.
    fn add_to_active(&mut self, object: SmartObject) -> (added: bool)
        ensures
            match first_position(dimension_ids(old(self).state.dimensions@), old(self).state.active_dimension) {
                Some(i) => added && appends_to_active(final(self).state, old(self).state, i, object),
                None => !added && final(self).state == old(self).state,
            },
            final(self).store == old(self).store,
            final(self).agent == old(self).agent,
            final(self).selected_object == old(self).selected_object,
            final(self).new_dimension_name == old(self).new_dimension_name,
            final(self).status == old(self).status,
            final(self).show_hud == old(self).show_hud,
            final(self).dirty == old(self).dirty,
            final(self).pending_fit == old(self).pending_fit,
    {
        proof {
            lemma_first_position(dimension_ids(self.state.dimensions@), self.state.active_dimension);
        }
        match self.state.active_dimension_mut() {
            Some(dimension) => {
                dimension.objects.push(object);
                true
            },
            None => false,
        }
    }

    /// Creates a dimension named after the typed name (or `Dimension <n>`), makes it
    /// active, clears the typed name and the selection, syncs it and reports it.
    pub fn create_dimension(&mut self)
        requires
            old(self).state.dimensions@.len() < usize::MAX,
        ensures
            ({
                let name = new_dimension_title(
                    old(self).new_dimension_name@,
                    old(self).state.dimensions@.len(),
                );
                &&& final(self).state.dimensions@ == old(self).state.dimensions@.push(
                    final(self).state.dimensions@.last(),
                )
                &&& is_new_dimension(
                    final(self).state.dimensions@.last(),
                    final(self).state.active_dimension,
                    name,
                )
                &&& is_random_id(final(self).state.active_dimension)
                &&& final(self).store.contents() == synced_active(
                    old(self).store.contents(),
                    final(self).state,
                )
                &&& final(self).new_dimension_name@ == Seq::<char>::empty()
                &&& final(self).selected_object is None
                &&& final(self).dirty
                &&& final(self).status@ == "Created workspace '"@ + name + "'"@
                &&& final(self).show_hud == old(self).show_hud
                &&& final(self).pending_fit == old(self).pending_fit
            }),
    {
        let typed = trim(self.new_dimension_name.as_str());
        let name = if typed.as_str().is_empty() {
            let mut n = String::from_str("Dimension ");
            let count = decimal_text(self.state.dimensions.len() + 1);
            n.append(count.as_str());
            n
        } else {
            typed
        };
        self.state.add_dimension(name.clone());
        self.new_dimension_name = String::new();
        self.selected_object = None;
        self.sync_active_dimension();
        self.mark_dirty();
        let mut status = String::from_str("Created workspace '");
        status.append(name.as_str());
        status.append("'");
        self.status = status;
    }

    /// Makes the dimension `id` active, if there is one, clearing the selection.
    pub fn switch_dimension(&mut self, id: DimensionId)
        ensures
            match lookup_dimension(old(self).state.dimensions@, id) {
                Some(d) => {
                    &&& final(self).state.dimensions == old(self).state.dimensions
                    &&& final(self).state.active_dimension == id
                    &&& final(self).selected_object is None
                    &&& final(self).status@ == "Switched to "@ + d.name@
                    &&& final(self).store.contents() == old(self).store.contents()
                    &&& final(self).new_dimension_name == old(self).new_dimension_name
                    &&& final(self).show_hud == old(self).show_hud
                    &&& final(self).dirty == old(self).dirty
                    &&& final(self).pending_fit == old(self).pending_fit
                },
                None => *final(self) == *old(self),
            },
    {
        if self.state.dimension_by_id(id).is_some() {
            self.state.active_dimension = id;
            self.selected_object = None;
            let mut status = String::from_str("Switched to ");
            match self.state.active_dimension() {
                Some(d) => status.append(d.name.as_str()),
                None => status.append("unknown"),
            }
            self.status = status;
        }
    }

    /// Spawns a new object of `kind` at `at` (already snapped to the grid) in the active
    /// dimension, selects it and reports it.
    pub fn spawn_object(&mut self, kind: ObjectKind, at: WorldPoint)
        ensures
            match first_position(dimension_ids(old(self).state.dimensions@), old(self).state.active_dimension) {
                Some(i) => {
                    let o = final(self).state.dimensions@[i].objects@.last();
                    &&& appends_to_active(final(self).state, old(self).state, i, o)
                    &&& is_placed_object(o, kind, spawn_title(kind), spawn_body(), at)
                    &&& final(self).selected_object == Some(o.id)
                    &&& final(self).status@ == "Created "@ + spawn_title(kind)
                    &&& final(self).dirty
                    &&& final(self).store.contents() == synced_active(
                        old(self).store.contents(),
                        final(self).state,
                    )
                    &&& final(self).new_dimension_name == old(self).new_dimension_name
                    &&& final(self).show_hud == old(self).show_hud
                    &&& final(self).pending_fit == old(self).pending_fit
                },
                None => *final(self) == *old(self),
            },
    {
        let title = spawn_title_text(kind);
        let object = SmartObject::new(kind, String::from_str(title), at).with_body(
            String::from_str("Smart Object placeholder"),
        );
        let id = object.id;
        if self.add_to_active(object) {
            self.selected_object = Some(id);
            let mut status = String::from_str("Created ");
            status.append(title);
            self.status = status;
            self.mark_dirty();
            self.sync_active_dimension();
        }
    }

    /// Adds a "Quick Note" at `at` (already snapped) to the active dimension and selects it.
    pub fn quick_note(&mut self, at: WorldPoint)
        ensures
            match first_position(dimension_ids(old(self).state.dimensions@), old(self).state.active_dimension) {
                Some(i) => {
                    let o = final(self).state.dimensions@[i].objects@.last();
                    &&& appends_to_active(final(self).state, old(self).state, i, o)
                    &&& is_placed_object(o, ObjectKind::Note, "Quick Note"@, "Created from dock"@, at)
                    &&& final(self).selected_object == Some(o.id)
                    &&& final(self).dirty
                    &&& final(self).store.contents() == synced_active(
                        old(self).store.contents(),
                        final(self).state,
                    )
                    &&& final(self).status == old(self).status
                    &&& final(self).new_dimension_name == old(self).new_dimension_name
                    &&& final(self).show_hud == old(self).show_hud
                    &&& final(self).pending_fit == old(self).pending_fit
                },
                None => *final(self) == *old(self),
            },
    {
        let object = SmartObject::note(String::from_str("Quick Note"), at).with_body(
            String::from_str("Created from dock"),
        );
        let id = object.id;
        if self.add_to_active(object) {
            self.selected_object = Some(id);
            self.mark_dirty();
            self.sync_active_dimension();
        }
    }

    /// Removes the selected object from the active dimension and clears the selection.
    /// Returns whether an object was removed.
    pub fn delete_selected(&mut self) -> (removed: bool)
        ensures
            match old(self).selected_object {
                None => !removed && *final(self) == *old(self),
                Some(id) => {
                    &&& is_object_removal(
                        final(self).state,
                        old(self).state,
                        old(self).state.active_dimension,
                        id,
                        removed,
                    )
                    &&& final(self).selected_object is None
                    &&& removed ==> {
                        &&& final(self).status@ == "Deleted object"@
                        &&& final(self).dirty
                        &&& final(self).store.contents() == synced_active(
                            old(self).store.contents(),
                            final(self).state,
                        )
                    }
                    &&& !removed ==> {
                        &&& final(self).status == old(self).status
                        &&& final(self).dirty == old(self).dirty
                        &&& final(self).store.contents() == old(self).store.contents()
                    }
                    &&& final(self).new_dimension_name == old(self).new_dimension_name
                    &&& final(self).show_hud == old(self).show_hud
                    &&& final(self).pending_fit == old(self).pending_fit
                },
            },
    {
        let id = match self.selected_object {
            Some(id) => id,
            None => {
                return false;
            },
        };
        self.selected_object = None;
        let dimension_id = self.active_dimension_id();
        let removed = self.state.remove_object(dimension_id, id);
        if removed {
            self.status = String::from_str("Deleted object");
            self.mark_dirty();
            self.sync_active_dimension();
        }
        removed
    }

    /// Clears the selection (Escape).
    pub fn clear_selection(&mut self)
        ensures
            final(self).selected_object is None,
            final(self).status@ == "Selection cleared"@,
            final(self).state == old(self).state,
            final(self).store.contents() == old(self).store.contents(),
            final(self).new_dimension_name == old(self).new_dimension_name,
            final(self).show_hud == old(self).show_hud,
            final(self).dirty == old(self).dirty,
            final(self).pending_fit == old(self).pending_fit,
    {
        self.selected_object = None;
        self.status = String::from_str("Selection cleared");
    }

    /// Records how saving the workspace to the file shown as `path_text` went.
    pub fn record_save(&mut self, outcome: Result<(), HyperspaceError>, path_text: String)
        ensures
            match outcome {
                Ok(()) => !final(self).dirty && final(self).status@ == "Saved · "@ + path_text@,
                Err(e) => final(self).dirty == old(self).dirty && final(self).status@
                    == "Save failed: "@ + error_message(e),
            },
            final(self).state == old(self).state,
            final(self).store.contents() == old(self).store.contents(),
            final(self).selected_object == old(self).selected_object,
            final(self).new_dimension_name == old(self).new_dimension_name,
            final(self).show_hud == old(self).show_hud,
            final(self).pending_fit == old(self).pending_fit,
    {
        match outcome {
            Ok(()) => {
                self.dirty = false;
                let mut status = String::from_str("Saved · ");
                status.append(path_text.as_str());
                self.status = status;
            },
            Err(err) => {
                let mut status = String::from_str("Save failed: ");
                let message = err.message();
                status.append(message.as_str());
                self.status = status;
            },
        }
    }

    /// Pings the local agent and shows its answer.
    pub fn ping_agent(&mut self)
        ensures
            final(self).status@ == "Local agent runtime online (stub model)"@,
            final(self).state == old(self).state,
            final(self).store.contents() == old(self).store.contents(),
            final(self).selected_object == old(self).selected_object,
            final(self).new_dimension_name == old(self).new_dimension_name,
            final(self).show_hud == old(self).show_hud,
            final(self).dirty == old(self).dirty,
            final(self).pending_fit == old(self).pending_fit,
    {
        match self.agent.ping() {
            Ok(reply) => self.status = reply,
            Err(err) => self.status = err.message(),
        }
    }

    /// Asks the local agent about the active dimension and shows its answer.
    pub fn ask_about_dimension(&mut self)
        ensures
            final(self).status@ == crate::agent::stub_reply_text(AgentRole::User, dimension_prompt(old(self).state)),
            final(self).state == old(self).state,
            final(self).store.contents() == old(self).store.contents(),
            final(self).selected_object == old(self).selected_object,
            final(self).new_dimension_name == old(self).new_dimension_name,
            final(self).show_hud == old(self).show_hud,
            final(self).dirty == old(self).dirty,
            final(self).pending_fit == old(self).pending_fit,
    {
        let prompt = match self.state.active_dimension() {
            Some(d) => {
                let mut p = String::from_str("Describe dimension '");
                p.append(d.name.as_str());
                p.append("'");
                p
            },
            None => String::from_str("Describe the workspace"),
        };
        match self.agent.complete(AgentMessage::user(prompt)) {
            Ok(reply) => self.status = reply.text,
            Err(err) => self.status = err.message(),
        }
    }

    /// Syncs the active dimension and reports how many records the store now holds for it.
    pub fn sync_and_report(&mut self)
        ensures
            final(self).store.contents() == synced_active(old(self).store.contents(), old(self).state),
            ({
                let c = final(self).store.contents();
                let id = old(self).state.active_dimension;
                let n = if c.contains_key(id) { c[id].dom().len() } else { 0 };
                final(self).status@ == "Synced "@ + decimal(n) + " objects"@
            }),
            final(self).state == old(self).state,
            final(self).selected_object == old(self).selected_object,
            final(self).new_dimension_name == old(self).new_dimension_name,
            final(self).show_hud == old(self).show_hud,
            final(self).dirty == old(self).dirty,
            final(self).pending_fit == old(self).pending_fit,
    {
        self.sync_active_dimension();
        let id = self.active_dimension_id();
        match self.store.list_active(id) {
            Ok(entries) => {
                let mut status = String::from_str("Synced ");
                let count = decimal_text(entries.len());
                status.append(count.as_str());
                status.append(" objects");
                self.status = status;
            },
            Err(_) => {},
        }
    }
}

/// Whether removing object `object_id` from the first dimension `dimension_id` of `state`
/// removes anything.
pub open spec fn removes_something(state: HyperspaceState, dimension_id: DimensionId, object_id: SmartObjectId) -> bool {
    match first_position(dimension_ids(state.dimensions@), dimension_id) {
        Some(i) => crate::state::object_ids(state.dimensions@[i].objects@).contains(object_id),
        None => false,
    }
}

/// `after` is `before` with what finishing a frame with `outcome` does: take the new
/// selection and status, sync if something changed, show the agent's answer to a prompt,
/// follow a link, and close an object (in the dimension active by then).
pub open spec fn finishes_frame(after: Session, before: Session, outcome: CanvasOutcome) -> bool {
    let status1 = match opt_text(outcome.status) {
        Some(t) => t,
        None => before.status@,
    };
    let dirty1 = before.dirty || outcome.dirty;
    let store1 = if outcome.dirty {
        synced_active(before.store.contents(), before.state)
    } else {
        before.store.contents()
    };
    let status2 = match opt_text(outcome.agent_prompt) {
        Some(prompt) => crate::agent::stub_reply_text(AgentRole::User, prompt),
        None => status1,
    };
    let nav = match outcome.link_target {
        Some(t) => lookup_dimension(before.state.dimensions@, t) is Some,
        None => false,
    };
    let active2 = if nav {
        outcome.link_target->0
    } else {
        before.state.active_dimension
    };
    let selected2 = if nav {
        None
    } else {
        outcome.selected
    };
    let status3 = if nav {
        "Switched to "@ + lookup_dimension(before.state.dimensions@, active2)->0.name@
    } else {
        status2
    };
    let mid = HyperspaceState { dimensions: before.state.dimensions, active_dimension: active2 };
    &&& after.new_dimension_name == before.new_dimension_name
    &&& after.show_hud == before.show_hud
    &&& after.pending_fit == before.pending_fit
    &&& match outcome.close {
        Some(id) => {
            let removed = removes_something(mid, active2, id);
            &&& is_object_removal(after.state, mid, active2, id, removed)
            &&& removed ==> {
                &&& after.selected_object is None
                &&& after.status@ == "Closed object"@
                &&& after.dirty
                &&& after.store.contents() == synced_active(store1, after.state)
            }
            &&& !removed ==> {
                &&& after.selected_object == selected2
                &&& after.status@ == status3
                &&& after.dirty == dirty1
                &&& after.store.contents() == store1
            }
        },
        None => {
            &&& after.state == mid
            &&& after.selected_object == selected2
            &&& after.status@ == status3
            &&& after.dirty == dirty1
            &&& after.store.contents() == store1
        },
    }
}

impl Session {
    /// Handles a frame's canvas events against the active dimension (nothing happens
    /// without one); the returned outcome is finished by `finish_canvas_events`.
    pub fn handle_canvas_events(&mut self, events: &Vec<CanvasEvent>) -> (outcome: CanvasOutcome)
        ensures
            match first_position(dimension_ids(old(self).state.dimensions@), old(self).state.active_dimension) {
                Some(i) => {
                    &&& final(self).state.active_dimension == old(self).state.active_dimension
                    &&& replaces_dimension(
                        final(self).state.dimensions@,
                        old(self).state.dimensions@,
                        i,
                        final(self).state.dimensions@[i],
                    )
                    &&& has_objects(
                        final(self).state.dimensions@[i],
                        old(self).state.dimensions@[i],
                        final(self).state.dimensions@[i].objects@,
                    )
                    &&& handles_events(
                        old(self).state.dimensions@[i].objects@,
                        final(self).state.dimensions@[i].objects@,
                        events@,
                        old(self).selected_object,
                        outcome,
                    )
                },
                None => {
                    &&& final(self).state == old(self).state
                    &&& outcome.selected == old(self).selected_object
                    &&& outcome.status is None
                    &&& !outcome.dirty
                    &&& outcome.agent_prompt is None
                    &&& outcome.link_target is None
                    &&& outcome.close is None
                },
            },
            final(self).store == old(self).store,
            final(self).agent == old(self).agent,
            final(self).selected_object == old(self).selected_object,
            final(self).new_dimension_name == old(self).new_dimension_name,
            final(self).status == old(self).status,
            final(self).show_hud == old(self).show_hud,
            final(self).dirty == old(self).dirty,
            final(self).pending_fit == old(self).pending_fit,
    {
        let active = self.state.active_dimension;
        match self.state.position_of_dimension(active) {
            Some(i) => {
                let mut objects: Vec<SmartObject> = Vec::new();
                std::mem::swap(&mut objects, &mut self.state.dimensions[i].objects);
                let outcome = handle_events(&mut objects, events, self.selected_object);
                self.state.dimensions[i].objects = objects;
                outcome
            },
            None => CanvasOutcome {
                selected: self.selected_object,
                status: None,
                dirty: false,
                agent_prompt: None,
                link_target: None,
                close: None,
            },
        }
    }

    /// Finishes a frame: takes the outcome's selection and status, syncs when objects
    /// changed, shows the agent's answer to a prompt, follows a link, closes an object.
    pub fn finish_canvas_events(&mut self, outcome: CanvasOutcome)
        ensures
            finishes_frame(*final(self), *old(self), outcome),
    {
        let ghost before = *self;
        self.selected_object = outcome.selected;
        match outcome.status {
            Some(status) => self.status = status,
            None => {},
        }
        if outcome.dirty {
            self.mark_dirty();
            self.sync_active_dimension();
        }
        match outcome.agent_prompt {
            Some(prompt) => match self.agent.complete(AgentMessage::user(prompt)) {
                Ok(reply) => self.status = reply.text,
                Err(err) => self.status = err.message(),
            },
            None => {},
        }
        match outcome.link_target {
            Some(target) => self.switch_dimension(target),
            None => {},
        }
        match outcome.close {
            Some(id) => {
                let active = self.active_dimension_id();
                if self.state.remove_object(active, id) {
                    self.selected_object = None;
                    self.status = String::from_str("Closed object");
                    self.mark_dirty();
                    self.sync_active_dimension();
                }
            },
            None => {},
        }
    }
}

} // verus!
