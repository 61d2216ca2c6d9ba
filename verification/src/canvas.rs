use vstd::prelude::*;
use vstd::string::StringExecFns;

use crate::geometry::{WorldPoint, WorldSize};
use crate::ids::{DimensionId, SmartObjectId};
use crate::object::{is_random_id, kind_label, ObjectKind, SmartObject};
use crate::shell::{
    is_placed_object, lemma_spawn_title_names_the_kind, spawn_body, spawn_title, spawn_title_text,
};
use crate::state::{first_position, lemma_first_position, object_ids, position_of_object};

verus! {

/// What the canvas reports after handling a frame's input. Positions and sizes are
/// bit patterns of `f32` values, already snapped to the grid by the shell.
#[derive(Debug, Clone, Copy)]
pub enum CanvasEvent {
    Created { kind: ObjectKind, at: WorldPoint },
    Moved { id: SmartObjectId, to: WorldPoint },
    Resized { id: SmartObjectId, position: WorldPoint, size: WorldSize },
    Selected(SmartObjectId),
    Deselected,
    AgentInvoke(SmartObjectId),
    LinkActivate(SmartObjectId),
    /// The close button of a selected object's title bar was clicked.
    CloseObject(SmartObjectId),
}

/// What handling a frame's canvas events leaves for the session to finish.
pub struct CanvasOutcome {
    pub selected: Option<SmartObjectId>,
    pub status: Option<String>,
    pub dirty: bool,
    pub agent_prompt: Option<String>,
    pub link_target: Option<DimensionId>,
    pub close: Option<SmartObjectId>,
}

/// Progress through a frame's events (a model for the proofs).
pub struct CanvasPass {
    /// The active dimension's objects, with the resizes handled so far.
    pub objects: Seq<SmartObject>,
    /// Objects created so far, to be appended after the events.
    pub created: Seq<SmartObject>,
    /// Moves seen so far, to be applied after the created objects are appended.
    pub moves: Seq<(SmartObjectId, WorldPoint)>,
    pub selected: Option<SmartObjectId>,
    pub status: Option<Seq<char>>,
    pub dirty: bool,
    pub agent_prompt: Option<Seq<char>>,
    pub link_target: Option<DimensionId>,
    pub close: Option<SmartObjectId>,
    /// Every created object is a placed object of its event's kind and position.
    pub created_well: bool,
}

/// Position of the first object with identifier `id`.
pub open spec fn object_at(objects: Seq<SmartObject>, id: SmartObjectId) -> Option<int> {
    first_position(object_ids(objects), id)
}

/// The prompt sent to the agent when an Agent object is clicked.
pub open spec fn agent_object_prompt(title: Seq<char>) -> Seq<char> {
    "You are a local-first agent inside OS/3 Hyperspace. Respond briefly about object '"@ + title
        + "'."@
}

/// The pass after one more event; `fresh` is the object a `Created` event makes.
pub open spec fn canvas_step(p: CanvasPass, e: CanvasEvent, fresh: SmartObject) -> CanvasPass {
    match e {
        CanvasEvent::Created { kind, at } => CanvasPass {
            created: p.created.push(fresh),
            selected: Some(fresh.id),
            status: Some("Created "@ + spawn_title(kind)),
            dirty: true,
            created_well: p.created_well && is_placed_object(
                fresh,
                kind,
                spawn_title(kind),
                spawn_body(),
                at,
            ),
            ..p
        },
        CanvasEvent::Moved { id, to } => CanvasPass { moves: p.moves.push((id, to)), ..p },
        CanvasEvent::Resized { id, position, size } => match object_at(p.objects, id) {
            Some(j) => CanvasPass {
                objects: p.objects.update(j, SmartObject { position, size, ..p.objects[j] }),
                status: Some("Resized "@ + p.objects[j].title@),
                dirty: true,
                ..p
            },
            None => p,
        },
        CanvasEvent::Selected(id) => match object_at(p.objects, id) {
            Some(j) => CanvasPass {
                selected: Some(id),
                status: Some("Selected: "@ + p.objects[j].title@),
                ..p
            },
            None => CanvasPass { selected: Some(id), ..p },
        },
        CanvasEvent::Deselected => CanvasPass { selected: None, ..p },
        CanvasEvent::AgentInvoke(id) => match object_at(p.objects, id) {
            Some(j) => CanvasPass {
                selected: Some(id),
                agent_prompt: Some(agent_object_prompt(p.objects[j].title@)),
                ..p
            },
            None => CanvasPass { selected: Some(id), ..p },
        },
        CanvasEvent::LinkActivate(id) => match object_at(p.objects, id) {
            Some(j) => match p.objects[j].link_target {
                Some(t) => CanvasPass {
                    selected: Some(id),
                    link_target: Some(t),
                    status: Some("Navigating via Link: "@ + p.objects[j].title@),
                    ..p
                },
                None => CanvasPass {
                    selected: Some(id),
                    status: Some("Link has no target set (use Inspector)"@),
                    ..p
                },
            },
            None => CanvasPass { selected: Some(id), ..p },
        },
        CanvasEvent::CloseObject(id) => CanvasPass {
            close: Some(id),
            status: Some("Closing object..."@),
            ..p
        },
    }
}

/// How many of `events` create an object.
pub open spec fn created_count(events: Seq<CanvasEvent>) -> nat
    decreases events.len(),
{
    if events.len() == 0 {
        0
    } else {
        created_count(events.drop_last()) + if events.last() is Created {
            1nat
        } else {
            0nat
        }
    }
}

/// The pass after `events`, the `k`-th `Created` event making `fresh[k]`.
pub open spec fn canvas_pass(start: CanvasPass, events: Seq<CanvasEvent>, fresh: Seq<SmartObject>) -> CanvasPass
    decreases events.len(),
{
    if events.len() == 0 {
        start
    } else {
        canvas_step(
            canvas_pass(start, events.drop_last(), fresh),
            events.last(),
            fresh[created_count(events.drop_last()) as int],
        )
    }
}

/// The pass a frame starts from: the active dimension's objects and the current selection.
pub open spec fn pass_start(objects: Seq<SmartObject>, selected: Option<SmartObjectId>) -> CanvasPass {
    CanvasPass {
        objects,
        created: Seq::empty(),
        moves: Seq::empty(),
        selected,
        status: None,
        dirty: false,
        agent_prompt: None,
        link_target: None,
        close: None,
        created_well: true,
    }
}

/// Objects, status and dirtiness after applying `moves` in order: each moves the first
/// object with its identifier, if any, and reports it.
pub open spec fn moved(
    objects: Seq<SmartObject>,
    status: Option<Seq<char>>,
    dirty: bool,
    moves: Seq<(SmartObjectId, WorldPoint)>,
) -> (Seq<SmartObject>, Option<Seq<char>>, bool)
    decreases moves.len(),
{
    if moves.len() == 0 {
        (objects, status, dirty)
    } else {
        let (o, s, d) = moved(objects, status, dirty, moves.drop_last());
        let (id, to) = moves.last();
        match object_at(o, id) {
            Some(j) => (o.update(j, SmartObject { position: to, ..o[j] }), Some("Moved "@ + o[j].title@), true),
            None => (o, s, d),
        }
    }
}

/// The view of an optional string.
pub open spec fn opt_text(s: Option<String>) -> Option<Seq<char>> {
    match s {
        Some(t) => Some(t@),
        None => None,
    }
}

proof fn lemma_pass_uses_prefix(start: CanvasPass, events: Seq<CanvasEvent>, f1: Seq<SmartObject>, f2: Seq<SmartObject>)
    requires
        f1.len() >= created_count(events),
        f2.len() >= created_count(events),
        forall|k: int| 0 <= k < created_count(events) ==> f1[k] == f2[k],
    ensures
        canvas_pass(start, events, f1) == canvas_pass(start, events, f2),
    decreases events.len(),
{
    if events.len() > 0 {
        lemma_pass_uses_prefix(start, events.drop_last(), f1, f2);
    }
}

/// `after` is what handling `events` (starting from selection `selected`) leaves of the
/// objects `before`, and `outcome` what it reports.
pub open spec fn handles_events(
    before: Seq<SmartObject>,
    after: Seq<SmartObject>,
    events: Seq<CanvasEvent>,
    selected: Option<SmartObjectId>,
    outcome: CanvasOutcome,
) -> bool {
    exists|fresh: Seq<SmartObject>|
        #![trigger canvas_pass(pass_start(before, selected), events, fresh)]
        {
            let p = canvas_pass(pass_start(before, selected), events, fresh);
            let (objects, status, dirty) = moved(p.objects + p.created, p.status, p.dirty, p.moves);
            &&& fresh.len() == created_count(events)
            &&& p.created_well
            &&& after == objects
            &&& opt_text(outcome.status) == status
            &&& outcome.dirty == dirty
            &&& outcome.selected == p.selected
            &&& opt_text(outcome.agent_prompt) == p.agent_prompt
            &&& outcome.link_target == p.link_target
            &&& outcome.close == p.close
        }
}

/// What handling a single event amounts to.
proof fn lemma_single_event(
    before: Seq<SmartObject>,
    after: Seq<SmartObject>,
    e: CanvasEvent,
    selected: Option<SmartObjectId>,
    outcome: CanvasOutcome,
) -> (fresh: Seq<SmartObject>)
    requires
        handles_events(before, after, seq![e], selected, outcome),
    ensures
        fresh.len() == created_count(seq![e]),
        ({
            let p = canvas_step(pass_start(before, selected), e, fresh[0]);
            let (objects, status, dirty) = moved(p.objects + p.created, p.status, p.dirty, p.moves);
            &&& p.created_well
            &&& after == objects
            &&& opt_text(outcome.status) == status
            &&& outcome.dirty == dirty
            &&& outcome.selected == p.selected
            &&& opt_text(outcome.agent_prompt) == p.agent_prompt
            &&& outcome.link_target == p.link_target
            &&& outcome.close == p.close
        }),
{
    let events = seq![e];
    let fresh = choose|fresh: Seq<SmartObject>|
        #![trigger canvas_pass(pass_start(before, selected), events, fresh)]
        {
            let p = canvas_pass(pass_start(before, selected), events, fresh);
            let (objects, status, dirty) = moved(p.objects + p.created, p.status, p.dirty, p.moves);
            &&& fresh.len() == created_count(events)
            &&& p.created_well
            &&& after == objects
            &&& opt_text(outcome.status) == status
            &&& outcome.dirty == dirty
            &&& outcome.selected == p.selected
            &&& opt_text(outcome.agent_prompt) == p.agent_prompt
            &&& outcome.link_target == p.link_target
            &&& outcome.close == p.close
        };
    assert(events.drop_last() =~= Seq::<CanvasEvent>::empty());
    assert(canvas_pass(pass_start(before, selected), events.drop_last(), fresh) == pass_start(before, selected));
    assert(events.last() == e);
    assert(created_count(events.drop_last()) == 0);
    fresh
}

/// `j` is where the first object with identifier `id` stands.
proof fn lemma_object_at_first(objects: Seq<SmartObject>, id: SmartObjectId, j: int)
    requires
        0 <= j < objects.len(),
        objects[j].id == id,
        forall|k: int| 0 <= k < j ==> objects[k].id != id,
    ensures
        object_at(objects, id) == Some(j),
{
    lemma_first_position(object_ids(objects), id);
    assert(object_ids(objects)[j] == id);
    if let Some(i) = object_at(objects, id) {
        assert(object_ids(objects)[i] == objects[i].id);
    }
}

/// A frame holding one resize puts the first object with that identifier at the event's
/// position with the event's size, keeps its identity and content, and leaves every other
/// object as it was.
pub proof fn lemma_resize_sets_rectangle(
    before: Seq<SmartObject>,
    after: Seq<SmartObject>,
    id: SmartObjectId,
    position: WorldPoint,
    size: WorldSize,
    selected: Option<SmartObjectId>,
    outcome: CanvasOutcome,
    j: int,
)
    requires
        handles_events(before, after, seq![CanvasEvent::Resized { id, position, size }], selected, outcome),
        0 <= j < before.len(),
        before[j].id == id,
        forall|k: int| 0 <= k < j ==> before[k].id != id,
    ensures
        after.len() == before.len(),
        after[j].position == position,
        after[j].size == size,
        after[j].id == id,
        after[j].kind == before[j].kind,
        after[j].title == before[j].title,
        after[j].body == before[j].body,
        after[j].link_target == before[j].link_target,
        forall|k: int| 0 <= k < before.len() && k != j ==> after[k] == before[k],
        outcome.dirty,
{
    let fresh = lemma_single_event(before, after, CanvasEvent::Resized { id, position, size }, selected, outcome);
    lemma_object_at_first(before, id, j);
    let p = canvas_step(pass_start(before, selected), CanvasEvent::Resized { id, position, size }, fresh[0]);
    assert(p.objects + p.created =~= p.objects);
}

/// A frame holding one move puts the first object with that identifier at the event's
/// position, keeping its size, identity and content, and leaves every other object as it
/// was.
pub proof fn lemma_move_places_object(
    before: Seq<SmartObject>,
    after: Seq<SmartObject>,
    id: SmartObjectId,
    to: WorldPoint,
    selected: Option<SmartObjectId>,
    outcome: CanvasOutcome,
    j: int,
)
    requires
        handles_events(before, after, seq![CanvasEvent::Moved { id, to }], selected, outcome),
        0 <= j < before.len(),
        before[j].id == id,
        forall|k: int| 0 <= k < j ==> before[k].id != id,
    ensures
        after.len() == before.len(),
        after[j].position == to,
        after[j].size == before[j].size,
        after[j].id == id,
        after[j].kind == before[j].kind,
        after[j].title == before[j].title,
        after[j].body == before[j].body,
        after[j].link_target == before[j].link_target,
        forall|k: int| 0 <= k < before.len() && k != j ==> after[k] == before[k],
        outcome.dirty,
        outcome.selected == selected,
{
    let e = CanvasEvent::Moved { id, to };
    let fresh = lemma_single_event(before, after, e, selected, outcome);
    lemma_object_at_first(before, id, j);
    let p = canvas_step(pass_start(before, selected), e, fresh[0]);
    assert(p.objects + p.created =~= before);
    assert(p.moves.drop_last() =~= Seq::<(SmartObjectId, WorldPoint)>::empty());
    assert(p.moves.last() == (id, to));
    assert(moved(before, p.status, p.dirty, p.moves.drop_last()) == (before, p.status, p.dirty));
    assert(after == before.update(j, SmartObject { position: to, ..before[j] }));
}

/// Selecting an object selects it and deselecting clears the selection; neither changes
/// the objects.
pub proof fn lemma_selection_events(
    before: Seq<SmartObject>,
    after: Seq<SmartObject>,
    e: CanvasEvent,
    selected: Option<SmartObjectId>,
    outcome: CanvasOutcome,
)
    requires
        handles_events(before, after, seq![e], selected, outcome),
        e is Selected || e is Deselected,
    ensures
        after == before,
        !outcome.dirty,
        outcome.close is None,
        outcome.link_target is None,
        e matches CanvasEvent::Selected(id) ==> outcome.selected == Some(id),
        e is Deselected ==> outcome.selected is None,
{
    let fresh = lemma_single_event(before, after, e, selected, outcome);
    let p = canvas_step(pass_start(before, selected), e, fresh[0]);
    assert(p.objects + p.created =~= before);
}

/// Activating a Link selects it and navigates to the first object's link target with that
/// identifier, if it has one (and nowhere when it has none); the objects stay as they are.
pub proof fn lemma_link_activation(
    before: Seq<SmartObject>,
    after: Seq<SmartObject>,
    id: SmartObjectId,
    selected: Option<SmartObjectId>,
    outcome: CanvasOutcome,
    j: int,
)
    requires
        handles_events(before, after, seq![CanvasEvent::LinkActivate(id)], selected, outcome),
        0 <= j < before.len(),
        before[j].id == id,
        forall|k: int| 0 <= k < j ==> before[k].id != id,
    ensures
        after == before,
        outcome.selected == Some(id),
        outcome.link_target == before[j].link_target,
        outcome.close is None,
{
    let e = CanvasEvent::LinkActivate(id);
    let fresh = lemma_single_event(before, after, e, selected, outcome);
    lemma_object_at_first(before, id, j);
    let p = canvas_step(pass_start(before, selected), e, fresh[0]);
    assert(p.objects + p.created =~= before);
}

/// Clicking the close box asks to close exactly that object and changes nothing else yet.
pub proof fn lemma_close_requests_closing(
    before: Seq<SmartObject>,
    after: Seq<SmartObject>,
    id: SmartObjectId,
    selected: Option<SmartObjectId>,
    outcome: CanvasOutcome,
)
    requires
        handles_events(before, after, seq![CanvasEvent::CloseObject(id)], selected, outcome),
    ensures
        after == before,
        outcome.close == Some(id),
        outcome.selected == selected,
        outcome.link_target is None,
{
    let e = CanvasEvent::CloseObject(id);
    let fresh = lemma_single_event(before, after, e, selected, outcome);
    let p = canvas_step(pass_start(before, selected), e, fresh[0]);
    assert(p.objects + p.created =~= before);
}

/// Creating appends one new object of the event's kind at the event's position, titled
/// "New " and the kind's label, with a random identifier, and selects it; the objects
/// before it are kept.
pub proof fn lemma_create_appends_object(
    before: Seq<SmartObject>,
    after: Seq<SmartObject>,
    kind: ObjectKind,
    at: WorldPoint,
    selected: Option<SmartObjectId>,
    outcome: CanvasOutcome,
)
    requires
        handles_events(before, after, seq![CanvasEvent::Created { kind, at }], selected, outcome),
    ensures
        after.len() == before.len() + 1,
        forall|k: int| 0 <= k < before.len() ==> after[k] == before[k],
        after.last().kind == kind,
        after.last().position == at,
        after.last().title@ == "New "@ + kind_label(kind),
        after.last().link_target is None,
        is_random_id(after.last().id),
        outcome.selected == Some(after.last().id),
        outcome.dirty,
{
    let e = CanvasEvent::Created { kind, at };
    let fresh = lemma_single_event(before, after, e, selected, outcome);
    let p = canvas_step(pass_start(before, selected), e, fresh[0]);
    assert(p.created =~= seq![fresh[0]]);
    assert(after =~= before.push(fresh[0]));
    lemma_spawn_title_names_the_kind(kind);
}

/// Handles one frame's events against the active dimension's `objects`: resizes are
/// applied at once, created objects appended afterwards, then the moves applied.
pub fn handle_events(objects: &mut Vec<SmartObject>, events: &Vec<CanvasEvent>, selected: Option<SmartObjectId>) -> (outcome: CanvasOutcome)
    ensures
        handles_events(old(objects)@, final(objects)@, events@, selected, outcome),
{
    let ghost start = pass_start(objects@, selected);
    let ghost mut fresh: Seq<SmartObject> = Seq::empty();
    let mut created: Vec<SmartObject> = Vec::new();
    let mut moves: Vec<(SmartObjectId, WorldPoint)> = Vec::new();
    let mut sel = selected;
    let mut status: Option<String> = None;
    let mut dirty = false;
    let mut prompt: Option<String> = None;
    let mut link: Option<DimensionId> = None;
    let mut close: Option<SmartObjectId> = None;
    let mut k: usize = 0;
    assert(events@.take(0) =~= Seq::<CanvasEvent>::empty());
    while k < events.len()
        invariant
            k <= events@.len(),
            fresh.len() == created_count(events@.take(k as int)),
            canvas_pass(start, events@.take(k as int), fresh) == (CanvasPass {
                objects: objects@,
                created: created@,
                moves: moves@,
                selected: sel,
                status: opt_text(status),
                dirty,
                agent_prompt: opt_text(prompt),
                link_target: link,
                close,
                created_well: true,
            }),
        decreases events@.len() - k,
    {
        let ghost before = canvas_pass(start, events@.take(k as int), fresh);
        let ghost old_fresh = fresh;
        let e = events[k];
        assert(events@.take(k + 1).drop_last() =~= events@.take(k as int));
        assert(events@.take(k + 1).last() == e);
        match e {
            CanvasEvent::Created { kind, at } => {
                let title = spawn_title_text(kind);
                let object = SmartObject::new(kind, String::from_str(title), at).with_body(
                    String::from_str("Smart Object placeholder"),
                );
                proof {
                    fresh = fresh.push(object);
                }
                sel = Some(object.id);
                let mut st = String::from_str("Created ");
                st.append(title);
                status = Some(st);
                dirty = true;
                created.push(object);
            },
            CanvasEvent::Moved { id, to } => {
                moves.push((id, to));
            },
            CanvasEvent::Resized { id, position, size } => {
                match position_of_object(objects, id) {
                    Some(j) => {
                        let mut st = String::from_str("Resized ");
                        st.append(objects[j].title.as_str());
                        status = Some(st);
                        let ghost prior = objects@;
                        objects[j].position = position;
                        objects[j].size = size;
                        assert(objects@ =~= prior.update(
                            j as int,
                            SmartObject { position, size, ..prior[j as int] },
                        ));
                        dirty = true;
                    },
                    None => {},
                }
            },
            CanvasEvent::Selected(id) => {
                sel = Some(id);
                match position_of_object(objects, id) {
                    Some(j) => {
                        let mut st = String::from_str("Selected: ");
                        st.append(objects[j].title.as_str());
                        status = Some(st);
                    },
                    None => {},
                }
            },
            CanvasEvent::Deselected => {
                sel = None;
            },
            CanvasEvent::AgentInvoke(id) => {
                sel = Some(id);
                match position_of_object(objects, id) {
                    Some(j) => {
                        let mut pr = String::from_str(
                            "You are a local-first agent inside OS/3 Hyperspace. Respond briefly about object '",
                        );
                        pr.append(objects[j].title.as_str());
                        pr.append("'.");
                        prompt = Some(pr);
                    },
                    None => {},
                }
            },
            CanvasEvent::LinkActivate(id) => {
                sel = Some(id);
                match position_of_object(objects, id) {
                    Some(j) => {
                        match objects[j].link_target {
                            Some(target) => {
                                link = Some(target);
                                let mut st = String::from_str("Navigating via Link: ");
                                st.append(objects[j].title.as_str());
                                status = Some(st);
                            },
                            None => {
                                status = Some(String::from_str("Link has no target set (use Inspector)"));
                            },
                        }
                    },
                    None => {},
                }
            },
            CanvasEvent::CloseObject(id) => {
                close = Some(id);
                status = Some(String::from_str("Closing object..."));
            },
        }
        proof {
            lemma_pass_uses_prefix(start, events@.take(k as int), old_fresh, fresh);
            let count = created_count(events@.take(k as int));
            assert(canvas_pass(start, events@.take(k + 1), fresh) == canvas_step(
                before,
                e,
                fresh[count as int],
            ));
        }
        k = k + 1;
    }
    assert(events@.take(events@.len() as int) =~= events@);
    let ghost pass = canvas_pass(start, events@, fresh);
    objects.append(&mut created);
    let ghost base = objects@;
    assert(base == pass.objects + pass.created);
    let mut m: usize = 0;
    assert(moves@.take(0) =~= Seq::<(SmartObjectId, WorldPoint)>::empty());
    while m < moves.len()
        invariant
            m <= moves@.len(),
            moved(base, pass.status, pass.dirty, moves@.take(m as int)) == (objects@, opt_text(status), dirty),
        decreases moves@.len() - m,
    {
        let (id, to) = moves[m];
        assert(moves@.take(m + 1).drop_last() =~= moves@.take(m as int));
        match position_of_object(objects, id) {
            Some(j) => {
                let mut st = String::from_str("Moved ");
                st.append(objects[j].title.as_str());
                status = Some(st);
                let ghost prior = objects@;
                objects[j].position = to;
                assert(objects@ =~= prior.update(j as int, SmartObject { position: to, ..prior[j as int] }));
                dirty = true;
            },
            None => {},
        }
        m = m + 1;
    }
    assert(moves@.take(moves@.len() as int) =~= moves@);
    let outcome = CanvasOutcome { selected: sel, status, dirty, agent_prompt: prompt, link_target: link, close };
    assert(canvas_pass(pass_start(old(objects)@, selected), events@, fresh) == pass);
    outcome
}

} // verus!
