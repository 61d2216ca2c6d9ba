use vstd::prelude::*;

use crate::canvas::CanvasEvent;
use crate::geometry::{WorldPoint, WorldSize};
use crate::ids::SmartObjectId;
use crate::object::ObjectKind;

verus! {

/// What the shell measured of the pointer in one frame on the canvas. The float work
/// (projection, hit test, close box, resize handles, resize and move arithmetic) is done
/// by the shell; positions and sizes are bit patterns of `f32` values.
#[derive(Debug, Clone, Copy)]
pub struct PointerFrame {
    /// The primary button clicked.
    pub clicked: bool,
    pub double_clicked: bool,
    /// A primary-button drag began.
    pub drag_started: bool,
    /// A primary-button drag is under way.
    pub dragged: bool,
    /// A drag (of any button) ended.
    pub drag_stopped: bool,
    /// Space is held: the canvas pans and ignores clicks and drags on objects.
    pub space_down: bool,
    /// Where the pointer is, in world coordinates snapped to the grid, if it is over the
    /// canvas (a double-click puts its Note there).
    pub pointer_world: Option<WorldPoint>,
    /// The topmost object under the pointer.
    pub hit: Option<(SmartObjectId, ObjectKind)>,
    /// The pointer is in the close box of the title bar of the hit object.
    pub in_close_box: bool,
    /// The selected object is among the dimension's objects.
    pub selected_on_canvas: bool,
    /// The pointer is on a resize handle of the selected object.
    pub on_resize_handle: bool,
    /// Where the object being resized would go, with its new size (snapped), if the
    /// pointer is known.
    pub resized: Option<(WorldPoint, WorldSize)>,
    /// Where the object being moved would go (snapped), if the pointer is known.
    pub drag_to: Option<WorldPoint>,
}

/// Which object a drag on the canvas moves or resizes, across frames.
#[derive(Debug, Clone, Copy)]
pub struct GestureState {
    pub dragging: Option<SmartObjectId>,
    pub resizing: Option<SmartObjectId>,
}

/// No drag under way.
pub open spec fn idle_gesture() -> GestureState {
    GestureState { dragging: None, resizing: None }
}

/// The pointer acts on objects this frame: it is over the canvas and Space is not held.
pub open spec fn acts(frame: PointerFrame) -> bool {
    !frame.space_down && frame.pointer_world is Some
}

/// A double-click spawns a Note where the pointer is.
pub open spec fn created_events(frame: PointerFrame) -> Seq<CanvasEvent> {
    if frame.double_clicked && acts(frame) {
        seq![CanvasEvent::Created { kind: ObjectKind::Note, at: frame.pointer_world->0 }]
    } else {
        seq![]
    }
}

/// The object under the pointer (meaningful when there is one).
pub open spec fn hit_id(frame: PointerFrame) -> SmartObjectId {
    match frame.hit {
        Some((id, _)) => id,
        None => 0,
    }
}

/// The click lands in the close box of the selected object.
pub open spec fn is_close_click(frame: PointerFrame, selected: Option<SmartObjectId>) -> bool {
    &&& frame.clicked
    &&& acts(frame)
    &&& frame.hit is Some
    &&& selected == Some(hit_id(frame))
    &&& frame.in_close_box
}

/// A click selects the object under the pointer, then invokes an Agent or activates a
/// Link; a click on nothing clears the selection.
pub open spec fn click_events(frame: PointerFrame) -> Seq<CanvasEvent> {
    if frame.clicked && acts(frame) {
        match frame.hit {
            Some((id, kind)) => seq![CanvasEvent::Selected(id)] + match kind {
                ObjectKind::Agent => seq![CanvasEvent::AgentInvoke(id)],
                ObjectKind::Link => seq![CanvasEvent::LinkActivate(id)],
                _ => seq![],
            },
            None => seq![CanvasEvent::Deselected],
        }
    } else {
        seq![]
    }
}

/// The start of a drag: on a resize handle of the selected object it resizes that
/// object; otherwise it moves the object under the pointer (nothing starts while a
/// selected object is not on the canvas). The object is selected either way.
pub open spec fn drag_start(
    state: GestureState,
    frame: PointerFrame,
    selected: Option<SmartObjectId>,
) -> (GestureState, Seq<CanvasEvent>) {
    if frame.drag_started && acts(frame) {
        match selected {
            Some(sel) => if !frame.selected_on_canvas {
                (state, seq![])
            } else if frame.on_resize_handle {
                (GestureState { resizing: Some(sel), ..state }, seq![CanvasEvent::Selected(sel)])
            } else {
                match frame.hit {
                    Some((id, _)) => (
                        GestureState { dragging: Some(id), ..state },
                        seq![CanvasEvent::Selected(id)],
                    ),
                    None => (state, seq![]),
                }
            },
            None => match frame.hit {
                Some((id, _)) => (
                    GestureState { dragging: Some(id), ..state },
                    seq![CanvasEvent::Selected(id)],
                ),
                None => (state, seq![]),
            },
        }
    } else {
        (state, seq![])
    }
}

/// While dragging, a resize under way reports the new rectangle; otherwise a move under
/// way reports the new position.
pub open spec fn drag_events(state: GestureState, frame: PointerFrame) -> Seq<CanvasEvent> {
    if frame.dragged && !frame.space_down {
        match state.resizing {
            Some(id) => match frame.resized {
                Some((position, size)) => seq![CanvasEvent::Resized { id, position, size }],
                None => seq![],
            },
            None => match (state.dragging, frame.drag_to) {
                (Some(id), Some(to)) => seq![CanvasEvent::Moved { id, to }],
                _ => seq![],
            },
        }
    } else {
        seq![]
    }
}

/// The events of a frame, in order: a double-click's Note; then a click in the close box
/// of the selected object alone (nothing else is handled that frame), or the click's
/// selection, the drag start's selection and the drag's move or resize.
pub open spec fn gesture_events(
    state: GestureState,
    frame: PointerFrame,
    selected: Option<SmartObjectId>,
) -> Seq<CanvasEvent> {
    if is_close_click(frame, selected) {
        created_events(frame) + seq![CanvasEvent::CloseObject(hit_id(frame))]
    } else {
        let (started, start_events) = drag_start(state, frame, selected);
        created_events(frame) + click_events(frame) + start_events + drag_events(started, frame)
    }
}

/// The drag state after a frame: unchanged by a close click; cleared when a drag ends;
/// otherwise as the drag start left it.
pub open spec fn gesture_next(
    state: GestureState,
    frame: PointerFrame,
    selected: Option<SmartObjectId>,
) -> GestureState {
    if is_close_click(frame, selected) {
        state
    } else if frame.drag_stopped {
        idle_gesture()
    } else {
        drag_start(state, frame, selected).0
    }
}

/// While Space is held the canvas only pans: a frame reports no events, and the drag
/// state changes only by a drag ending.
pub proof fn lemma_space_only_pans(
    state: GestureState,
    frame: PointerFrame,
    selected: Option<SmartObjectId>,
)
    requires
        frame.space_down,
    ensures
        gesture_events(state, frame, selected) == Seq::<CanvasEvent>::empty(),
        gesture_next(state, frame, selected) == (if frame.drag_stopped {
            idle_gesture()
        } else {
            state
        }),
{
    assert(gesture_events(state, frame, selected) =~= Seq::<CanvasEvent>::empty());
}

/// A drag that starts off the resize handles with an object under the pointer moves that
/// object and selects it, whichever object was selected before (a selected object not on
/// the canvas holds the start back). With no click or double-click in the frame, its
/// selection is the frame's first event.
pub proof fn lemma_drag_start_takes_the_hit_object(
    state: GestureState,
    frame: PointerFrame,
    selected: Option<SmartObjectId>,
    id: SmartObjectId,
    kind: ObjectKind,
)
    requires
        frame.drag_started,
        !frame.space_down,
        frame.pointer_world is Some,
        frame.hit == Some((id, kind)),
        !frame.on_resize_handle,
        selected is Some ==> frame.selected_on_canvas,
        !frame.clicked,
    ensures
        !frame.drag_stopped ==> gesture_next(state, frame, selected).dragging == Some(id),
        !frame.drag_stopped ==> gesture_next(state, frame, selected).resizing == state.resizing,
        !frame.double_clicked ==> gesture_events(state, frame, selected).len() >= 1
            && gesture_events(state, frame, selected)[0] == CanvasEvent::Selected(id),
{
    if !frame.double_clicked {
        let (started, start_events) = drag_start(state, frame, selected);
        assert(created_events(frame) =~= Seq::<CanvasEvent>::empty());
        assert(click_events(frame) =~= Seq::<CanvasEvent>::empty());
        assert(start_events == seq![CanvasEvent::Selected(id)]);
        assert(gesture_events(state, frame, selected) == created_events(frame) + click_events(frame)
            + start_events + drag_events(started, frame));
    }
}

/// A plain click (no double-click, no drag) on nothing clears the selection; on an object
/// it selects that object and then invokes it if it is an Agent or activates it if it is a
/// Link, unless it lands in the close box of the selected object, which only asks to close
/// it. The drag state stays as it was.
pub proof fn lemma_click_events(
    state: GestureState,
    frame: PointerFrame,
    selected: Option<SmartObjectId>,
)
    requires
        frame.clicked,
        !frame.space_down,
        frame.pointer_world is Some,
        !frame.double_clicked,
        !frame.drag_started,
        !frame.dragged,
        !frame.drag_stopped,
    ensures
        gesture_next(state, frame, selected) == state,
        frame.hit is None ==> gesture_events(state, frame, selected) == seq![CanvasEvent::Deselected],
        frame.hit matches Some((id, kind)) ==> gesture_events(state, frame, selected) == (if selected
            == Some(id) && frame.in_close_box {
            seq![CanvasEvent::CloseObject(id)]
        } else if kind == ObjectKind::Agent {
            seq![CanvasEvent::Selected(id), CanvasEvent::AgentInvoke(id)]
        } else if kind == ObjectKind::Link {
            seq![CanvasEvent::Selected(id), CanvasEvent::LinkActivate(id)]
        } else {
            seq![CanvasEvent::Selected(id)]
        }),
{
    assert(created_events(frame) =~= Seq::<CanvasEvent>::empty());
    assert(drag_events(drag_start(state, frame, selected).0, frame) =~= Seq::<CanvasEvent>::empty());
    assert(gesture_events(state, frame, selected) =~= (if is_close_click(frame, selected) {
        seq![CanvasEvent::CloseObject(hit_id(frame))]
    } else {
        click_events(frame)
    }));
}

/// A double-click alone puts a Note where the pointer is.
pub proof fn lemma_double_click_creates_note(
    state: GestureState,
    frame: PointerFrame,
    selected: Option<SmartObjectId>,
)
    requires
        frame.double_clicked,
        !frame.space_down,
        frame.pointer_world is Some,
        !frame.clicked,
        !frame.drag_started,
        !frame.dragged,
    ensures
        gesture_events(state, frame, selected) == seq![
            CanvasEvent::Created { kind: ObjectKind::Note, at: frame.pointer_world->0 },
        ],
{
    assert(gesture_events(state, frame, selected) =~= seq![
        CanvasEvent::Created { kind: ObjectKind::Note, at: frame.pointer_world->0 },
    ]);
}

/// A drag that starts on a resize handle of the selected object (on the canvas) resizes
/// that object and selects it; without a click in the frame the selection comes first.
pub proof fn lemma_drag_start_on_handle_resizes_selected(
    state: GestureState,
    frame: PointerFrame,
    sel: SmartObjectId,
)
    requires
        frame.drag_started,
        !frame.space_down,
        frame.pointer_world is Some,
        frame.selected_on_canvas,
        frame.on_resize_handle,
        !frame.clicked,
    ensures
        !frame.drag_stopped ==> gesture_next(state, frame, Some(sel)).resizing == Some(sel),
        !frame.drag_stopped ==> gesture_next(state, frame, Some(sel)).dragging == state.dragging,
        !frame.double_clicked ==> gesture_events(state, frame, Some(sel)).len() >= 1
            && gesture_events(state, frame, Some(sel))[0] == CanvasEvent::Selected(sel),
{
    if !frame.double_clicked {
        let (started, start_events) = drag_start(state, frame, Some(sel));
        assert(created_events(frame) =~= Seq::<CanvasEvent>::empty());
        assert(click_events(frame) =~= Seq::<CanvasEvent>::empty());
        assert(start_events == seq![CanvasEvent::Selected(sel)]);
        assert(gesture_events(state, frame, Some(sel)) == created_events(frame) + click_events(frame)
            + start_events + drag_events(started, frame));
    }
}

/// During a drag (no click, no new start) a resize under way reports the object's new
/// rectangle, else a move under way reports its new position; the end of a drag (outside
/// a close click) forgets both.
pub proof fn lemma_drag_reports_and_stop_resets(
    state: GestureState,
    frame: PointerFrame,
    selected: Option<SmartObjectId>,
)
    requires
        !frame.clicked,
        !frame.double_clicked,
        !frame.drag_started,
    ensures
        frame.drag_stopped ==> gesture_next(state, frame, selected) == idle_gesture(),
        !frame.drag_stopped ==> gesture_next(state, frame, selected) == state,
        frame.dragged && !frame.space_down ==> (state.resizing matches Some(id) ==> (
        frame.resized matches Some((position, size)) ==> gesture_events(state, frame, selected)
            == seq![CanvasEvent::Resized { id, position, size }])),
        frame.dragged && !frame.space_down && state.resizing is None ==> (state.dragging matches Some(
            id,
        ) ==> (frame.drag_to matches Some(to) ==> gesture_events(state, frame, selected) == seq![
            CanvasEvent::Moved { id, to },
        ])),
{
    assert(gesture_events(state, frame, selected) =~= drag_events(state, frame));
}

/// Decides what a frame of pointer input does on the canvas: the events to apply and the
/// drag state for the next frame.
#[verifier::spinoff_prover]
#[verifier::rlimit(40)]
pub fn canvas_gesture(
    state: &mut GestureState,
    frame: &PointerFrame,
    selected: Option<SmartObjectId>,
) -> (events: Vec<CanvasEvent>)
    ensures
        events@ == gesture_events(*old(state), *frame, selected),
        *final(state) == gesture_next(*old(state), *frame, selected),
{
    let mut events: Vec<CanvasEvent> = Vec::new();
    let active = !frame.space_down && frame.pointer_world.is_some();
    if frame.double_clicked && active {
        match frame.pointer_world {
            Some(at) => events.push(CanvasEvent::Created { kind: ObjectKind::Note, at }),
            None => {},
        }
    }
    assert(events@ == created_events(*frame));
    if frame.clicked && active {
        match frame.hit {
            Some((id, kind)) => {
                let on_selected = match selected {
                    Some(sel) => sel == id,
                    None => false,
                };
                if on_selected && frame.in_close_box {
                    events.push(CanvasEvent::CloseObject(id));
                    return events;
                }
                events.push(CanvasEvent::Selected(id));
                match kind {
                    ObjectKind::Agent => events.push(CanvasEvent::AgentInvoke(id)),
                    ObjectKind::Link => events.push(CanvasEvent::LinkActivate(id)),
                    _ => {},
                }
            },
            None => events.push(CanvasEvent::Deselected),
        }
    }
    assert(!is_close_click(*frame, selected));
    assert(events@ == created_events(*frame) + click_events(*frame));
    let ghost before_start = events@;
    if frame.drag_started && active {
        match selected {
            Some(sel) => {
                if frame.selected_on_canvas {
                    if frame.on_resize_handle {
                        state.resizing = Some(sel);
                        events.push(CanvasEvent::Selected(sel));
                    } else {
                        match frame.hit {
                            Some((id, _)) => {
                                state.dragging = Some(id);
                                events.push(CanvasEvent::Selected(id));
                            },
                            None => {},
                        }
                    }
                }
            },
            None => {
                match frame.hit {
                    Some((id, _)) => {
                        state.dragging = Some(id);
                        events.push(CanvasEvent::Selected(id));
                    },
                    None => {},
                }
            },
        }
    }
    assert(*state == drag_start(*old(state), *frame, selected).0);
    assert(events@ == before_start + drag_start(*old(state), *frame, selected).1);
    let ghost before_drag = events@;
    if frame.dragged && !frame.space_down {
        match state.resizing {
            Some(id) => {
                match frame.resized {
                    Some((position, size)) => events.push(CanvasEvent::Resized { id, position, size }),
                    None => {},
                }
            },
            None => {
                match state.dragging {
                    Some(id) => {
                        match frame.drag_to {
                            Some(to) => events.push(CanvasEvent::Moved { id, to }),
                            None => {},
                        }
                    },
                    None => {},
                }
            },
        }
    }
    assert(events@ == before_drag + drag_events(*state, *frame));
    if frame.drag_stopped {
        state.dragging = None;
        state.resizing = None;
    }
    events
}

} // verus!
