use hyperspace::canvas::CanvasEvent;
use hyperspace::geometry::{WorldPoint, WorldSize};
use hyperspace::gesture::{canvas_gesture, GestureState, PointerFrame};
use hyperspace::object::ObjectKind;

fn at(x: f32, y: f32) -> WorldPoint {
    WorldPoint { x: x.to_bits(), y: y.to_bits() }
}

fn quiet() -> PointerFrame {
    PointerFrame {
        clicked: false,
        double_clicked: false,
        drag_started: false,
        dragged: false,
        drag_stopped: false,
        space_down: false,
        pointer_world: Some(at(20.0, 40.0)),
        hit: None,
        in_close_box: false,
        selected_on_canvas: false,
        on_resize_handle: false,
        resized: None,
        drag_to: None,
    }
}

fn idle() -> GestureState {
    GestureState { dragging: None, resizing: None }
}

#[test]
fn click_on_nothing_deselects() {
    let mut state = idle();
    let events = canvas_gesture(&mut state, &PointerFrame { clicked: true, ..quiet() }, Some(3));
    assert_eq!(events.len(), 1);
    assert!(matches!(events[0], CanvasEvent::Deselected));
}

#[test]
fn click_selects_then_invokes_agents_and_activates_links() {
    let mut state = idle();
    let agent = PointerFrame { clicked: true, hit: Some((7, ObjectKind::Agent)), ..quiet() };
    let events = canvas_gesture(&mut state, &agent, None);
    assert_eq!(events.len(), 2);
    assert!(matches!(events[0], CanvasEvent::Selected(7)));
    assert!(matches!(events[1], CanvasEvent::AgentInvoke(7)));

    let link = PointerFrame { clicked: true, hit: Some((8, ObjectKind::Link)), ..quiet() };
    let events = canvas_gesture(&mut state, &link, None);
    assert!(matches!(events[..], [CanvasEvent::Selected(8), CanvasEvent::LinkActivate(8)]));

    let note = PointerFrame { clicked: true, hit: Some((9, ObjectKind::Note)), ..quiet() };
    let events = canvas_gesture(&mut state, &note, None);
    assert!(matches!(events[..], [CanvasEvent::Selected(9)]));
}

#[test]
fn close_box_of_the_selected_object_only_closes() {
    let mut state = GestureState { dragging: Some(1), resizing: None };
    let frame = PointerFrame {
        clicked: true,
        drag_stopped: true,
        hit: Some((7, ObjectKind::Agent)),
        in_close_box: true,
        ..quiet()
    };
    let events = canvas_gesture(&mut state, &frame, Some(7));
    assert!(matches!(events[..], [CanvasEvent::CloseObject(7)]));
    // Nothing else is handled that frame, not even the end of the drag.
    assert_eq!(state.dragging, Some(1));

    // The close box of an object that is not selected just selects it.
    let events = canvas_gesture(&mut idle(), &frame, Some(2));
    assert!(matches!(events[..], [CanvasEvent::Selected(7), CanvasEvent::AgentInvoke(7)]));
}

#[test]
fn double_click_creates_a_note_at_the_pointer() {
    let mut state = idle();
    let events = canvas_gesture(&mut state, &PointerFrame { double_clicked: true, ..quiet() }, None);
    assert_eq!(events.len(), 1);
    match events[0] {
        CanvasEvent::Created { kind, at: p } => {
            assert_eq!(kind, ObjectKind::Note);
            assert_eq!(f32::from_bits(p.x), 20.0);
            assert_eq!(f32::from_bits(p.y), 40.0);
        }
        _ => panic!("expected a created note"),
    }
}

#[test]
fn drag_moves_the_object_under_the_pointer() {
    let mut state = idle();
    let start = PointerFrame {
        drag_started: true,
        dragged: true,
        hit: Some((4, ObjectKind::Folder)),
        drag_to: Some(at(100.0, 60.0)),
        ..quiet()
    };
    let events = canvas_gesture(&mut state, &start, None);
    assert_eq!(state.dragging, Some(4));
    assert_eq!(state.resizing, None);
    assert!(matches!(events[..], [CanvasEvent::Selected(4), CanvasEvent::Moved { id: 4, .. }]));

    let drag = PointerFrame { dragged: true, drag_to: Some(at(120.0, 60.0)), ..quiet() };
    let events = canvas_gesture(&mut state, &drag, None);
    match events[..] {
        [CanvasEvent::Moved { id: 4, to }] => assert_eq!(f32::from_bits(to.x), 120.0),
        _ => panic!("expected a move"),
    }

    let stop = PointerFrame { drag_stopped: true, ..quiet() };
    let events = canvas_gesture(&mut state, &stop, None);
    assert!(events.is_empty());
    assert_eq!(state.dragging, None);
}

#[test]
fn drag_on_a_handle_of_the_selected_object_resizes_it() {
    let mut state = idle();
    let start = PointerFrame {
        drag_started: true,
        hit: Some((9, ObjectKind::Note)),
        selected_on_canvas: true,
        on_resize_handle: true,
        ..quiet()
    };
    let events = canvas_gesture(&mut state, &start, Some(5));
    assert_eq!(state.resizing, Some(5));
    assert_eq!(state.dragging, None);
    assert!(matches!(events[..], [CanvasEvent::Selected(5)]));

    let size = WorldSize { width: 300.0f32.to_bits(), height: 200.0f32.to_bits() };
    let drag = PointerFrame { dragged: true, resized: Some((at(0.0, 0.0), size)), drag_to: Some(at(1.0, 1.0)), ..quiet() };
    let events = canvas_gesture(&mut state, &drag, Some(5));
    match events[..] {
        [CanvasEvent::Resized { id: 5, size: s, .. }] => assert_eq!(f32::from_bits(s.width), 300.0),
        _ => panic!("expected a resize"),
    }
}

#[test]
fn drag_start_waits_while_the_selected_object_is_elsewhere() {
    let mut state = idle();
    let start = PointerFrame { drag_started: true, hit: Some((9, ObjectKind::Note)), ..quiet() };
    let events = canvas_gesture(&mut state, &start, Some(5));
    assert!(events.is_empty());
    assert_eq!(state.dragging, None);
}

#[test]
fn space_held_only_pans() {
    let mut state = GestureState { dragging: Some(2), resizing: None };
    let frame = PointerFrame {
        clicked: true,
        double_clicked: true,
        drag_started: true,
        dragged: true,
        space_down: true,
        hit: Some((2, ObjectKind::Agent)),
        drag_to: Some(at(5.0, 5.0)),
        ..quiet()
    };
    let events = canvas_gesture(&mut state, &frame, None);
    assert!(events.is_empty());
    assert_eq!(state.dragging, Some(2));
    let events = canvas_gesture(&mut state, &PointerFrame { drag_stopped: true, ..frame }, None);
    assert!(events.is_empty());
    assert_eq!(state.dragging, None);
}
