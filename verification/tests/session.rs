use hyperspace::canvas::CanvasEvent;
use hyperspace::error::HyperspaceError;
use hyperspace::geometry::{WorldPoint, WorldSize};
use hyperspace::object::ObjectKind;
use hyperspace::shell::Session;
use hyperspace::state::HyperspaceState;
use hyperspace::store::ObjectStore;

fn at(x: f32, y: f32) -> WorldPoint {
    WorldPoint { x: x.to_bits(), y: y.to_bits() }
}

fn demo_session() -> Session {
    Session::new(HyperspaceState::with_demo_content(), "Loaded".to_string())
}

fn home_objects(session: &Session) -> usize {
    session.state.dimensions[0].objects.len()
}

#[test]
fn new_session_syncs_every_dimension() {
    let session = demo_session();
    assert_eq!(session.status, "Loaded");
    assert!(!session.dirty && session.show_hud && !session.pending_fit);
    for d in &session.state.dimensions {
        assert_eq!(session.store.list_active(d.id).unwrap().len(), 6);
    }
}

#[test]
fn create_dimension_uses_typed_or_numbered_name() {
    let mut session = demo_session();
    session.new_dimension_name = "  Lab  ".to_string();
    session.create_dimension();
    assert_eq!(session.status, "Created workspace 'Lab'");
    assert_eq!(session.state.active_dimension().unwrap().name, "Lab");
    assert!(session.new_dimension_name.is_empty());
    assert!(session.dirty);
    assert!(session.selected_object.is_none());
    session.new_dimension_name = "   ".to_string();
    session.create_dimension();
    assert_eq!(session.status, "Created workspace 'Dimension 4'");
    assert_eq!(session.state.dimensions.len(), 4);
    let active = session.active_dimension_id();
    assert!(session.store.list_active(active).unwrap().is_empty());
}

#[test]
fn switch_dimension_only_to_existing_ones() {
    let mut session = demo_session();
    let work = session.state.dimensions[1].id;
    session.selected_object = Some(1);
    session.switch_dimension(work);
    assert_eq!(session.active_dimension_id(), work);
    assert_eq!(session.status, "Switched to Work");
    assert!(session.selected_object.is_none());
    session.switch_dimension(77);
    assert_eq!(session.active_dimension_id(), work);
    assert_eq!(session.status, "Switched to Work");
}

#[test]
fn spawn_and_quick_note_add_selected_objects() {
    let mut session = demo_session();
    session.spawn_object(ObjectKind::Folder, at(40.0, 60.0));
    let home = &session.state.dimensions[0];
    let spawned = home.objects.last().unwrap();
    assert_eq!(spawned.title, "New Folder");
    assert_eq!(spawned.body, "Smart Object placeholder");
    assert_eq!(f32::from_bits(spawned.position.x), 40.0);
    assert_eq!(session.selected_object, Some(spawned.id));
    assert_eq!(session.status, "Created New Folder");
    assert!(session.dirty);
    assert_eq!(session.store.list_active(home.id).unwrap().len(), 7);

    session.status = "unchanged".to_string();
    session.quick_note(at(-100.0, 20.0));
    let note = session.state.dimensions[0].objects.last().unwrap();
    assert_eq!(note.title, "Quick Note");
    assert_eq!(note.body, "Created from dock");
    assert_eq!(note.kind, ObjectKind::Note);
    assert_eq!(session.status, "unchanged");
    assert_eq!(home_objects(&session), 8);
}

#[test]
fn delete_selected_removes_from_active_dimension() {
    let mut session = demo_session();
    assert!(!session.delete_selected());
    let target = session.state.dimensions[0].objects[1].id;
    session.selected_object = Some(target);
    assert!(session.delete_selected());
    assert_eq!(session.status, "Deleted object");
    assert_eq!(home_objects(&session), 5);
    assert!(session.selected_object.is_none());
    session.selected_object = Some(target);
    session.status = "before".to_string();
    assert!(!session.delete_selected());
    assert_eq!(session.status, "before");
}

#[test]
fn save_outcomes_are_reported() {
    let mut session = demo_session();
    session.mark_dirty();
    session.record_save(Err(HyperspaceError::Filesystem("denied".to_string())), "w.json".to_string());
    assert_eq!(session.status, "Save failed: filesystem error: denied");
    assert!(session.dirty);
    session.record_save(Ok(()), "w.json".to_string());
    assert_eq!(session.status, "Saved · w.json");
    assert!(!session.dirty);
}

#[test]
fn agent_and_store_reports() {
    let mut session = demo_session();
    session.ping_agent();
    assert_eq!(session.status, "Local agent runtime online (stub model)");
    session.ask_about_dimension();
    assert_eq!(
        session.status,
        "Hyperspace agent (stub): I received your request — \"Describe dimension 'Home'\". When the Redox-side runtime is wired up, this will run fully local."
    );
    session.sync_and_report();
    assert_eq!(session.status, "Synced 6 objects");
    session.clear_selection();
    assert_eq!(session.status, "Selection cleared");
}

#[test]
fn canvas_events_create_move_resize_and_select() {
    let mut session = demo_session();
    let first = session.state.dimensions[0].objects[0].id;
    let second = session.state.dimensions[0].objects[1].id;
    let events = vec![
        CanvasEvent::Created { kind: ObjectKind::Note, at: at(20.0, 40.0) },
        CanvasEvent::Resized {
            id: first,
            position: at(0.0, 0.0),
            size: WorldSize { width: 300.0f32.to_bits(), height: 200.0f32.to_bits() },
        },
        CanvasEvent::Moved { id: second, to: at(500.0, 520.0) },
        CanvasEvent::Selected(first),
    ];
    let outcome = session.handle_canvas_events(&events);
    assert_eq!(outcome.selected, Some(first));
    assert_eq!(outcome.status.as_deref(), Some("Moved Local Agent"));
    assert!(outcome.dirty);
    let objects = &session.state.dimensions[0].objects;
    assert_eq!(objects.len(), 7);
    assert_eq!(objects[6].title, "New Note");
    assert_eq!(f32::from_bits(objects[0].size.width), 300.0);
    assert_eq!(f32::from_bits(objects[1].position.y), 520.0);
    session.finish_canvas_events(outcome);
    assert_eq!(session.selected_object, Some(first));
    assert_eq!(session.status, "Moved Local Agent");
    assert!(session.dirty);
    let home = session.state.dimensions[0].id;
    assert_eq!(session.store.list_active(home).unwrap().len(), 7);
}

#[test]
fn canvas_selection_and_deselection_statuses() {
    let mut session = demo_session();
    let first = session.state.dimensions[0].objects[0].id;
    let outcome = session.handle_canvas_events(&vec![CanvasEvent::Selected(first)]);
    session.finish_canvas_events(outcome);
    assert_eq!(session.status, "Selected: Welcome to OS/3 Hyperspace");
    assert!(!session.dirty);
    let outcome = session.handle_canvas_events(&vec![CanvasEvent::Deselected]);
    session.finish_canvas_events(outcome);
    assert!(session.selected_object.is_none());
    assert_eq!(session.status, "Selected: Welcome to OS/3 Hyperspace");
}

#[test]
fn clicking_an_agent_asks_it_about_the_object() {
    let mut session = demo_session();
    let agent = session.state.dimensions[0].objects[1].id;
    let outcome = session.handle_canvas_events(&vec![
        CanvasEvent::Selected(agent),
        CanvasEvent::AgentInvoke(agent),
    ]);
    session.finish_canvas_events(outcome);
    assert_eq!(session.selected_object, Some(agent));
    assert!(session.status.starts_with(
        "Hyperspace agent (stub): I received your request — \"You are a local-first agent inside OS/3 Hyperspace. Respond briefly about object 'Local Agent'.\""
    ));
}

#[test]
fn links_navigate_only_with_a_target() {
    let mut session = demo_session();
    let link = session.state.dimensions[0].objects[4].id;
    let work = session.state.dimensions[1].id;
    let home = session.state.dimensions[0].id;
    session.state.find_object_mut(home, link).unwrap().link_target = None;
    let outcome = session.handle_canvas_events(&vec![CanvasEvent::LinkActivate(link)]);
    session.finish_canvas_events(outcome);
    assert_eq!(session.status, "Link has no target set (use Inspector)");
    session.state.find_object_mut(home, link).unwrap().link_target = Some(work);
    let outcome = session.handle_canvas_events(&vec![CanvasEvent::LinkActivate(link)]);
    assert_eq!(outcome.status.as_deref(), Some("Navigating via Link: Link to Work"));
    session.finish_canvas_events(outcome);
    assert_eq!(session.active_dimension_id(), work);
    assert_eq!(session.status, "Switched to Work");
    assert!(session.selected_object.is_none());
}

#[test]
fn close_button_removes_the_object() {
    let mut session = demo_session();
    let target = session.state.dimensions[0].objects[3].id;
    session.selected_object = Some(target);
    let outcome = session.handle_canvas_events(&vec![CanvasEvent::CloseObject(target)]);
    assert_eq!(outcome.status.as_deref(), Some("Closing object..."));
    session.finish_canvas_events(outcome);
    assert_eq!(session.status, "Closed object");
    assert!(session.selected_object.is_none());
    assert_eq!(home_objects(&session), 5);
    assert!(session.dirty);
}

#[test]
fn dimension_lists_for_tabs_and_link_targets() {
    let session = demo_session();
    let tabs = session.state.dimension_tabs();
    assert_eq!(tabs.len(), 2);
    assert_eq!(tabs[1].1, "Work");
    let others = session.state.other_dimensions();
    assert_eq!(others.len(), 1);
    assert_eq!(others[0].0, session.state.dimensions[1].id);
}
