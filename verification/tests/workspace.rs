use hyperspace::dimension::{Dimension, DEMO_OBJECT_COUNT};
use hyperspace::error::HyperspaceError;
use hyperspace::geometry::{Viewport, WorldPoint, F32_ONE};
use hyperspace::object::{default_size, ObjectKind, SmartObject};
use hyperspace::path::HyperspacePath;
use hyperspace::state::HyperspaceState;
use hyperspace::store::{InMemoryObjectStore, ObjectStore};
use hyperspace::workspace::JsonWorkspaceStore;

fn at(x: f32, y: f32) -> WorldPoint {
    WorldPoint { x: x.to_bits(), y: y.to_bits() }
}

#[test]
fn kinds_have_labels_accents_symbols_and_sizes() {
    assert_eq!(ObjectKind::Note.label(), "Note");
    assert_eq!(ObjectKind::Link.label(), "Link");
    assert_eq!(ObjectKind::Note.accent(), [255, 196, 86]);
    assert_eq!(ObjectKind::Agent.accent(), [192, 132, 252]);
    assert_eq!(ObjectKind::Folder.symbol(), "📁");
    assert_eq!(ObjectKind::Link.symbol(), "🌀");
    let sizes = [
        (ObjectKind::Note, 280.0f32, 180.0f32),
        (ObjectKind::App, 240.0, 160.0),
        (ObjectKind::Folder, 220.0, 140.0),
        (ObjectKind::Agent, 260.0, 190.0),
        (ObjectKind::Link, 200.0, 120.0),
    ];
    for (kind, w, h) in sizes {
        let size = default_size(kind);
        assert_eq!(f32::from_bits(size.width), w);
        assert_eq!(f32::from_bits(size.height), h);
    }
}

#[test]
fn new_objects_get_random_v4_ids() {
    let a = SmartObject::note("a".to_string(), at(1.0, 2.0));
    let b = SmartObject::note("a".to_string(), at(1.0, 2.0));
    assert_ne!(a.id, b.id);
    let text = uuid::Uuid::from_u128(a.id);
    assert_eq!(text.get_version_num(), 4);
    assert_eq!(a.body, "");
    assert_eq!(f32::from_bits(a.position.y), 2.0);
    assert!(a.link_target.is_none());
    let b = b.with_body("hello".to_string());
    assert_eq!(b.body, "hello");
    assert_eq!(b.title, "a");
}

#[test]
fn default_viewport_is_identity() {
    let v = Viewport::default();
    assert_eq!(f32::from_bits(v.pan_x), 0.0);
    assert_eq!(f32::from_bits(v.pan_y), 0.0);
    assert_eq!(f32::from_bits(v.zoom), 1.0);
    assert_eq!(v.zoom, F32_ONE);
}

#[test]
fn demo_dimension_holds_six_objects() {
    let d = Dimension::demo("Home".to_string(), (5.0f32.to_bits(), (-3.0f32).to_bits()));
    assert_eq!(d.objects.len(), DEMO_OBJECT_COUNT);
    assert_eq!(d.name, "Home");
    assert_eq!(f32::from_bits(d.viewport.pan_x), 5.0);
    assert_eq!(f32::from_bits(d.viewport.pan_y), -3.0);
    assert_eq!(d.objects[0].title, "Welcome to OS/3 Hyperspace");
    assert_eq!(d.objects[4].kind, ObjectKind::Link);
    assert_eq!(f32::from_bits(d.objects[5].position.x), 920.0);
    assert_eq!(f32::from_bits(d.objects[2].position.y), 180.0);
    assert!(d.objects[2].body.starts_with("main@HYPERION-7X"));
}

#[test]
fn demo_state_has_home_active() {
    let state = HyperspaceState::with_demo_content();
    assert_eq!(state.dimensions.len(), 2);
    assert_eq!(state.active_dimension().unwrap().name, "Home");
    assert_eq!(state.dimensions[1].name, "Work");
    assert_eq!(f32::from_bits(state.dimensions[1].viewport.pan_x), 1200.0);
    assert_eq!(f32::from_bits(state.dimensions[1].viewport.pan_y), -400.0);
}

#[test]
fn demo_link_to_work_is_pre_wired() {
    let state = HyperspaceState::with_demo_content();
    let link = &state.dimensions[0].objects[4];
    assert_eq!(link.title, "Link to Work");
    assert_eq!(link.kind, ObjectKind::Link);
    assert_eq!(link.link_target, Some(state.dimensions[1].id));
    assert!(state.dimensions[1].objects.iter().all(|o| o.link_target.is_none()));
    assert!(state.dimensions[0].objects.iter().filter(|o| o.link_target.is_some()).count() == 1);
}

#[test]
fn added_dimension_becomes_active() {
    let mut state = HyperspaceState::with_demo_content();
    let id = state.add_dimension("Lab".to_string());
    assert_eq!(state.dimensions.len(), 3);
    assert_eq!(state.active_dimension, id);
    let active = state.active_dimension().unwrap();
    assert_eq!(active.name, "Lab");
    assert!(active.objects.is_empty());
    assert!(state.dimension_by_id(id).is_some());
    assert!(state.dimension_by_id(12345).is_none());
}

#[test]
fn remove_object_reports_and_removes() {
    let mut state = HyperspaceState::with_demo_content();
    let home = state.dimensions[0].id;
    let target = state.dimensions[0].objects[2].id;
    assert!(state.remove_object(home, target));
    assert_eq!(state.dimensions[0].objects.len(), 5);
    assert!(state.dimensions[0].objects.iter().all(|o| o.id != target));
    assert!(!state.remove_object(home, target));
    assert!(!state.remove_object(999, target));
    assert_eq!(state.dimensions[1].objects.len(), 6);
}

#[test]
fn find_object_mut_edits_in_place() {
    let mut state = HyperspaceState::with_demo_content();
    let work = state.dimensions[1].id;
    let target = state.dimensions[1].objects[1].id;
    {
        let object = state.find_object_mut(work, target).unwrap();
        object.title = "Renamed".to_string();
    }
    assert_eq!(state.dimensions[1].objects[1].title, "Renamed");
    assert!(state.find_object_mut(work, 7).is_none());
    let dim = state.active_dimension_mut().unwrap();
    dim.name = "Base".to_string();
    assert_eq!(state.dimensions[0].name, "Base");
    assert!(state.dimension_by_id_mut(8).is_none());
}

#[test]
fn store_lists_what_was_synced() {
    let state = HyperspaceState::with_demo_content();
    let mut store = InMemoryObjectStore::from_state(&state);
    let home = &state.dimensions[0];
    let listed = store.list_active(home.id).unwrap();
    assert_eq!(listed.len(), 6);
    for object in &home.objects {
        let record = listed.iter().find(|r| r.object.id == object.id).unwrap();
        assert_eq!(record.dimension_id, home.id);
        assert_eq!(record.object.title, object.title);
    }
    assert!(store.list_active(42).unwrap().is_empty());

    let mut smaller = home.clone();
    smaller.objects.truncate(2);
    assert_eq!(store.sync_dimension(&smaller).unwrap(), 2);
    assert_eq!(store.list_active(home.id).unwrap().len(), 2);
}

#[test]
fn store_keeps_one_record_per_object_id() {
    let mut d = Dimension::new("d".to_string());
    let o = SmartObject::note("first".to_string(), at(0.0, 0.0));
    let mut again = o.clone();
    again.title = "second".to_string();
    d.objects.push(o);
    d.objects.push(again);
    let mut store = InMemoryObjectStore::new();
    assert_eq!(store.sync_dimension(&d).unwrap(), 2);
    let listed = store.list_active(d.id).unwrap();
    assert_eq!(listed.len(), 1);
    assert_eq!(listed[0].object.title, "second");
}

#[test]
fn path_text_names_dimension_and_segments() {
    let id = uuid::Uuid::parse_str("67e55044-10b1-426f-9247-bb680e5fe0c8").unwrap().as_u128();
    let root = HyperspacePath::root(id);
    assert_eq!(root.to_string(), "hs://67e55044-10b1-426f-9247-bb680e5fe0c8/");
    let deeper = root.push("projects".to_string()).push("alpha".to_string());
    assert_eq!(deeper.to_string(), "hs://67e55044-10b1-426f-9247-bb680e5fe0c8/projects/alpha/");
    assert_eq!(deeper.segments.len(), 3);
    let slash = HyperspacePath::root(0).push("/".to_string());
    assert_eq!(slash.to_string(), "hs://00000000-0000-0000-0000-000000000000/");
}

#[test]
fn failed_load_falls_back_to_demo() {
    let fresh = JsonWorkspaceStore::state_or_demo(Err(HyperspaceError::Filesystem("missing".to_string())));
    assert_eq!(fresh.dimensions.len(), 2);
    let mut loaded = HyperspaceState::with_demo_content();
    loaded.dimensions.pop();
    let kept = JsonWorkspaceStore::state_or_demo(Ok(loaded));
    assert_eq!(kept.dimensions.len(), 1);
    let store = JsonWorkspaceStore::new(std::path::PathBuf::from("a/workspace.json"));
    assert_eq!(store.path(), std::path::Path::new("a/workspace.json"));
}

#[test]
fn load_or_default_creates_fresh_state_when_missing() {
    let path = std::path::PathBuf::from("definitely-not-a-real-workspace-file.json");
    let store = JsonWorkspaceStore::new(path);
    // Reading the missing file fails; that failure is what the store decides on.
    let missing = Err(HyperspaceError::Filesystem(format!("{} not found", store.path().display())));
    let state = JsonWorkspaceStore::state_or_demo(missing);
    assert_eq!(state.dimensions.len(), 2);
}
