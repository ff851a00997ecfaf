use lodestone_core::error::ErrorKind;
use lodestone_core::events::{CausedBy, Event, ProgressionEndValue, ProgressionStartValue};
use lodestone_core::instance::{
    abort_delete, finish_delete, plan_instance_setup, AppState, CreateDecision, CreatePlan,
};
use lodestone_core::permission::{UserAction, UserPermission};
use lodestone_core::ports::PortAllocator;
use lodestone_core::registry::{Flavour, State};

const ROOT: &str = "/srv/instances";

fn creator() -> UserPermission {
    let mut p = UserPermission::none();
    p.can_create_instance = true;
    p.can_delete_instance = true;
    p
}

fn id_with_prefix(prefix: u32, low: u128) -> u128 {
    ((prefix as u128) << 96) | low
}

/// Runs a whole successful creation and returns its plan.
fn create(state: &mut AppState, perm: &mut UserPermission, id: u128, name: &str, port: u32, t: i64) -> CreatePlan {
    let decision = state.create_instance(perm, id).unwrap();
    assert_eq!(decision, CreateDecision::Proceed(id));
    let plan = plan_instance_setup(id, name, port, Flavour::Vanilla, ROOT);
    let (_, event_id) = state.begin_provisioning(&plan, CausedBy::System);
    let out = state.finish_create(&plan, event_id, Ok(t), perm);
    assert!(out.registered);
    plan
}

#[test]
fn create_inspect_stop_delete_scenario() {
    let mut state = AppState::new();
    let mut perm = creator();
    let id = id_with_prefix(0xdeadbeef, 42);
    let plan = create(&mut state, &mut perm, id, "survival", 25565, 100);
    assert_eq!(plan.dir, "/srv/instances/survival-deadbeef");
    assert_eq!(plan.marker, "/srv/instances/survival-deadbeef/.lodestone_config");
    assert_eq!(plan.config.uuid, id);

    let info = state.get_instance_info(&perm, id).unwrap();
    assert_eq!(info.state, State::Stopped);
    assert_eq!(info.port, 25565);
    assert_eq!(info.flavour, Flavour::Vanilla);
    assert!(state.port_manager.is_reserved(25565));

    assert!(state.set_instance_state(id, State::Running));
    let err = state.delete_instance(&perm, id, CausedBy::System).unwrap_err();
    assert_eq!(err.kind, ErrorKind::BadRequest);
    assert_eq!(state.instances.len(), 1);
    assert!(state.port_manager.is_reserved(25565));

    assert!(state.set_instance_state(id, State::Stopped));
    let del = state.delete_instance(&perm, id, CausedBy::System).unwrap();
    assert_eq!(del.marker, plan.marker);
    assert_eq!(del.dir, plan.dir);
    state.commit_delete(&del);
    assert_eq!(state.instances.len(), 0);
    assert!(!state.port_manager.is_reserved(25565));
    assert!(state.get_instance_list(&perm).is_empty());
}

#[test]
fn creator_is_granted_access() {
    let mut state = AppState::new();
    let mut perm = creator();
    let id = id_with_prefix(1, 1);
    create(&mut state, &mut perm, id, "a", 25565, 1);
    for a in [
        UserAction::ViewInstance(id),
        UserAction::StartInstance(id),
        UserAction::StopInstance(id),
        UserAction::ReadInstanceFile(id),
        UserAction::WriteInstanceFile(id),
    ] {
        assert!(perm.can_perform_action(&a));
    }
    assert!(!perm.can_perform_action(&UserAction::ViewInstance(id + 1)));
}

#[test]
fn create_needs_permission() {
    let state = AppState::new();
    let err = state.create_instance(&UserPermission::none(), 5).unwrap_err();
    assert_eq!(err.kind, ErrorKind::Forbidden);
}

#[test]
fn create_regenerates_on_prefix_collision() {
    let mut state = AppState::new();
    let mut perm = creator();
    create(&mut state, &mut perm, id_with_prefix(0xabcdef01, 1), "a", 25565, 1);
    let d = state.create_instance(&perm, id_with_prefix(0xabcdef01, 2)).unwrap();
    assert_eq!(d, CreateDecision::Regenerate);
    let d = state.create_instance(&perm, id_with_prefix(0xabcdef02, 2)).unwrap();
    assert_eq!(d, CreateDecision::Proceed(id_with_prefix(0xabcdef02, 2)));
}

#[test]
fn concurrent_creates_with_one_prefix_register_once() {
    let mut state = AppState::new();
    let mut perm = creator();
    let a = id_with_prefix(7, 1);
    let b = id_with_prefix(7, 2);
    assert_eq!(state.create_instance(&perm, a).unwrap(), CreateDecision::Proceed(a));
    assert_eq!(state.create_instance(&perm, b).unwrap(), CreateDecision::Proceed(b));
    let pa = plan_instance_setup(a, "a", 1000, Flavour::Paper, ROOT);
    let pb = plan_instance_setup(b, "b", 1001, Flavour::Forge, ROOT);
    let (_, ea) = state.begin_provisioning(&pa, CausedBy::System);
    let (_, eb) = state.begin_provisioning(&pb, CausedBy::System);
    assert!(eb > ea);
    assert!(state.finish_create(&pa, ea, Ok(1), &mut perm).registered);
    let out = state.finish_create(&pb, eb, Ok(2), &mut perm);
    assert!(!out.registered);
    assert_eq!(state.instances.len(), 1);
    assert!(!state.port_manager.is_reserved(1001));
    assert!(!perm.can_perform_action(&UserAction::ViewInstance(b)));
}

#[test]
fn failed_provisioning_rolls_back() {
    let mut state = AppState::new();
    let mut perm = creator();
    let id = id_with_prefix(9, 9);
    let plan = plan_instance_setup(id, "broken", 25570, Flavour::Fabric, ROOT);
    let (start, event_id) = state.begin_provisioning(&plan, CausedBy::System);
    match start {
        Event::ProgressionStart { event_id: e, instance, payload, .. } => {
            assert_eq!(e, event_id);
            assert_eq!(instance, Some(id));
            match payload {
                Some(ProgressionStartValue::InstanceCreation { port, .. }) => assert_eq!(port, 25570),
                other => panic!("unexpected payload {:?}", other),
            }
        }
        other => panic!("unexpected event {:?}", other),
    }
    let out = state.finish_create(&plan, event_id, Err("download failed".to_string()), &mut perm);
    assert!(!out.registered);
    match out.end_event {
        Event::ProgressionEnd { event_id: e, success, message, payload } => {
            assert_eq!(e, event_id);
            assert!(!success);
            assert_eq!(message.unwrap(), "Instance creation failed: download failed");
            assert!(payload.is_none());
        }
        other => panic!("unexpected event {:?}", other),
    }
    assert_eq!(state.instances.len(), 0);
    assert!(!state.port_manager.is_reserved(25570));
    assert_eq!(state.get_instance_info(&perm, id).unwrap_err().kind, ErrorKind::NotFound);
}

#[test]
fn list_shows_only_viewable_in_creation_order() {
    let mut state = AppState::new();
    let mut perm = creator();
    let a = id_with_prefix(1, 0);
    let b = id_with_prefix(2, 0);
    let c = id_with_prefix(3, 0);
    create(&mut state, &mut perm, a, "a", 1, 30);
    create(&mut state, &mut perm, b, "b", 2, 10);
    create(&mut state, &mut perm, c, "c", 3, 20);
    let all: Vec<u128> = state.get_instance_list(&perm).iter().map(|i| i.uuid).collect();
    assert_eq!(all, vec![b, c, a]);

    let mut other = UserPermission::none();
    other.can_view_instance.push(a);
    other.can_view_instance.push(b);
    let some: Vec<u128> = state.get_instance_list(&other).iter().map(|i| i.uuid).collect();
    assert_eq!(some, vec![b, a]);
    assert!(state.get_instance_list(&UserPermission::none()).is_empty());
}

#[test]
fn info_errors() {
    let mut state = AppState::new();
    let mut perm = creator();
    let id = id_with_prefix(4, 4);
    create(&mut state, &mut perm, id, "a", 1, 1);
    assert_eq!(state.get_instance_info(&perm, id + 1).unwrap_err().kind, ErrorKind::NotFound);
    assert_eq!(
        state.get_instance_info(&UserPermission::none(), id).unwrap_err().kind,
        ErrorKind::Forbidden
    );
}

#[test]
fn delete_errors() {
    let mut state = AppState::new();
    let mut perm = creator();
    let id = id_with_prefix(5, 5);
    create(&mut state, &mut perm, id, "a", 1, 1);
    let next = state.event_ids.next;
    let err = state.delete_instance(&UserPermission::none(), id, CausedBy::System).unwrap_err();
    assert_eq!(err.kind, ErrorKind::Forbidden);
    let err = state.delete_instance(&perm, id + 1, CausedBy::System).unwrap_err();
    assert_eq!(err.kind, ErrorKind::NotFound);
    assert_eq!(state.event_ids.next, next);
    assert_eq!(state.instances.len(), 1);
}

#[test]
fn delete_events() {
    let mut state = AppState::new();
    let mut perm = creator();
    let id = id_with_prefix(6, 6);
    create(&mut state, &mut perm, id, "a", 1, 1);
    let caused_by = CausedBy::User { user_id: "u1".to_string(), user_name: "alice".to_string() };
    let plan = state.delete_instance(&perm, id, caused_by).unwrap();
    match &plan.start_event {
        Event::ProgressionStart { event_id, description, .. } => {
            assert_eq!(*event_id, plan.event_id);
            assert_eq!(description, "Deleting instance a");
        }
        other => panic!("unexpected event {:?}", other),
    }
    match abort_delete(&plan) {
        Event::ProgressionEnd { success, event_id, .. } => {
            assert!(!success);
            assert_eq!(event_id, plan.event_id);
        }
        other => panic!("unexpected event {:?}", other),
    }
    match finish_delete(&plan, Ok(())) {
        Event::ProgressionEnd { success, payload, .. } => {
            assert!(success);
            match payload {
                Some(ProgressionEndValue::InstanceDelete { instance_uuid }) => assert_eq!(instance_uuid, id),
                other => panic!("unexpected payload {:?}", other),
            }
        }
        other => panic!("unexpected event {:?}", other),
    }
    match finish_delete(&plan, Err("busy".to_string())) {
        Event::ProgressionEnd { success, payload, .. } => {
            assert!(!success);
            assert!(payload.is_none());
        }
        other => panic!("unexpected event {:?}", other),
    }
}

#[test]
fn file_requests() {
    let mut state = AppState::new();
    let mut perm = creator();
    let id = id_with_prefix(0x00c0ffee, 1);
    create(&mut state, &mut perm, id, "s", 1, 1);
    let root = "/srv/instances/s-00c0ffee";
    assert_eq!(state.read_instance_file(&perm, id, "logs/latest.log").unwrap(), format!("{}/logs/latest.log", root));
    assert_eq!(state.list_instance_files(&perm, id, "").unwrap(), root);
    assert_eq!(state.make_instance_directory(&perm, id, "world\\region").unwrap(), format!("{}/world/region", root));
    assert_eq!(state.write_instance_file(&perm, id, "server.properties").unwrap(), format!("{}/server.properties", root));
    assert_eq!(state.remove_instance_file(&perm, id, "old/notes.txt").unwrap(), format!("{}/old/notes.txt", root));

    for rel in ["server.jar", "start.sh", ".lodestone_config", "eula"] {
        assert_eq!(state.write_instance_file(&perm, id, rel).unwrap_err().kind, ErrorKind::ProtectedResource);
        assert_eq!(state.remove_instance_file(&perm, id, rel).unwrap_err().kind, ErrorKind::ProtectedResource);
    }
    assert_eq!(state.read_instance_file(&perm, id, "../x.txt").unwrap_err().kind, ErrorKind::MalformedPath);
    perm.grant_instance_access(id + 1);
    assert_eq!(state.read_instance_file(&perm, id + 1, "x.txt").unwrap_err().kind, ErrorKind::NotFound);
    let none = UserPermission::none();
    assert_eq!(state.read_instance_file(&none, id, "x.txt").unwrap_err().kind, ErrorKind::Forbidden);
    assert_eq!(state.write_instance_file(&none, id, "x.txt").unwrap_err().kind, ErrorKind::Forbidden);
    let mut reader = UserPermission::none();
    reader.can_read_instance_file.push(id);
    assert!(state.list_instance_files(&reader, id, "world").is_ok());
    assert_eq!(state.make_instance_directory(&reader, id, "w").unwrap_err().kind, ErrorKind::Forbidden);
}

#[test]
fn permission_forms_agree() {
    let mut p = UserPermission::none();
    assert_eq!(p.try_action(&UserAction::CreateInstance).unwrap_err().kind, ErrorKind::Forbidden);
    p.grant_instance_access(3);
    p.grant_instance_access(3);
    assert_eq!(p.can_view_instance, vec![3]);
    assert!(p.try_action(&UserAction::StopInstance(3)).is_ok());
    assert!(!p.can_perform_action(&UserAction::DeleteInstance));
}

#[test]
fn ports_are_claimed_and_released() {
    let mut ports = PortAllocator::new();
    ports.add_port(25565);
    ports.add_port(25565);
    ports.add_port(25566);
    assert!(ports.is_reserved(25565));
    ports.deallocate(25565);
    assert!(!ports.is_reserved(25565));
    assert!(ports.is_reserved(25566));
    ports.deallocate(1);
    assert!(ports.is_reserved(25566));
}
