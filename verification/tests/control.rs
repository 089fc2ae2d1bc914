use crossdesk::capture::CaptureEvent;
use crossdesk::client::{ClientState, Target};
use crossdesk::control::{
    auto_arrange, forget_device, move_device, not_hosting, persist_layout, regenerate_code,
    replace_code, set_accepting, set_clipboard, set_device_name, snap_layout, snapshot, target_for, ui_tick,
    Role,
};
use crossdesk::crypto::RandomError;
use crossdesk::host::{Action, HostState};
use crossdesk::permission::Access;
use crossdesk::platform::Os;
use crossdesk::protocol::{id_to_hex, ClientMsg, DeviceInfo, Display, HostMsg};
use crossdesk::settings::Settings;
use crossdesk::transport::{AuthMode, ClientIntent};

fn screen(w: u32, h: u32) -> Display {
    Display {
        id: 0,
        name: "screen".into(),
        x: 0,
        y: 0,
        width: w,
        height: h,
        scale_bits: 1.0f32.to_bits(),
        primary: true,
    }
}

fn fresh() -> Settings {
    Settings::fresh(&[1u8; 16], "host".into(), "123456".into())
}

fn hex(n: u8) -> String {
    id_to_hex(&[n; 16])
}

fn hosting() -> HostState {
    let mut state = HostState::new(fresh(), vec![screen(1920, 1080)], Some((100, 100)));
    for (n, name) in [(2u8, "beta"), (3, "alpha")] {
        state.join(DeviceInfo {
            id: [n; 16],
            name: name.into(),
            os: "Linux".into(),
            displays: vec![screen(1280, 720)],
        });
    }
    state
}

#[test]
fn an_idle_snapshot_shows_the_settings() {
    let settings = fresh();
    let view = snapshot(Role::Idle(&settings), Os::Other, Access::NotNeeded, vec![screen(1, 1)]);
    assert_eq!(view.role, "idle");
    assert_eq!(view.device_name, "host");
    assert_eq!(view.device_id, hex(1));
    assert_eq!(view.pairing_code, "123456");
    assert_eq!(view.port, 47810);
    assert!(!view.can_host && !view.accepting);
    assert!(view.layout.is_none() && view.peers.is_empty() && view.connection.is_none());
    assert_eq!(view.displays.len(), 1);
}

#[test]
fn a_hosts_snapshot_lists_peers_by_name() {
    let mut state = hosting();
    state.settings.pairing_code = "654321".into();
    let view = snapshot(Role::Host(&state), Os::Windows, Access::NotNeeded, vec![]);
    assert_eq!(view.role, "host");
    assert!(view.can_host && view.accepting);
    assert_eq!(view.pairing_code, "654321");
    let names: Vec<&str> = view.peers.iter().map(|p| p.name.as_str()).collect();
    assert_eq!(names, vec!["alpha", "beta"]);
    assert_eq!(view.peers[0].id, hex(3));
    assert_eq!(view.layout.unwrap().devices.len(), 3);
}

#[test]
fn a_clients_snapshot_carries_its_status() {
    let target = target_for(" 10.0.0.1 ", None, None, None).unwrap();
    let mut state = ClientState::new(fresh(), &target);
    state.set_error("nobody home".into());
    let view = snapshot(Role::Client(&state), Os::MacOs, Access::Denied, vec![]);
    assert_eq!(view.role, "client");
    assert_eq!(view.input_access, Access::Denied);
    let status = view.connection.unwrap();
    assert_eq!(status.message, "nobody home");
    assert_eq!(status.address, "10.0.0.1:47810");
    assert_eq!(status.attempts, 1);
}

#[test]
fn a_target_needs_an_address() {
    assert_eq!(
        target_for("  ", Some(5), None, None).unwrap_err(),
        "enter the host's address, or pick it from the list"
    );
    let t: Target = target_for("host ", Some(5), Some("ab".into()), Some("12".into())).unwrap();
    assert_eq!((t.address.as_str(), t.port), ("host", 5));
    assert_eq!((t.host_id.as_deref(), t.code.as_deref()), (Some("ab"), Some("12")));
}

#[test]
fn devices_can_be_dragged_but_not_the_host() {
    let mut state = hosting();
    assert_eq!(move_device(&mut state, &hex(2), -50, 60), Ok(()));
    assert_eq!(state.wall.devices[1].offset, (-50, 60));
    assert_eq!(
        move_device(&mut state, &hex(1), 1, 1),
        Err("the host stays where it is; drag the other devices".to_string())
    );
    assert_eq!(move_device(&mut state, "zz", 1, 1), Err("no such device".to_string()));
    assert_eq!(not_hosting(), "the layout only applies while hosting");
}

#[test]
fn the_layout_is_written_down() {
    let mut state = hosting();
    move_device(&mut state, &hex(2), -50, 60).unwrap();
    let actions = persist_layout(&mut state);
    assert!(matches!(actions[..], [Action::SaveSettings, Action::MarkDirty]));
    assert_eq!(state.settings.layout.get(&hex(2)), Some(&(-50, 60)));
    assert_eq!(state.settings.layout.get(&hex(3)), Some(&state.wall.devices[2].offset));
    assert_eq!(state.settings.layout.get(&hex(1)), None);
}

#[test]
fn snapping_and_arranging_are_written_down() {
    let mut state = hosting();
    move_device(&mut state, &hex(2), 1970, 60).unwrap();
    move_device(&mut state, &hex(3), 9000, 9000).unwrap();
    assert!(state.wall.may_snap(120));
    snap_layout(&mut state);
    assert_eq!(state.settings.layout.get(&hex(2)), Some(&(1920, 0)));
    assert!(state.wall.may_arrange());
    auto_arrange(&mut state);
    assert_eq!(state.settings.layout.get(&hex(2)), Some(&(1920, 180)));
    assert_eq!(state.settings.layout.get(&hex(3)), Some(&(3200, 180)));
}

#[test]
fn a_forgotten_device_is_gone_for_good() {
    let mut state = hosting();
    state.settings.paired_clients.insert(hex(2), [1u8; 32]);
    state.settings.paired_hosts.insert(hex(2), [2u8; 32]);
    persist_layout(&mut state);
    state.on_capture(CaptureEvent::MotionAbs { x: 1919, y: 500 });
    state.on_capture(CaptureEvent::Motion { dx: 5, dy: 0 });
    assert!(!state.wall.is_local());
    let actions = forget_device(&mut state, &hex(2));
    assert!(matches!(
        &actions[..],
        [
            Action::Send { .. },
            Action::Send { msg: HostMsg::Leave, .. },
            Action::Warp { .. },
            Action::Suppress { on: false },
            Action::MarkDirty,
            Action::Send { msg: HostMsg::Bye { reason }, .. },
            Action::SaveSettings,
            Action::MarkDirty,
        ] if reason == "unpaired by the host"
    ));
    assert!(state.wall.is_local());
    assert_eq!(state.wall.devices.len(), 2);
    assert!(state.settings.paired_clients.get(&hex(2)).is_none());
    assert!(state.settings.paired_hosts.get(&hex(2)).is_none());
    assert!(state.settings.layout.get(&hex(2)).is_none());
    assert!(state.settings.layout.get(&hex(3)).is_some());
    // Somebody unknown leaves nothing behind either.
    assert!(matches!(
        forget_device(&mut state, "nobody")[..],
        [Action::SaveSettings, Action::MarkDirty]
    ));
}

#[test]
fn settings_can_be_edited() {
    let mut s = fresh();
    assert!(!set_device_name(&mut s, "  "));
    assert_eq!(s.device_name, "host");
    assert!(set_device_name(&mut s, " desk "));
    assert_eq!(s.device_name, "desk");
    set_clipboard(&mut s, Some(false), None);
    assert!(!s.clipboard_sync && !s.clipboard_images);
    set_clipboard(&mut s, None, Some(true));
    assert!(!s.clipboard_sync && s.clipboard_images);
    regenerate_code(&mut s).unwrap();
    assert_eq!(s.pairing_code.len(), 6);
    let mut state = hosting();
    set_accepting(&mut state, false);
    assert!(!state.accepting);
}

#[test]
fn the_ui_hears_of_a_grant_by_itself() {
    assert_eq!(ui_tick(Access::Denied, Access::Granted, false), (Access::Granted, true));
    assert_eq!(ui_tick(Access::Denied, Access::Denied, false), (Access::Denied, false));
    assert_eq!(ui_tick(Access::NotNeeded, Access::Denied, false), (Access::NotNeeded, false));
    assert_eq!(ui_tick(Access::NotNeeded, Access::NotNeeded, true), (Access::NotNeeded, true));
}

#[test]
fn a_code_is_typed_once() {
    let mut host = HostState::new(fresh(), vec![screen(1920, 1080)], None);
    let here = Target {
        address: "10.0.0.1".into(),
        port: 47810,
        host_id: Some(hex(1)),
        code: Some("123 456".into()),
    };
    let own = Settings::fresh(&[2u8; 16], "laptop".into(), "999999".into());
    let mut client = ClientState::new(own, &here);
    assert!(matches!(client.credentials(&here)[..], [(AuthMode::Code, _)]));

    let intent = ClientIntent { device: [2u8; 16], mode: AuthMode::Code, client_public: [0; 32] };
    let hello = ClientMsg::Hello {
        device: client.hello("Linux".into(), vec![screen(1280, 720)]),
    };
    let (_, welcome, actions) =
        host.greet(&intent, hello, Some([7u8; 32]), "Windows".into()).unwrap();
    assert!(matches!(actions[..], [Action::SaveSettings]));
    client.on_welcome(welcome, &here).unwrap();

    // From now on the key comes first, and the host asks for the same one even
    // with the window closed and a new code.
    set_accepting(&mut host, false);
    regenerate_code(&mut host.settings).unwrap();
    assert_eq!(client.credentials(&here)[0], (AuthMode::Stored, [7u8; 32]));
    assert_eq!(host.auth_for(&hex(2), AuthMode::Stored), Some([7u8; 32]));
    assert_eq!(host.auth_for(&hex(2), AuthMode::Code), None);
}

#[test]
fn a_code_that_cannot_be_rolled_stays() {
    let mut settings = fresh();
    assert_eq!(replace_code(&mut settings, Err(RandomError)), Err(RandomError));
    assert_eq!(settings.pairing_code, "123456");
    assert_eq!(replace_code(&mut settings, Ok("654321".into())), Ok(()));
    assert_eq!(settings.pairing_code, "654321");
}
