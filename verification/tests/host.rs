use crossdesk::capture::CaptureEvent;
use crossdesk::crypto::{secret_from_code, RandomError};
use crossdesk::host::{
    closes_queue, key_given, may_greet, mint_key, Action, HostState, PeerStep,
};
use crossdesk::protocol::{
    id_to_hex, Button, Clip, ClientMsg, DeviceInfo, Display, HostMsg, InputEvent,
};
use crossdesk::settings::Settings;
use crossdesk::transport::{
    client_accept, client_finish, client_handshake, host_accept, AuthMode, ClientIntent,
    TransportError,
};

fn display(w: u32, h: u32) -> Display {
    Display {
        id: 0,
        name: "screen".into(),
        x: 0,
        y: 0,
        width: w,
        height: h,
        scale_bits: 1.0f32.to_bits(),
        primary: true,
    }
}

fn info(n: u8) -> DeviceInfo {
    DeviceInfo {
        id: [n; 16],
        name: format!("device {n}"),
        os: "Linux".into(),
        displays: vec![display(1280, 720)],
    }
}

fn hex(n: u8) -> String {
    id_to_hex(&[n; 16])
}

fn host() -> HostState {
    let settings = Settings::fresh(&[1u8; 16], "host".into(), "123456".into());
    HostState::new(settings, vec![display(1920, 1080)], Some((100, 100)))
}

/// A host with one connected client, the pointer just inside the right edge.
fn with_client() -> (HostState, u64) {
    let mut state = host();
    let (session, actions) = state.join(info(2));
    assert!(matches!(actions[..], [Action::MarkDirty]));
    state.on_capture(CaptureEvent::MotionAbs { x: 1919, y: 500 });
    (state, session)
}

fn away() -> (HostState, u64) {
    let (mut state, session) = with_client();
    state.on_capture(CaptureEvent::Motion { dx: 5, dy: 0 });
    assert!(!state.wall.is_local());
    (state, session)
}

#[test]
fn a_host_starts_alone_and_accepting() {
    let state = host();
    assert_eq!(state.wall.devices.len(), 1);
    assert_eq!(state.wall.devices[0].id, [1u8; 16]);
    assert_eq!(state.wall.owner_local(), (100, 100));
    assert!(state.accepting && state.clipboard && !state.stopping);
}

#[test]
fn crossing_out_suppresses_before_it_enters() {
    let (mut state, _) = with_client();
    let actions = state.on_capture(CaptureEvent::Motion { dx: 5, dy: 0 });
    assert!(matches!(
        &actions[..],
        [
            Action::Suppress { on: true },
            Action::Send { to, msg: HostMsg::Enter { x: 4, y: 320 } },
            Action::MarkDirty,
        ] if *to == hex(2)
    ));
}

#[test]
fn motion_at_home_is_left_to_the_system() {
    let (mut state, _) = with_client();
    assert!(state.on_capture(CaptureEvent::Motion { dx: -5, dy: 0 }).is_empty());
}

#[test]
fn motion_away_is_sent_in_remote_pixels() {
    let (mut state, _) = away();
    let actions = state.on_capture(CaptureEvent::Motion { dx: 6, dy: 1 });
    assert!(matches!(
        &actions[..],
        [Action::Send { to, msg: HostMsg::Input(InputEvent::MoveAbs { x: 10, y: 321 }) }]
            if *to == hex(2)
    ));
}

#[test]
fn coming_home_releases_then_warps_then_unsuppresses() {
    let (mut state, _) = away();
    let actions = state.on_capture(CaptureEvent::Motion { dx: -10, dy: 0 });
    assert!(matches!(
        &actions[..],
        [
            Action::Send { msg: HostMsg::Input(InputEvent::ReleaseAll), .. },
            Action::Send { msg: HostMsg::Leave, .. },
            Action::Warp { x: 1914, y: 500 },
            Action::Suppress { on: false },
            Action::MarkDirty,
        ]
    ));
}

#[test]
fn crossing_between_two_clients_releases_the_first() {
    let (mut state, _) = away();
    state.join(info(3));
    let actions = state.on_capture(CaptureEvent::Motion { dx: 1280, dy: 0 });
    assert!(matches!(
        &actions[..],
        [
            Action::Send { to: a, msg: HostMsg::Input(InputEvent::ReleaseAll) },
            Action::Send { to: b, msg: HostMsg::Leave },
            Action::Suppress { on: true },
            Action::Send { to: c, msg: HostMsg::Enter { x: 4, y: 320 } },
            Action::MarkDirty,
        ] if *a == hex(2) && *b == hex(2) && *c == hex(3)
    ));
}

#[test]
fn the_hotkey_brings_the_pointer_back() {
    let (mut state, _) = away();
    state.on_capture(CaptureEvent::Button { button: Button::Left, down: true });
    let actions = state.on_capture(CaptureEvent::Escape);
    assert!(matches!(
        &actions[..],
        [
            Action::Send { msg: HostMsg::Input(InputEvent::ReleaseAll), .. },
            Action::Send { msg: HostMsg::Leave, .. },
            Action::Warp { x: 1919, y: 500 },
            Action::Suppress { on: false },
            Action::MarkDirty,
        ]
    ));
    assert!(state.wall.is_local());
    assert_eq!(state.held, 0);
    // At home already, there is nothing to do.
    assert!(state.on_capture(CaptureEvent::Escape).is_empty());
}

#[test]
fn input_goes_to_whoever_has_the_pointer() {
    let (mut state, _) = with_client();
    assert!(state
        .on_capture(CaptureEvent::Key { vk: 65, scan: 30, ext: false, down: true })
        .is_empty());
    state.on_capture(CaptureEvent::Motion { dx: 5, dy: 0 });
    let actions = state.on_capture(CaptureEvent::Key { vk: 65, scan: 30, ext: false, down: true });
    assert!(matches!(
        &actions[..],
        [Action::Send {
            msg: HostMsg::Input(InputEvent::Key { vk: 65, scan: 30, ext: false, down: true }),
            ..
        }]
    ));
    let actions = state.on_capture(CaptureEvent::Wheel { dx: 0, dy: -120 });
    assert!(matches!(
        &actions[..],
        [Action::Send { msg: HostMsg::Input(InputEvent::Wheel { dx: 0, dy: -120 }), .. }]
    ));
}

#[test]
fn a_button_down_pins_the_pointer() {
    let (mut state, _) = with_client();
    state.on_capture(CaptureEvent::Button { button: Button::Left, down: true });
    state.on_capture(CaptureEvent::Button { button: Button::Right, down: true });
    assert_eq!(state.held, 2);
    state.on_capture(CaptureEvent::Motion { dx: 500, dy: 0 });
    assert!(state.wall.is_local());
    state.on_capture(CaptureEvent::Button { button: Button::Left, down: false });
    assert!(state.wall.locked);
    state.on_capture(CaptureEvent::Button { button: Button::Right, down: false });
    state.on_capture(CaptureEvent::Button { button: Button::Right, down: false });
    assert_eq!(state.held, 0);
    state.on_capture(CaptureEvent::Motion { dx: 5, dy: 0 });
    assert!(!state.wall.is_local());
}

#[test]
fn a_peer_that_vanishes_gives_the_pointer_back() {
    let (mut state, session) = away();
    let actions = state.disconnect(&hex(2), session);
    // The peer is gone, so there is nobody to tell.
    assert!(matches!(
        &actions[..],
        [
            Action::Warp { x: 1919, y: 500 },
            Action::Suppress { on: false },
            Action::MarkDirty,
            Action::MarkDirty,
        ]
    ));
    assert!(state.wall.is_local());
    assert!(!state.wall.devices[1].online);
    assert!(state.peers.get(&hex(2)).is_none());
    // It cannot be crossed onto while it is gone.
    state.on_capture(CaptureEvent::Motion { dx: 50, dy: 0 });
    assert!(state.wall.is_local());
}

#[test]
fn an_old_connection_does_not_clean_up_after_a_new_one() {
    let (mut state, old) = with_client();
    let (new, _) = state.join(info(2));
    assert_ne!(old, new);
    assert!(state.disconnect(&hex(2), old).is_empty());
    assert!(state.peers.get(&hex(2)).is_some());
    assert!(state.disconnect("nobody", new).is_empty());
    assert_eq!(state.disconnect(&hex(2), new).len(), 1);
}

#[test]
fn a_device_rejoins_where_it_was_left() {
    let (mut state, session) = with_client();
    state.wall.set_offset(1, 77, 88);
    state.disconnect(&hex(2), session);
    // A position saved earlier does not override where it was dragged since.
    state.settings.layout.insert(hex(2), (5, 6));
    state.join(info(2));
    assert_eq!(state.wall.devices[1].offset, (77, 88));
    assert!(state.wall.devices[1].online);
    // A device that is not on the wall yet goes where it was saved.
    state.settings.layout.insert(hex(3), (-1280, 0));
    state.join(info(3));
    assert_eq!(state.wall.devices[2].offset, (-1280, 0));
    // One never seen before goes to the end of the row.
    state.join(info(4));
    assert_eq!(state.wall.devices[3].offset, (1920, 180));
}

#[test]
fn secrets_depend_on_how_a_client_asks() {
    let mut state = host();
    assert_eq!(state.auth_for(&hex(2), AuthMode::Code), Some(secret_from_code("123456")));
    assert_eq!(state.auth_for(&hex(2), AuthMode::Stored), None);
    state.settings.paired_clients.insert(hex(2), [8u8; 32]);
    assert_eq!(state.auth_for(&hex(2), AuthMode::Stored), Some([8u8; 32]));
    state.accepting = false;
    assert_eq!(state.auth_for(&hex(2), AuthMode::Code), None);
    assert_eq!(state.auth_for(&hex(2), AuthMode::Stored), Some([8u8; 32]));
}

#[test]
fn a_client_with_the_code_is_met() {
    let mut state = host();
    let (hs, intro) = client_handshake(&[2u8; 16], AuthMode::Code);
    let intro: [u8; 54] = intro.try_into().unwrap();
    let (intent, keys, reply) = state.meet(&intro).unwrap();
    let (client_keys, tag) =
        client_finish(hs, &reply.try_into().unwrap(), &secret_from_code("12 34 56")).unwrap();
    let (host_tag, _) = host_accept(keys, &tag).unwrap();
    assert!(client_accept(client_keys, &host_tag).is_ok());

    let hello = ClientMsg::Hello { device: info(2) };
    let (device, welcome, actions) =
        state.greet(&intent, hello, Some([4u8; 32]), "Windows".into()).unwrap();
    assert_eq!(device.id, [2u8; 16]);
    assert!(matches!(
        &welcome,
        HostMsg::Welcome { host, psk: Some(key), clipboard_sync: true }
            if host.name == "host" && host.os == "Windows" && host.displays.len() == 1
                && *key == [4u8; 32]
    ));
    assert!(matches!(actions[..], [Action::SaveSettings]));
    // From now on the issued key is enough, window open or not.
    state.accepting = false;
    assert_eq!(state.auth_for(&hex(2), AuthMode::Stored), Some([4u8; 32]));
}

#[test]
fn strangers_are_turned_away_before_any_key_is_derived() {
    let mut state = host();
    state.accepting = false;
    let (_, intro) = client_handshake(&[2u8; 16], AuthMode::Code);
    assert!(matches!(
        state.meet(&intro.clone().try_into().unwrap()),
        Err(TransportError::Rejected)
    ));
    let mut broken: [u8; 54] = intro.try_into().unwrap();
    broken[0] = 0;
    assert!(matches!(state.meet(&broken), Err(TransportError::Handshake)));
}

#[test]
fn a_hello_has_to_match_the_handshake() {
    let mut state = host();
    let intent = ClientIntent { device: [2u8; 16], mode: AuthMode::Stored, client_public: [0u8; 32] };
    let wrong = ClientMsg::Hello { device: info(3) };
    assert!(matches!(
        state.greet(&intent, wrong, None, "Linux".into()),
        Err(TransportError::Handshake)
    ));
    let early = ClientMsg::Pong { stamp: 0 };
    assert!(matches!(
        state.greet(&intent, early, None, "Linux".into()),
        Err(TransportError::Handshake)
    ));
    let fine = ClientMsg::Hello { device: info(2) };
    let (_, welcome, actions) = state.greet(&intent, fine, None, "Linux".into()).unwrap();
    assert!(matches!(welcome, HostMsg::Welcome { psk: None, .. }));
    assert!(actions.is_empty());
}

#[test]
fn pongs_measure_the_round_trip() {
    let (mut state, _) = with_client();
    let step = state.on_client_msg(&hex(2), ClientMsg::Pong { stamp: 100 }, 112).unwrap();
    assert!(matches!(step, PeerStep::Continue(a) if matches!(a[..], [Action::MarkDirty])));
    assert_eq!(state.peers.get(&hex(2)).unwrap().latency_ms, Some(12));
    state.on_client_msg(&hex(2), ClientMsg::Pong { stamp: 200 }, 112).unwrap();
    assert_eq!(state.peers.get(&hex(2)).unwrap().latency_ms, Some(0));
    state.on_client_msg(&hex(2), ClientMsg::Pong { stamp: 0 }, u64::MAX).unwrap();
    assert_eq!(state.peers.get(&hex(2)).unwrap().latency_ms, Some(u32::MAX));
}

#[test]
fn changed_monitors_reach_the_wall_and_the_list() {
    let (mut state, _) = with_client();
    let msg = ClientMsg::DisplaysChanged { displays: vec![display(800, 600), display(800, 600)] };
    assert!(state.may_take_in(&hex(2), &msg));
    state.on_client_msg(&hex(2), msg, 0).unwrap();
    assert_eq!(state.wall.devices[1].displays.len(), 2);
    assert_eq!(state.wall.devices[1].wall_bounds().w, 800);
    assert_eq!(state.peers.get(&hex(2)).unwrap().info.displays.len(), 2);
}

#[test]
fn a_clipboard_is_passed_on_to_everybody_else() {
    let (mut state, _) = with_client();
    state.join(info(3));
    state.join(info(4));
    let msg = ClientMsg::Clipboard(Clip::Text("hi".into()));
    let step = state.on_client_msg(&hex(3), msg, 0).unwrap();
    let PeerStep::Continue(actions) = step else {
        panic!("expected more");
    };
    assert!(matches!(
        &actions[..],
        [Action::Share { clip: Clip::Text(t), apply: true, peers }]
            if t == "hi" && *peers == vec![hex(2), hex(4)]
    ));
    let local = state.on_local_clip(Clip::Text("yo".into()));
    assert!(matches!(
        local,
        Action::Share { apply: false, peers, .. } if peers == vec![hex(2), hex(3), hex(4)]
    ));
}

#[test]
fn the_first_word_is_only_said_once() {
    let (mut state, _) = with_client();
    assert!(matches!(
        state.on_client_msg(&hex(2), ClientMsg::Hello { device: info(2) }, 0),
        Err(TransportError::Handshake)
    ));
    assert!(matches!(
        state.on_client_msg(&hex(2), ClientMsg::Bye { reason: "done".into() }, 0),
        Ok(PeerStep::Done)
    ));
}

#[test]
fn pings_go_to_the_living() {
    let (state, _) = with_client();
    assert!(matches!(state.ping(&hex(2), 9), Some(HostMsg::Ping { stamp: 9 })));
    assert!(state.ping(&hex(3), 9).is_none());
}

#[test]
fn goodbyes_carry_a_reason() {
    let (state, _) = with_client();
    let actions = state.disconnect_peer(&hex(2), "enough");
    assert!(matches!(
        &actions[..],
        [Action::Send { to, msg: HostMsg::Bye { reason } }] if *to == hex(2) && reason == "enough"
    ));
    assert!(state.disconnect_peer(&hex(3), "enough").is_empty());
    assert!(closes_queue(&HostMsg::Bye { reason: String::new() }));
    assert!(!closes_queue(&HostMsg::Leave));
}

#[test]
fn a_docked_laptop_changes_the_wall() {
    let (mut state, _) = with_client();
    let last = vec![display(1920, 1080)];
    assert!(state.on_displays(&last, vec![display(1920, 1080)], Some((1, 1))).is_empty());
    assert_eq!(state.wall.owner_local(), (1919, 500));
    let actions = state.on_displays(&last, vec![display(800, 600)], Some((1, 2)));
    assert!(matches!(actions[..], [Action::MarkDirty]));
    assert_eq!(state.wall.devices[0].wall_bounds().w, 800);
    assert_eq!(state.wall.owner_local(), (1, 2));
}

#[test]
fn stopping_gives_input_back_first() {
    let (mut state, _) = with_client();
    state.join(info(3));
    let actions = state.stop();
    assert!(matches!(
        &actions[..],
        [
            Action::Suppress { on: false },
            Action::Broadcast { peers, msg: HostMsg::Bye { reason } },
        ] if *peers == vec![hex(2), hex(3)] && reason == "host stopped"
    ));
    assert!(state.stopping);
}

#[test]
fn events_that_cannot_be_followed_are_told_apart() {
    let (state, _) = with_client();
    assert!(state.may_follow(CaptureEvent::Motion { dx: 1, dy: 1 }));
    assert!(!state.may_follow(CaptureEvent::Motion { dx: i32::MAX, dy: 0 }));
    assert!(state.may_follow(CaptureEvent::Escape));
    assert!(state.may_follow(CaptureEvent::MotionAbs { x: i32::MIN, y: i32::MAX }));
}

#[test]
fn keys_are_minted_on_first_contact_only() {
    assert_eq!(mint_key(AuthMode::Stored), Ok(None));
    let first = mint_key(AuthMode::Code).unwrap().unwrap();
    let second = mint_key(AuthMode::Code).unwrap().unwrap();
    assert_ne!(first, second);
}

#[test]
fn what_was_drawn_is_what_is_issued() {
    assert_eq!(key_given(AuthMode::Code, Ok([6u8; 32])), Ok(Some([6u8; 32])));
    assert_eq!(key_given(AuthMode::Stored, Ok([6u8; 32])), Ok(None));
    assert_eq!(key_given(AuthMode::Code, Err(RandomError)), Err(RandomError));
    assert_eq!(key_given(AuthMode::Stored, Err(RandomError)), Ok(None));
}

#[test]
fn only_a_proper_hello_is_greeted() {
    let intent = ClientIntent { device: [2u8; 16], mode: AuthMode::Code, client_public: [0u8; 32] };
    assert!(may_greet(&intent, &ClientMsg::Hello { device: info(2) }));
    assert!(!may_greet(&intent, &ClientMsg::Hello { device: info(3) }));
    assert!(!may_greet(&intent, &ClientMsg::Pong { stamp: 0 }));
    assert!(!may_greet(&intent, &ClientMsg::Bye { reason: "done".into() }));
}

#[test]
fn a_device_is_let_go_of_unless_the_pointer_is_stuck_on_it() {
    let (state, _) = away();
    assert!(state.may_disconnect(&hex(2)));
    assert!(state.may_disconnect(&hex(3)));
    // A host placed beyond the end of the coordinates has nowhere to put the pointer.
    let (mut state, _) = away();
    state.wall.devices[0].offset = (i32::MAX, 0);
    assert!(!state.may_disconnect(&hex(2)));
    assert!(state.may_disconnect(&hex(3)));
    let (mut state, _) = with_client();
    state.wall.devices[0].offset = (i32::MAX, 0);
    assert!(state.may_disconnect(&hex(2)));
}
