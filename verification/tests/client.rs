use crossdesk::client::{
    closes_queue, next_attempt, timed_out, Action, Attempt, ClientState, HostStep, Target,
    RETRY_MAX, RETRY_MIN,
};
use crossdesk::crypto::secret_from_code;
use crossdesk::protocol::{id_to_hex, Clip, ClientMsg, DeviceInfo, Display, HostMsg, InputEvent};
use crossdesk::settings::Settings;
use crossdesk::transport::{AuthMode, TransportError};

fn target(host_id: Option<&str>, code: Option<&str>) -> Target {
    Target {
        address: "10.0.0.7".into(),
        port: 47810,
        host_id: host_id.map(String::from),
        code: code.map(String::from),
    }
}

fn fresh() -> ClientState {
    let settings = Settings::fresh(&[2u8; 16], "client".into(), "000000".into());
    ClientState::new(settings, &target(None, None))
}

fn welcome(psk: Option<[u8; 32]>) -> HostMsg {
    HostMsg::Welcome {
        host: DeviceInfo {
            id: [1u8; 16],
            name: "desk".into(),
            os: "Windows".into(),
            displays: vec![],
        },
        psk,
        clipboard_sync: true,
    }
}

fn connected() -> ClientState {
    let mut state = fresh();
    state.on_welcome(welcome(None), &target(None, None)).unwrap();
    state
}

#[test]
fn a_client_starts_disconnected() {
    let state = fresh();
    assert_eq!(state.status.address, "10.0.0.7:47810");
    assert!(!state.status.connected && !state.online);
    assert_eq!(state.backoff, RETRY_MIN);
    let me = state.hello("Linux".into(), vec![]);
    assert_eq!((me.id, me.name.as_str(), me.os.as_str()), ([2u8; 16], "client", "Linux"));
}

#[test]
fn a_stored_key_is_tried_before_the_code() {
    let mut state = fresh();
    let host = id_to_hex(&[1u8; 16]);
    assert!(state.credentials(&target(Some(&host), None)).is_empty());
    assert!(state.credentials(&target(None, Some("  "))).is_empty());
    assert_eq!(
        state.credentials(&target(Some(&host), Some("1 2"))),
        vec![(AuthMode::Code, secret_from_code("12"))]
    );
    state.settings.paired_hosts.insert(host.clone(), [6u8; 32]);
    assert_eq!(
        state.credentials(&target(Some(&host), Some("12"))),
        vec![(AuthMode::Stored, [6u8; 32]), (AuthMode::Code, secret_from_code("12"))]
    );
}

#[test]
fn attempts_go_through_every_credential() {
    assert!(matches!(
        next_attempt(0, 0, None),
        Attempt::GiveUp(TransportError::Rejected)
    ));
    assert!(matches!(next_attempt(2, 0, None), Attempt::Try(0)));
    assert!(matches!(
        next_attempt(2, 1, Some(TransportError::Handshake)),
        Attempt::Try(1)
    ));
    assert!(matches!(
        next_attempt(2, 2, Some(TransportError::Handshake)),
        Attempt::GiveUp(TransportError::Handshake)
    ));
    assert_eq!(timed_out("could not reach the host").message(), "could not reach the host");
}

#[test]
fn a_welcome_brings_the_connection_up() {
    let mut state = fresh();
    let (sync, actions) = state
        .on_welcome(welcome(Some([3u8; 32])), &target(None, Some("12")))
        .unwrap();
    assert!(sync);
    assert!(matches!(actions[..], [Action::SaveSettings, Action::MarkDirty]));
    assert!(state.status.connected && state.online && !state.status.controlled);
    assert_eq!(state.status.host_id, id_to_hex(&[1u8; 16]));
    assert_eq!(state.status.host_name, "desk");
    assert_eq!(state.status.host_os, "Windows");
    assert_eq!(
        state.settings.paired_hosts.get(&id_to_hex(&[1u8; 16])),
        Some(&[3u8; 32])
    );
}

#[test]
fn anything_but_a_welcome_first_is_a_failed_handshake() {
    let mut state = fresh();
    assert!(matches!(
        state.on_welcome(HostMsg::Leave, &target(None, None)),
        Err(TransportError::Handshake)
    ));
    assert!(!state.status.connected);
    let mut up = connected();
    assert!(matches!(
        up.on_host_msg(welcome(None), true),
        Err(TransportError::Handshake)
    ));
}

fn actions(step: Result<HostStep, TransportError>) -> Vec<Action> {
    match step {
        Ok(HostStep::Continue(actions)) => actions,
        _ => panic!("expected more"),
    }
}

#[test]
fn the_pointer_comes_and_goes() {
    let mut state = connected();
    let enter = actions(state.on_host_msg(HostMsg::Enter { x: 3, y: 4 }, true));
    assert!(matches!(
        enter[..],
        [
            Action::Inject { event: InputEvent::MoveAbs { x: 3, y: 4 }, required: false },
            Action::MarkDirty,
        ]
    ));
    assert!(state.status.controlled);
    let leave = actions(state.on_host_msg(HostMsg::Leave, true));
    assert!(matches!(
        leave[..],
        [Action::Inject { event: InputEvent::ReleaseAll, required: false }, Action::MarkDirty]
    ));
    assert!(!state.status.controlled);
}

#[test]
fn input_is_handed_straight_on() {
    let mut state = connected();
    let event = InputEvent::Wheel { dx: 1, dy: 2 };
    let out = actions(state.on_host_msg(HostMsg::Input(event), true));
    assert!(matches!(
        out[..],
        [Action::Inject { event: InputEvent::Wheel { dx: 1, dy: 2 }, required: true }]
    ));
}

#[test]
fn pings_are_answered_and_clips_applied() {
    let mut state = connected();
    let pong = actions(state.on_host_msg(HostMsg::Ping { stamp: 42 }, true));
    assert!(matches!(pong[..], [Action::Send { msg: ClientMsg::Pong { stamp: 42 } }]));
    let clip = || HostMsg::Clipboard(Clip::Text("x".into()));
    assert!(matches!(
        &actions(state.on_host_msg(clip(), true))[..],
        [Action::Apply { clip: Clip::Text(t) }] if t == "x"
    ));
    assert!(actions(state.on_host_msg(clip(), false)).is_empty());
    state.clipboard = false;
    assert!(actions(state.on_host_msg(clip(), true)).is_empty());
}

#[test]
fn a_goodbye_ends_the_session() {
    let mut state = connected();
    assert!(matches!(
        state.on_host_msg(HostMsg::Bye { reason: "off".into() }, true),
        Ok(HostStep::Done)
    ));
    assert!(matches!(state.on_closed(), Action::MarkDirty));
    let (actions, wait) = state.on_session_end(Ok(()), true);
    assert!(matches!(
        actions[..],
        [Action::MarkDirty, Action::Inject { event: InputEvent::ReleaseAll, required: false }]
    ));
    assert_eq!(wait, Some(RETRY_MIN));
    assert_eq!(state.status.message, "host disconnected");
    assert!(!state.status.connected && !state.online);
}

#[test]
fn failures_back_off_up_to_a_limit() {
    let mut state = fresh();
    let mut waits = vec![];
    for _ in 0..6 {
        let (_, wait) = state.on_session_end(Err(TransportError::Rejected), false);
        waits.push(wait.unwrap());
    }
    assert_eq!(waits, vec![1000, 2000, 4000, RETRY_MAX, RETRY_MAX, RETRY_MAX]);
    assert_eq!(state.status.attempts, 6);
    assert_eq!(
        state.status.message,
        "this device has no key here and the host is not accepting new pairings"
    );
    // One that worked starts over.
    assert_eq!(state.on_session_end(Ok(()), true).1, Some(RETRY_MIN));
    // A client that is stopping does not wait.
    state.stop();
    assert_eq!(state.on_session_end(Ok(()), false).1, None);
}

#[test]
fn errors_are_counted_without_overflow() {
    let mut state = fresh();
    state.status.attempts = u32::MAX;
    assert!(matches!(state.set_error("x".into()), Action::MarkDirty));
    assert_eq!(state.status.attempts, u32::MAX);
    assert_eq!(state.status.message, "x");
}

#[test]
fn messages_while_disconnected_go_nowhere() {
    let mut state = fresh();
    assert!(state.send(ClientMsg::Pong { stamp: 1 }).is_empty());
    assert!(matches!(
        state.stop()[..],
        [Action::Inject { event: InputEvent::ReleaseAll, required: false }]
    ));
    let mut up = connected();
    assert!(matches!(
        &up.stop()[..],
        [Action::Inject { .. }, Action::Send { msg: ClientMsg::Bye { reason } }]
            if reason == "client stopped"
    ));
    assert!(closes_queue(&ClientMsg::Bye { reason: String::new() }));
    assert!(!closes_queue(&ClientMsg::Pong { stamp: 0 }));
}

#[test]
fn changed_monitors_are_reported() {
    let screen = |w| Display {
        id: 0,
        name: "s".into(),
        x: 0,
        y: 0,
        width: w,
        height: 10,
        scale_bits: 1.0f32.to_bits(),
        primary: true,
    };
    let state = connected();
    assert!(state.on_displays(&vec![screen(10)], &vec![screen(10)]).is_empty());
    assert!(matches!(
        &state.on_displays(&vec![screen(10)], &vec![screen(20)])[..],
        [Action::Send { msg: ClientMsg::DisplaysChanged { displays } }] if displays[0].width == 20
    ));
    assert!(fresh().on_displays(&vec![screen(10)], &vec![screen(20)]).is_empty());
}
