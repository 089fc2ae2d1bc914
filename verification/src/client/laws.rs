//! What the client promises, and what reaches it from the host.

use vstd::prelude::*;

use crate::capture::CaptureEvent;
use crate::client;
use crate::client::{Action, ClientState, Status, Target};
use crate::crypto;
use crate::host;
use crate::host::HostState;
use crate::inject::{Call, Injector, KeyId};
use crate::protocol;
use crate::protocol::{ClientMsg, HostMsg, InputEvent};
use crate::settings::Settings;
use crate::text;
use crate::transport::AuthMode;

verus! {

/// What a message of the host makes the client do: input is injected as it came; the
/// pointer's arrival puts it in place and its departure lets go of everything; a
/// clipboard is applied where both sides share theirs; a ping is answered with its
/// own stamp.
pub proof fn messages_are_acted_on(state: ClientState, msg: HostMsg, clipboard_sync: bool)
    ensures
        ({
            let list = state.replay(msg, clipboard_sync);
            match msg {
                HostMsg::Input(event) => list == seq![Action::Inject { event, required: true }],
                HostMsg::Enter { x, y } => list == seq![
                    Action::Inject { event: InputEvent::MoveAbs { x, y }, required: false },
                    Action::MarkDirty,
                ],
                HostMsg::Leave => list == seq![
                    Action::Inject { event: InputEvent::ReleaseAll, required: false },
                    Action::MarkDirty,
                ],
                HostMsg::Clipboard(clip) => {
                    &&& clipboard_sync && state.clipboard ==> list == seq![Action::Apply { clip }]
                    &&& !clipboard_sync || !state.clipboard ==> list == Seq::<Action>::empty()
                },
                HostMsg::Ping { stamp } => {
                    &&& state.online ==> list == seq![
                        Action::Send { msg: ClientMsg::Pong { stamp } },
                    ]
                    &&& !state.online ==> list == Seq::<Action>::empty()
                },
                _ => list == Seq::<Action>::empty(),
            }
        }),
{
}

/// The pointer is here from the moment it enters until it leaves, whatever else is
/// said in between.
pub proof fn the_pointer_comes_and_goes(state: ClientState, msg: HostMsg)
    ensures
        msg is Enter ==> state.controlled_after(msg),
        msg is Leave ==> !state.controlled_after(msg),
        msg !is Enter && msg !is Leave ==> state.controlled_after(msg) == state.status.controlled,
{
}

/// The keyboard follows the pointer all the way: what is captured on the host while a
/// connected device has the pointer is sent to that device alone, injected there as
/// it came, and becomes the one call that does the same on that machine.
pub proof fn what_is_typed_here_happens_there(
    state: HostState,
    event: CaptureEvent,
    client: ClientState,
    clipboard_sync: bool,
    injector: Injector,
)
    requires
        state.wf(),
        state.wall.owner != 0,
        state.peers@.contains_key(
            protocol::hex_of(state.wall.devices@[state.wall.owner as int].id@),
        ),
        event is Button || event is Wheel || event is Key,
        injector.open,
    ensures
        ({
            let list = state.follow_acts(event);
            &&& list.len() == 1
            &&& list[0] matches host::Act::Send { to, msg } && {
                &&& to == protocol::hex_of(state.wall.devices@[state.wall.owner as int].id@)
                &&& client.replay(msg, clipboard_sync).len() == 1
                &&& client.replay(msg, clipboard_sync)[0] matches Action::Inject {
                    event: input,
                    required: true,
                } && injector.calls_for(input) == match event {
                    CaptureEvent::Button { button, down } => seq![Call::Button { button, down }],
                    CaptureEvent::Wheel { dx, dy } => seq![Call::Wheel { dx, dy }],
                    CaptureEvent::Key { vk, scan, ext, down } => seq![
                        Call::Key { key: KeyId { vk, scan, ext }, down },
                    ],
                    _ => seq![],
                }
            }
        }),
{
    host::laws::captured_input_follows_the_pointer(state, event);
}

/// The secrets that are tried: first the key stored for the host, if there is one,
/// and then the code that was typed, if it is more than white space.
pub proof fn secrets_are_tried_in_order(settings: Settings, target: Target)
    ensures
        ({
            let list = client::credentials_for(settings, target);
            let stored = target.host_id is Some && settings.paired_hosts@.contains_key(
                target.host_id->0@,
            );
            let typed = target.code is Some && text::trimmed(target.code->0@).len() > 0;
            let n: int = if stored {
                1
            } else {
                0
            };
            &&& list.len() == n + (if typed {
                1int
            } else {
                0int
            })
            &&& stored ==> list[0].0 == AuthMode::Stored && list[0].1
                == settings.paired_hosts@[target.host_id->0@]@
            &&& typed ==> list[n].0 == AuthMode::Code && list[n].1 == crypto::code_secret(
                target.code->0@,
            )
        }),
{
}

/// A list of credentials stands for its modes and secrets, one by one.
pub proof fn credentials_are_listed_whole(list: Seq<(AuthMode, crypto::Secret)>, i: int)
    requires
        0 <= i < list.len(),
    ensures
        client::bare(list).len() == list.len(),
        client::bare(list)[i].0 == list[i].0,
        client::bare(list)[i].1 == list[i].1@,
{
}

/// The wait starts at half a second after a session that connected, doubles after one
/// that did not, and stops growing at five seconds.
pub proof fn the_wait_doubles(backoff: u64)
    requires
        500 <= backoff <= 5000,
    ensures
        client::next_backoff(backoff, true) == 500,
        backoff <= 2500 ==> client::next_backoff(backoff, false) == 2 * backoff,
        backoff > 2500 ==> client::next_backoff(backoff, false) == 5000,
{
}

/// After a failure the client is neither connected nor controlled, says why, and has
/// tried once more; it still knows who the host was.
pub proof fn failures_are_shown(status: Status, message: String)
    ensures
        ({
            let after = ClientState::failed(status, message);
            &&& !after.connected
            &&& !after.controlled
            &&& after.message == message
            &&& status.attempts < u32::MAX ==> after.attempts == status.attempts + 1
            &&& status.attempts == u32::MAX ==> after.attempts == u32::MAX
            &&& after.host_id == status.host_id
            &&& after.host_name == status.host_name
            &&& after.host_os == status.host_os
            &&& after.address == status.address
        }),
{
}

/// An endpoint is the address, a colon, and the port in decimal.
pub proof fn endpoints_name_address_and_port(target: Target)
    ensures
        ({
            let n = target.address@.len() as int;
            let all = target.text();
            &&& all.len() > n + 1
            &&& all.subrange(0, n) == target.address@
            &&& all[n] == ':'
            &&& text::laws::spelled(all.subrange(n + 1, all.len() as int)) == target.port
        }),
{
    let n = target.address@.len() as int;
    let all = target.text();
    let port = text::decimal(target.port as nat);
    text::laws::decimals_spell_their_number(target.port as nat);
    assert(all.subrange(0, n) =~= target.address@);
    assert(all.subrange(n + 1, all.len() as int) =~= port);
}

/// What holds of a client at all times: the pointer can only be here while the host is
/// connected, and the wait between attempts is between half a second and five.
pub proof fn a_client_is_sound(state: ClientState)
    ensures
        state.wf() <==> {
            &&& state.settings.wf()
            &&& state.status.controlled ==> state.status.connected
            &&& 500 <= state.backoff <= 5000
        },
{
}

} // verus!
