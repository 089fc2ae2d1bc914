//! Client-side input injection.
//!
//! The host has already done every coordinate translation, so this module is
//! deliberately dumb: take an [`InputEvent`], say what to hand to the OS, return.
//! It also remembers what it is holding down, because a connection that drops
//! mid-drag must not leave a key or button stuck.

use vstd::prelude::*;

use crate::platform::Os;
use crate::protocol::{Button, InputEvent};
use crate::text;

pub mod laws;
pub mod macos;
pub mod other;
pub mod win;

verus! {

/// How long to wait, in milliseconds, before trying again to open a backend that
/// was blocked.
///
/// Only reached while injection is impossible anyway, so it costs nothing in the
/// normal case, and it is short enough that granting permission looks immediate.
pub const REOPEN_AFTER: u64 = 1000;

#[derive(Debug)]
pub enum InjectError {
    /// There is no input device to open on this platform.
    Unavailable(String),
    /// The platform has a backend but is refusing to let this process use it,
    /// and that refusal can be lifted while the app runs. Separate from
    /// `Unavailable` because it must not be fatal: the user grants macOS
    /// Accessibility *while looking at this window*, and a client that gave up
    /// at startup would have to be restarted to notice.
    Blocked(String),
}

impl InjectError {
    /// What the user is told.
    pub open spec fn text(&self) -> Seq<char> {
        match self {
            InjectError::Unavailable(why) => {
                "could not open an input device on this platform: "@ + why@
            },
            InjectError::Blocked(why) => why@,
        }
    }

    /// What the user is told.
    pub fn message(&self) -> (r: String)
        ensures
            r@ == self.text(),
    {
        match self {
            InjectError::Unavailable(why) => {
                let mut r = "could not open an input device on this platform: ".to_owned();
                text::push_text(&mut r, why.as_str());
                r
            },
            InjectError::Blocked(why) => why.clone(),
        }
    }
}

/// What a refusal by the OS means. On macOS it is the failure a user hits after
/// ticking the box in System Settings, and it is lifted while the app runs, so
/// it is not fatal. Elsewhere it stays fatal and loud, because nothing in the UI
/// would explain a client that silently moves nothing.
pub fn refused(os: Os, why: String) -> (r: InjectError)
    ensures
        match r {
            InjectError::Blocked(words) => os == Os::MacOs && words@ == BLOCKED@,
            InjectError::Unavailable(words) => os != Os::MacOs && words == why,
        },
{
    if os == Os::MacOs {
        InjectError::Blocked(BLOCKED.to_owned())
    } else {
        InjectError::Unavailable(why)
    }
}

pub const BLOCKED: &'static str = "macOS has not granted Accessibility permission to this copy of CrossDesk, so it cannot replay the host's input yet. Use Grant permission on this screen — adding the app by hand often grants it to a different build.";

/// A key as the host described it. Kept whole so the release matches the press
/// exactly, whatever the backend ends up doing with it.
#[derive(Clone, Copy, Debug, PartialEq, Eq, Structural)]
pub struct KeyId {
    pub vk: u16,
    pub scan: u16,
    pub ext: bool,
}

/// A call to the platform's backend.
#[derive(Debug)]
pub enum Call {
    MoveAbs { x: i32, y: i32 },
    Button { button: Button, down: bool },
    Wheel { dx: i16, dy: i16 },
    Key { key: KeyId, down: bool },
    Text(String),
}

/// Replays remote input on this machine.
#[derive(Debug)]
pub struct Injector {
    /// False while the OS is refusing us. Retried rather than fatal.
    pub open: bool,
    /// When to next attempt to open the backend, if it is not open.
    pub retry_at: u64,
    pub keys: Vec<KeyId>,
    pub buttons: Vec<Button>,
}

/// What is held after one more went down.
pub open spec fn with_held<T>(held: Seq<T>, it: T) -> Seq<T> {
    if held.contains(it) {
        held
    } else {
        held.push(it)
    }
}

/// What is held after one was let go.
pub open spec fn without<T>(held: Seq<T>, it: T) -> Seq<T> {
    held.filter(other_than(it))
}

pub open spec fn other_than<T>(it: T) -> spec_fn(T) -> bool {
    |x: T| x != it
}

/// The calls that let go of some keys, in order.
pub open spec fn key_ups(keys: Seq<KeyId>) -> Seq<Call> {
    keys.map_values(|key: KeyId| Call::Key { key, down: false })
}

/// The calls that let go of some buttons, in order.
pub open spec fn button_ups(buttons: Seq<Button>) -> Seq<Call> {
    buttons.map_values(|button: Button| Call::Button { button, down: false })
}

/// Pressing something that was not held and letting it go again changes
/// nothing.
pub proof fn release_undoes_press<T>(held: Seq<T>, it: T)
    requires
        !held.contains(it),
    ensures
        without(with_held(held, it), it) == held,
{
    filter_of_absent(held, it);
    assert(held.push(it).drop_last() =~= held);
    reveal(Seq::filter);
}

/// After letting go of something it is no longer held, and everything else still
/// is.
pub proof fn release_lets_go<T>(held: Seq<T>, it: T, other: T)
    ensures
        !without(held, it).contains(it),
        other != it ==> (without(held, it).contains(other) <==> held.contains(other)),
{
    let keep = other_than(it);
    if without(held, it).contains(it) {
        let i = choose|i: int| 0 <= i < without(held, it).len() && without(held, it)[i] == it;
        held.lemma_filter_pred(keep, i);
    }
    if other != it && held.contains(other) {
        let i = choose|i: int| 0 <= i < held.len() && held[i] == other;
        held.lemma_filter_contains(keep, i);
    }
    if without(held, it).contains(other) {
        filter_keeps_members(held, keep, other);
    }
}

/// Nothing is ever held twice, so nothing is let go of twice.
pub proof fn held_at_most_once<T>(held: Seq<T>, it: T)
    requires
        held.no_duplicates(),
    ensures
        with_held(held, it).no_duplicates(),
        without(held, it).no_duplicates(),
{
    filter_keeps_distinct(held, other_than(it));
}

proof fn filter_keeps_distinct<T>(held: Seq<T>, keep: spec_fn(T) -> bool)
    requires
        held.no_duplicates(),
    ensures
        held.filter(keep).no_duplicates(),
    decreases held.len(),
{
    reveal(Seq::filter);
    if held.len() > 0 {
        let rest = held.drop_last();
        let last = held[held.len() - 1];
        filter_keeps_distinct(rest, keep);
        if rest.filter(keep).contains(last) {
            filter_keeps_members(rest, keep, last);
            let i = choose|i: int| 0 <= i < rest.len() && rest[i] == last;
            assert(held[i] == last);
        }
    }
}

proof fn filter_keeps_members<T>(held: Seq<T>, keep: spec_fn(T) -> bool, x: T)
    requires
        held.filter(keep).contains(x),
    ensures
        held.contains(x),
    decreases held.len(),
{
    reveal(Seq::filter);
    if held.len() > 0 {
        let rest = held.drop_last();
        if rest.filter(keep).contains(x) {
            filter_keeps_members(rest, keep, x);
            let i = choose|i: int| 0 <= i < rest.len() && rest[i] == x;
            assert(held[i] == x);
        } else {
            let list = held.filter(keep);
            let i = choose|i: int| 0 <= i < list.len() && list[i] == x;
            assert(i == rest.filter(keep).len()) by {
                if i < rest.filter(keep).len() {
                    assert(rest.filter(keep)[i] == x);
                }
            }
            assert(held.last() == x);
            assert(held[held.len() - 1] == x);
        }
    }
}

proof fn filter_of_absent<T>(held: Seq<T>, it: T)
    requires
        !held.contains(it),
    ensures
        without(held, it) == held,
    decreases held.len(),
{
    reveal(Seq::filter);
    if held.len() > 0 {
        let rest = held.drop_last();
        assert(!rest.contains(it)) by {
            if rest.contains(it) {
                let i = choose|i: int| 0 <= i < rest.len() && rest[i] == it;
                assert(held[i] == it);
            }
        }
        filter_of_absent(rest, it);
        assert(held[held.len() - 1] == held.last());
        assert(rest.push(held.last()) =~= held);
    } else {
        assert(without(held, it) =~= held);
    }
}

fn press_key(keys: &mut Vec<KeyId>, id: KeyId)
    ensures
        final(keys)@ == with_held(old(keys)@, id),
{
    let mut i: usize = 0;
    while i < keys.len()
        invariant
            i <= keys@.len(),
            forall|k: int| 0 <= k < i ==> #[trigger] keys@[k] != id,
            keys@ == old(keys)@,
        decreases keys@.len() - i,
    {
        if keys[i] == id {
            assert(keys@[i as int] == id);
            return;
        }
        i += 1;
    }
    keys.push(id);
}

fn release_key(keys: &mut Vec<KeyId>, id: KeyId)
    ensures
        final(keys)@ == without(old(keys)@, id),
{
    let ghost start = keys@;
    let mut out: Vec<KeyId> = Vec::new();
    let mut i: usize = 0;
    assert(start.take(0) =~= Seq::<KeyId>::empty());
    proof {
        reveal(Seq::filter);
    }
    while i < keys.len()
        invariant
            i <= keys@.len(),
            keys@ == start,
            out@ == without(start.take(i as int), id),
        decreases keys@.len() - i,
    {
        proof {
            reveal(Seq::filter);
            assert(start.take(i + 1).drop_last() =~= start.take(i as int));
            assert(start.take(i + 1).last() == start[i as int]);
        }
        if keys[i] != id {
            out.push(keys[i]);
        }
        i += 1;
    }
    assert(start.take(start.len() as int) =~= start);
    *keys = out;
}

fn press_button(buttons: &mut Vec<Button>, button: Button)
    ensures
        final(buttons)@ == with_held(old(buttons)@, button),
{
    let mut i: usize = 0;
    while i < buttons.len()
        invariant
            i <= buttons@.len(),
            forall|k: int| 0 <= k < i ==> #[trigger] buttons@[k] != button,
            buttons@ == old(buttons)@,
        decreases buttons@.len() - i,
    {
        if buttons[i] == button {
            assert(buttons@[i as int] == button);
            return;
        }
        i += 1;
    }
    buttons.push(button);
}

fn release_button(buttons: &mut Vec<Button>, button: Button)
    ensures
        final(buttons)@ == without(old(buttons)@, button),
{
    let ghost start = buttons@;
    let mut out: Vec<Button> = Vec::new();
    let mut i: usize = 0;
    assert(start.take(0) =~= Seq::<Button>::empty());
    proof {
        reveal(Seq::filter);
    }
    while i < buttons.len()
        invariant
            i <= buttons@.len(),
            buttons@ == start,
            out@ == without(start.take(i as int), button),
        decreases buttons@.len() - i,
    {
        proof {
            reveal(Seq::filter);
            assert(start.take(i + 1).drop_last() =~= start.take(i as int));
            assert(start.take(i + 1).last() == start[i as int]);
        }
        if buttons[i] != button {
            out.push(buttons[i]);
        }
        i += 1;
    }
    assert(start.take(start.len() as int) =~= start);
    *buttons = out;
}

impl Injector {
    /// Starts from what became of opening the backend.
    ///
    /// A blocked platform still yields a working injector, one that drops what
    /// it is given until permission arrives, because refusing the whole client
    /// role over a permission the user is about to grant is worse than dropping
    /// the first few packets.
    pub fn new(opened: Result<(), InjectError>, now: u64) -> (r: Result<Self, InjectError>)
        requires
            now + REOPEN_AFTER <= u64::MAX,
        ensures
            match opened {
                Err(InjectError::Unavailable(why)) => r == Err::<Injector, InjectError>(
                    InjectError::Unavailable(why),
                ),
                _ => {
                    &&& r is Ok
                    &&& r->Ok_0.open == opened is Ok
                    &&& r->Ok_0.retry_at == now + REOPEN_AFTER
                    &&& r->Ok_0.keys@.len() == 0
                    &&& r->Ok_0.buttons@.len() == 0
                },
            },
    {
        let open = match opened {
            Ok(()) => true,
            Err(InjectError::Blocked(_)) => false,
            Err(e) => {
                return Err(e);
            },
        };
        Ok(
            Injector {
                open,
                retry_at: now + REOPEN_AFTER,
                keys: Vec::new(),
                buttons: Vec::new(),
            },
        )
    }

    /// Whether an event calls for another attempt to open the backend first.
    /// Letting go is not worth opening a backend for: nothing can be held down
    /// through one that never posted a press.
    pub fn wants_reopen(&self, event: &InputEvent, now: u64) -> (r: bool)
        ensures
            r == (!self.open && now >= self.retry_at && *event !is ReleaseAll),
    {
        if self.open || now < self.retry_at {
            return false;
        }
        match event {
            InputEvent::ReleaseAll => false,
            _ => true,
        }
    }

    /// Takes in what became of another attempt to open the backend.
    pub fn reopened(&mut self, now: u64, ok: bool)
        requires
            now + REOPEN_AFTER <= u64::MAX,
        ensures
            *final(self) == (Injector {
                open: ok,
                retry_at: (now + REOPEN_AFTER) as u64,
                ..*old(self)
            }),
    {
        self.retry_at = now + REOPEN_AFTER;
        self.open = ok;
    }

    /// What the backend is called with for an event that goes straight through.
    pub open spec fn call_for(event: InputEvent) -> Option<Call> {
        match event {
            InputEvent::MoveAbs { x, y } => Some(Call::MoveAbs { x, y }),
            InputEvent::Button { button, down } => Some(Call::Button { button, down }),
            InputEvent::Wheel { dx, dy } => Some(Call::Wheel { dx, dy }),
            InputEvent::Key { vk, scan, ext, down } => Some(
                Call::Key { key: KeyId { vk, scan, ext }, down },
            ),
            InputEvent::Text(text) => Some(Call::Text(text)),
            InputEvent::ReleaseAll => None,
        }
    }

    /// The keys held after an event.
    pub open spec fn keys_after(&self, event: InputEvent) -> Seq<KeyId> {
        match event {
            InputEvent::Key { vk, scan, ext, down } => if down {
                with_held(self.keys@, KeyId { vk, scan, ext })
            } else {
                without(self.keys@, KeyId { vk, scan, ext })
            },
            InputEvent::ReleaseAll => Seq::<KeyId>::empty(),
            _ => self.keys@,
        }
    }

    /// The buttons held after an event.
    pub open spec fn buttons_after(&self, event: InputEvent) -> Seq<Button> {
        match event {
            InputEvent::Button { button, down } => if down {
                with_held(self.buttons@, button)
            } else {
                without(self.buttons@, button)
            },
            InputEvent::ReleaseAll => Seq::<Button>::empty(),
            _ => self.buttons@,
        }
    }

    /// The calls that let go of everything held, keys first. None while there is
    /// no backend.
    pub open spec fn let_go(&self) -> Seq<Call> {
        if self.open {
            key_ups(self.keys@) + button_ups(self.buttons@)
        } else {
            seq![]
        }
    }

    /// The calls that an event makes: none while there is no backend.
    pub open spec fn calls_for(&self, event: InputEvent) -> Seq<Call> {
        match Injector::call_for(event) {
            Some(call) => if self.open {
                seq![call]
            } else {
                seq![]
            },
            None => self.let_go(),
        }
    }

    /// Takes in one event and gives the calls to make.
    ///
    /// Book-keeping is unconditional, so the ledger mirrors what the *host*
    /// believes it is holding rather than what this machine managed to post. The
    /// two differ only while the OS is refusing us, and the asymmetry decides
    /// it: releasing a key that was never pressed is a spurious key-up and
    /// harmless, while failing to release one that was leaves it stuck with
    /// nothing left to free it.
    pub fn apply(&mut self, event: InputEvent) -> (r: Vec<Call>)
        ensures
            final(self).open == old(self).open,
            final(self).retry_at == old(self).retry_at,
            final(self).keys@ == old(self).keys_after(event),
            final(self).buttons@ == old(self).buttons_after(event),
            r@ == old(self).calls_for(event),
            r@ == match Injector::call_for(event) {
                Some(call) => if old(self).open {
                    seq![call]
                } else {
                    seq![]
                },
                None => old(self).let_go(),
            },
    {
        match event {
            InputEvent::Button { button, down } => {
                if down {
                    press_button(&mut self.buttons, button);
                } else {
                    release_button(&mut self.buttons, button);
                }
            },
            InputEvent::Key { vk, scan, ext, down } => {
                let id = KeyId { vk, scan, ext };
                if down {
                    press_key(&mut self.keys, id);
                } else {
                    release_key(&mut self.keys, id);
                }
            },
            InputEvent::ReleaseAll => {
                return self.release_all();
            },
            _ => {},
        }
        let mut out: Vec<Call> = Vec::new();
        if !self.open {
            assert(out@ =~= seq![]);
            return out;
        }
        let ghost goal = Injector::call_for(event)->0;
        match event {
            InputEvent::MoveAbs { x, y } => out.push(Call::MoveAbs { x, y }),
            InputEvent::Button { button, down } => out.push(Call::Button { button, down }),
            InputEvent::Wheel { dx, dy } => out.push(Call::Wheel { dx, dy }),
            InputEvent::Key { vk, scan, ext, down } => out.push(
                Call::Key { key: KeyId { vk, scan, ext }, down },
            ),
            InputEvent::Text(text) => out.push(Call::Text(text)),
            // Handled above, before the backend is consulted.
            InputEvent::ReleaseAll => {},
        }
        assert(out@ =~= seq![goal]);
        out
    }

    /// Lets go of everything we are holding. Called on `ReleaseAll`, when the
    /// pointer leaves this device, and when the connection dies.
    pub fn release_all(&mut self) -> (r: Vec<Call>)
        ensures
            final(self).open == old(self).open,
            final(self).retry_at == old(self).retry_at,
            final(self).keys@.len() == 0,
            final(self).buttons@.len() == 0,
            r@ == old(self).let_go(),
    {
        let mut out: Vec<Call> = Vec::new();
        if self.open {
            let mut i: usize = 0;
            while i < self.keys.len()
                invariant
                    i <= self.keys@.len(),
                    *self == *old(self),
                    out@ == key_ups(self.keys@.take(i as int)),
                decreases self.keys@.len() - i,
            {
                out.push(Call::Key { key: self.keys[i], down: false });
                assert(out@ =~= key_ups(self.keys@.take(i + 1)));
                i += 1;
            }
            assert(self.keys@.take(self.keys@.len() as int) =~= self.keys@);
            let mut j: usize = 0;
            assert(out@ =~= key_ups(self.keys@) + button_ups(self.buttons@.take(0)));
            while j < self.buttons.len()
                invariant
                    j <= self.buttons@.len(),
                    *self == *old(self),
                    out@ == key_ups(self.keys@) + button_ups(self.buttons@.take(j as int)),
                decreases self.buttons@.len() - j,
            {
                out.push(Call::Button { button: self.buttons[j], down: false });
                assert(out@ =~= key_ups(self.keys@) + button_ups(self.buttons@.take(j + 1)));
                j += 1;
            }
            assert(self.buttons@.take(self.buttons@.len() as int) =~= self.buttons@);
        }
        assert(out@ =~= old(self).let_go());
        self.keys = Vec::new();
        self.buttons = Vec::new();
        out
    }
}

/// Nothing held is forgotten: with a working backend, letting go of everything
/// posts a release for each key and each button that is held.
pub proof fn everything_held_is_released(injector: Injector, key: KeyId, button: Button)
    requires
        injector.open,
    ensures
        injector.keys@.contains(key) ==> injector.let_go().contains(
            Call::Key { key, down: false },
        ),
        injector.buttons@.contains(button) ==> injector.let_go().contains(
            Call::Button { button, down: false },
        ),
{
    let list = injector.let_go();
    if injector.keys@.contains(key) {
        let i = choose|i: int| 0 <= i < injector.keys@.len() && injector.keys@[i] == key;
        assert(list[i] == (Call::Key { key, down: false }));
    }
    if injector.buttons@.contains(button) {
        let i = choose|i: int| 0 <= i < injector.buttons@.len() && injector.buttons@[i] == button;
        assert(list[injector.keys@.len() + i] == (Call::Button { button, down: false }));
    }
}

} // verus!
