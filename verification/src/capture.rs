//! Host-side input capture.
//!
//! Two jobs, and on Windows they need two different mechanisms:
//!
//! * **Suppression**: while a remote device owns the pointer, nothing may
//!   reach local windows. Low-level hooks (`WH_MOUSE_LL`, `WH_KEYBOARD_LL`)
//!   can swallow an event by returning non-zero, which is the only way to do
//!   this without a driver.
//! * **Motion**: hook coordinates are clamped to the desktop, so once the
//!   cursor is parked against an edge they stop changing and can never tell us
//!   "the user kept pushing right". Raw Input (`WM_INPUT`) reports true device
//!   deltas regardless of where the cursor is, so that is what drives the wall.
//!
//! The hooks themselves belong to the program. What each of them makes of an
//! event is decided here.

use vstd::prelude::*;

use crate::platform::Os;
use crate::protocol::Button;
use crate::text;

pub mod win;

verus! {

/// A raw event straight off the input hardware, before any layout maths.
#[derive(Clone, Copy, Debug, PartialEq, Eq, Structural)]
pub enum CaptureEvent {
    /// True device motion, in device units.
    Motion { dx: i32, dy: i32 },
    /// Where the real cursor ended up. Only acted on while control is local;
    /// it keeps the wall in step with anything else that moves the pointer.
    MotionAbs { x: i32, y: i32 },
    Button { button: Button, down: bool },
    /// Wheel deltas in 1/120 of a notch, so hi-res wheels keep precision.
    Wheel { dx: i16, dy: i16 },
    Key { vk: u16, scan: u16, ext: bool, down: bool },
    /// The escape hotkey was pressed: pull the pointer back to this machine.
    Escape,
}

#[derive(Clone, Copy, Debug, PartialEq, Eq, Structural)]
pub enum CaptureError {
    /// Input capture is not implemented on this platform yet.
    Unsupported,
    /// The system input hooks could not be installed.
    HookFailed(u32),
}

impl CaptureError {
    /// What the user is told.
    pub open spec fn text(&self) -> Seq<char> {
        match self {
            CaptureError::Unsupported => {
                "input capture is not implemented on this platform yet, so this device can only join as a client"@
            },
            CaptureError::HookFailed(code) => {
                "could not install the system input hooks (error "@ + text::decimal(*code as nat)
                    + "); another program may already own them"@
            },
        }
    }

    /// What the user is told.
    pub fn message(&self) -> (r: String)
        ensures
            r@ == self.text(),
    {
        match self {
            CaptureError::Unsupported => {
                "input capture is not implemented on this platform yet, so this device can only join as a client".to_owned()
            },
            CaptureError::HookFailed(code) => {
                let mut r = "could not install the system input hooks (error ".to_owned();
                text::push_decimal(&mut r, *code as u64);
                text::push_text(&mut r, "); another program may already own them");
                r
            },
        }
    }
}

/// Whether this machine can take the host role.
///
/// Capture is the only half of CrossDesk that needs per-platform code: a client
/// just injects what it is told, which works everywhere. So this is the one
/// thing the UI has to ask about before offering to host.
pub fn supported(os: Os) -> (r: bool)
    ensures
        r == (os == Os::Windows),
{
    os == Os::Windows
}

/// Whether capturing can begin at all on this machine. Where it cannot, the
/// user is told so rather than left with a host that sees nothing.
pub fn may_start(os: Os) -> (r: Result<(), CaptureError>)
    ensures
        r == if os == Os::Windows {
            Ok::<(), CaptureError>(())
        } else {
            Err(CaptureError::Unsupported)
        },
{
    if supported(os) {
        Ok(())
    } else {
        Err(CaptureError::Unsupported)
    }
}

} // verus!
