//! Whether the OS will actually let this machine replay the host's input.
//!
//! Only macOS withholds this, and it withholds it in silence: every injected
//! event there ends up in `CGEventPost`, which returns `void`. A refused event is
//! indistinguishable from a delivered one at the call site, so a client without
//! permission connects, reports itself connected, counts the packets it receives
//! and moves nothing. Nothing fails, so nothing can be reported from the
//! injection path, which is why permission is asked about explicitly here rather
//! than inferred from an error that never arrives.

use vstd::prelude::*;

use crate::layout;
use crate::platform::Os;
use crate::text;

pub mod laws;

verus! {

/// How far [`ProbeRun`] nudges the pointer: enough to survive rounding between
/// points and backing pixels, little enough to read as a twitch.
pub const NUDGE: i32 = 12;

/// What the OS claims about replaying input on this machine.
#[derive(Clone, Copy, Debug, PartialEq, Eq, Structural)]
pub enum Access {
    /// This platform does not gate synthetic input, so there is nothing to grant
    /// and nothing to warn about: Windows, and X11 through XTEST.
    NotNeeded,
    Granted,
    Denied,
}

/// The result of actually trying to move this machine's pointer.
#[derive(Debug)]
pub struct Probe {
    /// True only when the pointer demonstrably moved: the one fact in here the
    /// OS cannot be wrong about.
    pub moved: bool,
    /// What the OS claims, which `moved` is allowed to contradict.
    pub access: Access,
    /// One sentence naming the outcome and, on failure, what to do about it.
    pub detail: String,
}

/// Reports whether this process may post synthetic events.
///
/// On macOS two separate records are consulted and either one answering yes is
/// enough: whether CoreGraphics would let an event through, and whether the
/// process is on the Accessibility list. The answer a *running* process gets
/// from the list does not reliably change at the moment the box is ticked, so
/// whichever record has caught up wins.
pub fn status(os: Os, can_post: bool, trusted: bool) -> (r: Access)
    ensures
        r == if os != Os::MacOs {
            Access::NotNeeded
        } else if can_post || trusted {
            Access::Granted
        } else {
            Access::Denied
        },
{
    if os != Os::MacOs {
        Access::NotNeeded
    } else if can_post || trusted {
        Access::Granted
    } else {
        Access::Denied
    }
}

/// What became of opening System Settings, given how the attempt to start it
/// went: whether it reported success, or why it could not be started.
pub open spec fn settings_outcome(os: Os, launched: Result<bool, String>) -> Option<Seq<char>> {
    if os != Os::MacOs {
        Some("there is no input permission to grant on this platform"@)
    } else {
        match launched {
            Ok(true) => None,
            Ok(false) => Some("macOS declined to open System Settings"@),
            Err(why) => Some("could not open System Settings: "@ + why@),
        }
    }
}

/// Reports what became of opening System Settings on the Accessibility pane.
pub fn open_settings(os: Os, launched: Result<bool, String>) -> (r: Result<(), String>)
    ensures
        match r {
            Ok(()) => settings_outcome(os, launched) is None,
            Err(why) => settings_outcome(os, launched) == Some(why@),
        },
{
    if os != Os::MacOs {
        return Err("there is no input permission to grant on this platform".to_owned());
    }
    match launched {
        Ok(true) => Ok(()),
        Ok(false) => Err("macOS declined to open System Settings".to_owned()),
        Err(why) => {
            let mut message = "could not open System Settings: ".to_owned();
            text::push_text(&mut message, why.as_str());
            Err(message)
        },
    }
}

/// The one sentence the user should read, given what happened.
pub open spec fn detail_text(moved: bool, access: Access, os: Os) -> Seq<char> {
    if moved {
        "the pointer moved: this machine can replay the host's input"@
    } else if os == Os::MacOs {
        if access == Access::Granted {
            "macOS reports Accessibility as granted, but the pointer did not move, so the grant belongs to a different build of CrossDesk. Remove CrossDesk from System Settings → Privacy & Security → Accessibility with the \"−\" button, then press Grant permission here and restart CrossDesk."@
        } else {
            "macOS has not granted Accessibility to this copy of CrossDesk, so injected input is being dropped."@
        }
    } else {
        "the pointer did not move, and this platform reported no reason why"@
    }
}

/// The one sentence the user should read, given what happened.
pub fn detail_for(moved: bool, access: Access, os: Os) -> (r: String)
    ensures
        r@ == detail_text(moved, access, os),
{
    if moved {
        return "the pointer moved: this machine can replay the host's input".to_owned();
    }
    if os == Os::MacOs {
        // Deliberately blunt about a grant that is lying. This is the case that
        // wastes the most of the user's time, because Settings shows CrossDesk
        // enabled while every event posted is dropped: macOS keys the grant to a
        // code signature and a bundle path, and a rebuilt unsigned binary is a
        // different identity from the one that was ticked.
        return match access {
            Access::Granted => {
                "macOS reports Accessibility as granted, but the pointer did not move, so the grant belongs to a different build of CrossDesk. Remove CrossDesk from System Settings → Privacy & Security → Accessibility with the \"−\" button, then press Grant permission here and restart CrossDesk.".to_owned()
            },
            _ => {
                "macOS has not granted Accessibility to this copy of CrossDesk, so injected input is being dropped.".to_owned()
            },
        };
    }
    "the pointer did not move, and this platform reported no reason why".to_owned()
}

/// A probe that is under way: moves the pointer and reads it back. The only way
/// to settle a question the OS answers unreliably, and the only check that
/// survives a stale grant.
///
/// Two nudges in opposite directions, because one is not conclusive: a pointer
/// already wedged in the bottom-right corner cannot move further that way, and a
/// clamped move looks exactly like a refused one. The pointer is put back
/// afterwards, so running this is not disruptive.
#[derive(Debug)]
pub struct ProbeRun {
    pub os: Os,
    pub access: Access,
    pub start: (i32, i32),
    /// Where the pointer was last seen.
    pub at: (i32, i32),
    /// How many nudges have been made.
    pub nudges: u8,
    /// Nothing more to learn.
    pub settled: bool,
}

impl ProbeRun {
    /// Where the next nudge aims.
    pub open spec fn aim(&self) -> (int, int) {
        let step: int = if self.nudges == 0 {
            NUDGE as int
        } else {
            -NUDGE
        };
        (self.at.0 + step, self.at.1 + step)
    }

    /// Begins a probe at the pointer's position. Where that cannot be read there
    /// is nothing to try, and the probe is over already.
    ///
    /// On macOS a refused process cannot read the pointer either, so the
    /// permission wording is the useful answer rather than "could not read".
    /// Elsewhere the read itself is the news.
    pub fn begin(os: Os, access: Access, cursor: Option<(i32, i32)>) -> (r: Result<Self, Probe>)
        ensures
            match cursor {
                Some(start) => r == Ok::<ProbeRun, Probe>(
                    ProbeRun { os, access, start, at: start, nudges: 0, settled: false },
                ),
                None => {
                    &&& r is Err
                    &&& !r->Err_0.moved
                    &&& r->Err_0.access == access
                    &&& r->Err_0.detail@ == if access == Access::NotNeeded {
                        "could not read the pointer position, so movement cannot be verified"@
                    } else {
                        detail_text(false, access, os)
                    }
                },
            },
    {
        match cursor {
            Some(start) => Ok(
                ProbeRun { os, access, start, at: start, nudges: 0, settled: false },
            ),
            None => {
                let detail = match access {
                    Access::NotNeeded => {
                        "could not read the pointer position, so movement cannot be verified".to_owned()
                    },
                    _ => detail_for(false, access, os),
                };
                Err(Probe { moved: false, access, detail })
            },
        }
    }

    /// Whether the next nudge, if there is one, aims at a position that exists.
    pub fn may_nudge(&self) -> (r: bool)
        ensures
            r == (!self.settled ==> layout::fits(self.aim().0) && layout::fits(self.aim().1)),
    {
        let step: i32 = if self.nudges == 0 {
            NUDGE
        } else {
            -NUDGE
        };
        self.settled || (self.at.0.checked_add(step).is_some() && self.at.1.checked_add(
            step,
        ).is_some())
    }

    /// Where to move the pointer next, if there is anything left to try.
    pub fn next(&self) -> (r: Option<(i32, i32)>)
        requires
            !self.settled ==> layout::fits(self.aim().0) && layout::fits(self.aim().1),
        ensures
            match r {
                Some(to) => !self.settled && (to.0 as int, to.1 as int) == self.aim(),
                None => self.settled,
            },
    {
        if self.settled {
            return None;
        }
        let step: i32 = if self.nudges == 0 {
            NUDGE
        } else {
            -NUDGE
        };
        Some((self.at.0 + step, self.at.1 + step))
    }

    /// Takes in where the pointer is after a nudge. The probe is settled once
    /// the pointer has moved, could not be read, or did not answer to either
    /// nudge.
    pub fn observe(&mut self, now: Option<(i32, i32)>)
        requires
            !old(self).settled,
            old(self).nudges <= 1,
        ensures
            *final(self) == match now {
                Some(at) => ProbeRun {
                    at,
                    nudges: (old(self).nudges + 1) as u8,
                    settled: at != old(self).start || old(self).nudges == 1,
                    ..*old(self)
                },
                None => ProbeRun { settled: true, ..*old(self) },
            },
    {
        match now {
            Some(at) => {
                self.at = at;
                self.settled = at.0 != self.start.0 || at.1 != self.start.1 || self.nudges == 1;
                self.nudges = self.nudges + 1;
            },
            None => {
                self.settled = true;
            },
        }
    }

    /// What the probe found, and where to put the pointer back if it moved.
    pub fn finish(&self) -> (r: (Probe, Option<(i32, i32)>))
        ensures
            r.0.moved == (self.at != self.start),
            r.0.access == self.access,
            r.0.detail@ == detail_text(self.at != self.start, self.access, self.os),
            r.1 == if self.at != self.start {
                Some(self.start)
            } else {
                None
            },
    {
        let moved = self.at.0 != self.start.0 || self.at.1 != self.start.1;
        let detail = detail_for(moved, self.access, self.os);
        let back = if moved {
            Some(self.start)
        } else {
            None
        };
        (Probe { moved, access: self.access, detail }, back)
    }
}

/// Movement is the ground truth: whatever the OS claims, a pointer that moved
/// gets the same answer.
pub proof fn movement_is_the_ground_truth(a: Access, b: Access, os: Os, other: Os)
    ensures
        detail_text(true, a, os) == detail_text(true, b, other),
{
}

/// Nothing to grant off macOS, so nothing may nag about it.
pub proof fn elsewhere_the_claim_is_ignored(a: Access, b: Access, moved: bool, os: Os)
    requires
        os != Os::MacOs,
    ensures
        detail_text(moved, a, os) == detail_text(moved, b, os),
{
}

} // verus!
