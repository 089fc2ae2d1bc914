//! What the permission checks promise.

use vstd::prelude::*;

use crate::permission;
use crate::permission::{Access, ProbeRun};
use crate::platform::Os;

verus! {

/// The first nudge goes down and to the right, the second, and any later one, back up
/// and to the left by as much.
pub proof fn nudges_go_both_ways(run: ProbeRun)
    ensures
        run.nudges == 0 ==> run.aim().0 == run.at.0 + 12 && run.aim().1 == run.at.1 + 12,
        run.nudges > 0 ==> run.aim().0 == run.at.0 - 12 && run.aim().1 == run.at.1 - 12,
{
}

/// System Settings are only opened on macOS, and the user hears of every failure.
pub proof fn failures_to_open_are_told(os: Os, launched: Result<bool, String>)
    ensures
        permission::settings_outcome(os, launched) is None <==> os == Os::MacOs && launched == Ok::<
            bool,
            String,
        >(true),
        os != Os::MacOs ==> permission::settings_outcome(os, launched) == Some(
            "there is no input permission to grant on this platform"@,
        ),
        os == Os::MacOs && launched == Ok::<bool, String>(false) ==> permission::settings_outcome(
            os,
            launched,
        ) == Some("macOS declined to open System Settings"@),
        os == Os::MacOs ==> (launched matches Err(why) ==> permission::settings_outcome(os, launched)
            == Some("could not open System Settings: "@ + why@)),
{
}

/// A pointer that did not move is explained by what the user can do about it: off
/// macOS nothing; on macOS it depends on whether access is claimed to be granted.
pub proof fn stillness_is_explained(a: Access, b: Access, os: Os)
    ensures
        os != Os::MacOs ==> permission::detail_text(false, a, os)
            == "the pointer did not move, and this platform reported no reason why"@,
        os == Os::MacOs && a != Access::Granted ==> permission::detail_text(false, a, os)
            == "macOS has not granted Accessibility to this copy of CrossDesk, so injected input is being dropped."@,
        os == Os::MacOs && a == Access::Granted && b != Access::Granted ==> permission::detail_text(
            false,
            a,
            os,
        ) != permission::detail_text(false, b, os),
        permission::detail_text(true, a, os)
            == "the pointer moved: this machine can replay the host's input"@,
{
    reveal_strlit(
        "macOS has not granted Accessibility to this copy of CrossDesk, so injected input is being dropped.",
    );
    reveal_strlit(
        "macOS reports Accessibility as granted, but the pointer did not move, so the grant belongs to a different build of CrossDesk. Remove CrossDesk from System Settings → Privacy & Security → Accessibility with the \"−\" button, then press Grant permission here and restart CrossDesk.",
    );
    assert("macOS has not granted Accessibility to this copy of CrossDesk, so injected input is being dropped."@[6]
        == 'h');
    assert("macOS reports Accessibility as granted, but the pointer did not move, so the grant belongs to a different build of CrossDesk. Remove CrossDesk from System Settings → Privacy & Security → Accessibility with the \"−\" button, then press Grant permission here and restart CrossDesk."@[6]
        == 'r');
}

} // verus!
