//! What settings promise.

use vstd::prelude::*;

use crate::protocol;
use crate::settings;
use crate::settings::Settings;
use crate::text;

verus! {

/// Settings that start out have their own identity, name and code, share text but
/// not images, and know nobody.
pub proof fn fresh_settings_know_nobody(
    s: Settings,
    id: Seq<u8>,
    name: Seq<char>,
    code: Seq<char>,
    who: Seq<char>,
)
    requires
        settings::is_fresh(s, id, name, code),
    ensures
        s.wf(),
        s.device_id@ == protocol::hex_of(id),
        s.device_name@ == name,
        s.pairing_code@ == code,
        s.clipboard_sync,
        !s.clipboard_images,
        !s.paired_hosts@.contains_key(who),
        !s.paired_clients@.contains_key(who),
        !s.layout@.contains_key(who),
{
}

/// Text that is not an id stands for sixteen zeros; text that is stands for what its
/// digits spell.
pub proof fn ids_are_read_or_zero(bytes: Seq<u8>, i: int)
    requires
        0 <= i < 16,
    ensures
        settings::id_or_zero(bytes).len() == 16,
        bytes.len() != 32 || !protocol::all_hex(bytes) ==> settings::id_or_zero(bytes)[i] == 0,
        bytes.len() == 32 && protocol::all_hex(bytes) ==> settings::id_or_zero(bytes)[i] == 16
            * protocol::hex_value(bytes[2 * i])->0 + protocol::hex_value(bytes[2 * i + 1])->0,
{
    if bytes.len() == 32 && protocol::all_hex(bytes) {
        protocol::laws::pairs_of_digits_make_bytes(bytes, i);
    }
}

/// A copy of settings says the same in every field.
pub proof fn copies_say_the_same(a: Settings, b: Settings)
    requires
        settings::same_settings(a, b),
    ensures
        a.device_id@ == b.device_id@,
        a.device_name@ == b.device_name@,
        a.pairing_code@ == b.pairing_code@,
        a.clipboard_sync == b.clipboard_sync,
        a.clipboard_images == b.clipboard_images,
        a.paired_hosts@ == b.paired_hosts@,
        a.paired_clients@ == b.paired_clients@,
        a.layout@ == b.layout@,
{
}

/// A machine goes by the first name that says anything.
pub proof fn the_first_name_counts(candidates: Seq<Option<String>>, k: int)
    requires
        0 <= k < candidates.len(),
        candidates[k] is Some,
        text::trimmed(candidates[k]->0@).len() > 0,
        forall|i: int|
            0 <= i < k ==> (#[trigger] candidates[i] is None || text::trimmed(
                candidates[i]->0@,
            ).len() == 0),
    ensures
        settings::first_name(candidates) == Some(text::trimmed(candidates[k]->0@)),
    decreases candidates.len(),
{
    if k > 0 {
        assert(candidates[0] is None || text::trimmed(candidates[0]->0@).len() == 0);
        let rest = candidates.drop_first();
        assert forall|i: int| 0 <= i < k - 1 implies (#[trigger] rest[i] is None || text::trimmed(
            rest[i]->0@,
        ).len() == 0) by {
            assert(candidates[i + 1] is None || text::trimmed(candidates[i + 1]->0@).len() == 0);
        }
        the_first_name_counts(rest, k - 1);
    }
}

/// Where no name says anything there is none.
pub proof fn blank_names_do_not_count(candidates: Seq<Option<String>>)
    requires
        forall|i: int|
            0 <= i < candidates.len() ==> (#[trigger] candidates[i] is None || text::trimmed(
                candidates[i]->0@,
            ).len() == 0),
    ensures
        settings::first_name(candidates) is None,
    decreases candidates.len(),
{
    if candidates.len() > 0 {
        assert(candidates[0] is None || text::trimmed(candidates[0]->0@).len() == 0);
        let rest = candidates.drop_first();
        assert forall|i: int| 0 <= i < rest.len() implies (#[trigger] rest[i] is None
            || text::trimmed(rest[i]->0@).len() == 0) by {
            assert(candidates[i + 1] is None || text::trimmed(candidates[i + 1]->0@).len() == 0);
        }
        blank_names_do_not_count(rest);
    }
}

/// The three systems that people know have the names that people know; any other goes
/// by its own.
pub proof fn systems_have_their_names(os: Seq<char>)
    ensures
        settings::os_text("windows"@) == "Windows"@,
        settings::os_text("macos"@) == "macOS"@,
        settings::os_text("linux"@) == "Linux"@,
        os != "windows"@ && os != "macos"@ && os != "linux"@ ==> settings::os_text(os) == os,
{
    reveal_strlit("windows");
    reveal_strlit("macos");
    reveal_strlit("linux");
    assert("windows"@.len() == 7 && "macos"@.len() == 5 && "linux"@.len() == 5);
    assert("macos"@[0] != "linux"@[0]);
}

/// No table of the settings holds a key twice.
pub proof fn settings_hold_each_key_once(s: Settings)
    ensures
        s.wf() <==> s.paired_hosts.wf() && s.paired_clients.wf() && s.layout.wf(),
{
}

} // verus!
