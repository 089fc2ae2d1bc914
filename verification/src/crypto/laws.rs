//! What the key derivation and the sealed channel promise, down to the bytes.

use vstd::prelude::*;

use crate::crypto;
use crate::crypto::{Handshake, Sealer, SessionKeys};
use crate::text;

verus! {

/// A code is read character by character: what follows a part of it does not change
/// what that part becomes.
pub proof fn codes_are_read_piece_by_piece(a: Seq<char>, b: Seq<char>)
    ensures
        crypto::normalised(a + b) == crypto::normalised(a) + crypto::normalised(b),
{
    crypto::normalised_concat(a, b);
}

/// What one character of a code becomes: white space and hyphens nothing, a small
/// ASCII letter its capital, any other ASCII character itself.
pub proof fn one_character_of_a_code(c: char)
    ensures
        c == '-' || text::is_white(c) ==> crypto::normalised(seq![c]) == Seq::<char>::empty(),
        (c as u32) < 128 && c != '-' && !text::is_white(c) ==> {
            let n = crypto::normalised(seq![c]);
            &&& n.len() == 1
            &&& 'a' <= c <= 'z' ==> n[0] as int == c as int - 32
            &&& !('a' <= c <= 'z') ==> n[0] == c
        },
{
    reveal_with_fuel(crypto::normalised, 2);
    assert(seq![c].drop_last() =~= Seq::<char>::empty());
}

/// The secret of a code is derived from what it is read as, under the name that codes
/// have there.
pub proof fn codes_have_a_name_of_their_own(code: Seq<char>)
    ensures
        crypto::code_secret(code) == crypto::blake3_derive_key(
            "crossdesk.v1.code"@,
            vstd::utf8::encode_utf8(crypto::normalised(code)),
        ),
{
}

/// A pairing code is six digits that spell the number.
pub proof fn pairing_codes_spell_their_number(n: nat)
    requires
        n < 1_000_000,
    ensures
        crypto::six_digits(n).len() == 6,
        text::laws::spelled(crypto::six_digits(n)) == n,
        crypto::is_pairing_code(crypto::six_digits(n)),
{
    let d = crypto::six_digits(n);
    spelled_step(d, 6);
    spelled_step(d, 5);
    spelled_step(d, 4);
    spelled_step(d, 3);
    spelled_step(d, 2);
    spelled_step(d, 1);
    assert(d.take(0) =~= Seq::<char>::empty());
    assert(d.take(6) =~= d);
    assert(d[0] as int - 48 == n / 100000 % 10);
    assert(d[1] as int - 48 == n / 10000 % 10);
    assert(d[2] as int - 48 == n / 1000 % 10);
    assert(d[3] as int - 48 == n / 100 % 10);
    assert(d[4] as int - 48 == n / 10 % 10);
    assert(d[5] as int - 48 == n % 10);
    digits_add_up(n as int);
}

proof fn spelled_step(d: Seq<char>, k: int)
    requires
        1 <= k <= d.len(),
    ensures
        text::laws::spelled(d.take(k)) == 10 * text::laws::spelled(d.take(k - 1)) + (d[k - 1] as int
            - 48),
{
    assert(d.take(k).drop_last() =~= d.take(k - 1));
}

proof fn digits_add_up(n: int)
    requires
        0 <= n < 1_000_000,
    ensures
        n == 10 * (10 * (10 * (10 * (10 * (n / 100000 % 10) + n / 10000 % 10) + n / 1000 % 10) + n
            / 100 % 10) + n / 10 % 10) + n % 10,
{
    assert(n / 10 == 10 * (n / 100) + n / 10 % 10);
    assert(n / 100 == 10 * (n / 1000) + n / 100 % 10);
    assert(n / 1000 == 10 * (n / 10000) + n / 1000 % 10);
    assert(n / 10000 == 10 * (n / 100000) + n / 10000 % 10);
}

/// A pairing code is six decimal digits, and nothing else is one.
pub proof fn pairing_codes_are_digits(code: Seq<char>)
    ensures
        crypto::is_pairing_code(code) <==> code.len() == 6 && forall|i: int|
            0 <= i < code.len() ==> '0' <= #[trigger] code[i] <= '9',
{
}

/// Both directions and both confirmations come from the session key, each under a name
/// of its own.
pub proof fn keys_have_names_of_their_own(keys: SessionKeys, session: Seq<u8>)
    requires
        keys.come_from(session),
    ensures
        keys.to_host() == crypto::blake3_derive_key("crossdesk.v1.client-to-host"@, session),
        keys.to_client() == crypto::blake3_derive_key("crossdesk.v1.host-to-client"@, session),
        keys.client_tag() == crypto::blake3_keyed_hash(
            session,
            vstd::utf8::encode_utf8("client-confirm"@),
        ),
        keys.host_tag() == crypto::blake3_keyed_hash(
            session,
            vstd::utf8::encode_utf8("host-confirm"@),
        ),
{
}

/// The session key binds everything that the two sides agreed on: the shared secret,
/// both public halves, the client's first, and the secret that authenticates them.
pub proof fn the_session_binds_everything(
    half: Handshake,
    peer: Seq<u8>,
    client: Seq<u8>,
    host: Seq<u8>,
    auth: Seq<u8>,
)
    ensures
        half.session(peer, client, host, auth) == crypto::blake3_derive_key(
            "crossdesk.v1.session"@,
            crypto::x25519_shared(half.half(), peer) + client + host + auth,
        ),
        half.wf() <==> half.shown() == crypto::x25519_public(half.half()),
{
}

/// The nonce of a message is twelve bytes: four zeros, then its position, low byte
/// first.
pub proof fn nonces_hold_the_position(position: u64)
    ensures
        ({
            let nonce = crypto::nonce_of(position);
            &&& nonce.len() == 12
            &&& nonce[0] == 0 && nonce[1] == 0 && nonce[2] == 0 && nonce[3] == 0
            &&& vstd::bytes::spec_u64_from_le_bytes(nonce.subrange(4, 12)) == position
        }),
{
    vstd::bytes::lemma_auto_spec_u64_to_from_le_bytes();
    let low = vstd::bytes::spec_u64_to_le_bytes(position);
    assert(low.len() == 8);
    assert(crypto::nonce_of(position).subrange(4, 12) =~= low);
}

/// A message is sealed and opened with the channel's key and the nonce of its
/// position, and the position then moves on by one.
pub proof fn messages_are_sealed_by_position(
    key: Seq<u8>,
    position: u64,
    bytes: Seq<u8>,
    after: Sealer,
    before: Sealer,
)
    ensures
        crypto::sealed_at(key, position, bytes) == crypto::chacha_sealed(
            key,
            crypto::nonce_of(position),
            bytes,
        ),
        crypto::opened_at(key, position, bytes) == crypto::chacha_opened(
            key,
            crypto::nonce_of(position),
            bytes,
        ),
        after.follows(before) ==> after.key() == before.key() && after.position() - before.position()
            == 1,
{
}

} // verus!
