//! Pairing and transport keys.
//!
//! There is no server and no account: a client proves it is allowed in by
//! knowing the host's short pairing code. The code is mixed into the key
//! derivation, so a wrong code produces a different session key and the
//! handshake simply fails to authenticate: codes are never compared directly.
//!
//! After a successful pairing the host hands the client a random 32-byte
//! pre-shared key over the encrypted channel, so the code only ever has to be
//! typed once per device.
//!
//! The primitives come from `blake3`, `x25519-dalek`, `chacha20poly1305` and
//! `getrandom`. What they compute has a name here and no definition; the
//! contracts state exactly what goes into each of them and where its result
//! goes.

use chacha20poly1305::aead::{AeadInOut, KeyInit};
use vstd::prelude::*;
use vstd::string::StringSliceAdditionalSpecFns;

use crate::text;

pub mod laws;

verus! {

pub const CTX_CODE: &'static str = "crossdesk.v1.code";

pub const CTX_SESSION: &'static str = "crossdesk.v1.session";

pub const CTX_C2H: &'static str = "crossdesk.v1.client-to-host";

pub const CTX_H2C: &'static str = "crossdesk.v1.host-to-client";

pub const CONFIRM_CLIENT: &'static str = "client-confirm";

pub const CONFIRM_HOST: &'static str = "host-confirm";

/// Bytes that authentication adds to every sealed message.
pub const TAG_LEN: usize = 16;

#[derive(Clone, Copy, Debug, PartialEq, Eq, Structural)]
pub enum CryptoError {
    /// Peer failed authentication (wrong pairing code?).
    Auth,
    /// Message could not be decrypted; connection is out of sync.
    Decrypt,
    /// Message was too large to encode.
    TooLarge,
}

impl CryptoError {
    /// What the user is told.
    pub open spec fn text(&self) -> Seq<char> {
        match self {
            CryptoError::Auth => "peer failed authentication (wrong pairing code?)"@,
            CryptoError::Decrypt => {
                "message could not be decrypted; connection is out of sync"@
            },
            CryptoError::TooLarge => "message was too large to encode"@,
        }
    }

    /// What the user is told.
    pub fn message(&self) -> (r: String)
        ensures
            r@ == self.text(),
    {
        match self {
            CryptoError::Auth => "peer failed authentication (wrong pairing code?)".to_owned(),
            CryptoError::Decrypt => {
                "message could not be decrypted; connection is out of sync".to_owned()
            },
            CryptoError::TooLarge => "message was too large to encode".to_owned(),
        }
    }
}

/// The system has no randomness to give.
#[derive(Clone, Copy, Debug, PartialEq, Eq, Structural)]
pub struct RandomError;

pub type Secret = [u8; 32];

/// What `blake3::derive_key` returns for a context and key material.
pub uninterp spec fn blake3_derive_key(context: Seq<char>, material: Seq<u8>) -> Seq<u8>;

/// What `blake3::keyed_hash` returns for a key and a message.
pub uninterp spec fn blake3_keyed_hash(key: Seq<u8>, message: Seq<u8>) -> Seq<u8>;

/// `blake3::derive_key`: a fixed function of the context string and the key
/// material, named and not described further.
#[verifier::external_body]
fn derive_key(context: &str, material: &[u8]) -> (r: [u8; 32])
    ensures
        r@ == blake3_derive_key(context@, material@),
{
    blake3::derive_key(context, material)
}

/// `blake3::keyed_hash`: a fixed function of the key and the message, named and
/// not described further.
#[verifier::external_body]
fn keyed_hash(key: &Secret, message: &[u8]) -> (r: [u8; 32])
    ensures
        r@ == blake3_keyed_hash(key@, message@),
{
    *blake3::keyed_hash(key, message).as_bytes()
}

/// `==` on `blake3::Hash`: true exactly when all 32 bytes agree. It takes the
/// same time wherever they differ; that is not stated.
#[verifier::external_body]
fn same_tag(a: &[u8; 32], b: &[u8; 32]) -> (r: bool)
    ensures
        r == (a@ == b@),
{
    blake3::Hash::from(*a) == blake3::Hash::from(*b)
}

/// A character of a typed code that carries no meaning.
pub open spec fn is_separator(c: char) -> bool {
    text::is_white(c) || c == '-'
}

/// A typed code as it enters the key derivation: separators dropped, the rest
/// in upper case.
pub open spec fn normalised(code: Seq<char>) -> Seq<char>
    decreases code.len(),
{
    if code.len() == 0 {
        seq![]
    } else if is_separator(code.last()) {
        normalised(code.drop_last())
    } else {
        normalised(code.drop_last()) + text::upper(code.last())
    }
}

/// The secret that a typed code stands for.
pub open spec fn code_secret(code: Seq<char>) -> Seq<u8> {
    blake3_derive_key(CTX_CODE@, vstd::utf8::encode_utf8(normalised(code)))
}

/// Drops separators from a typed code and puts the rest in upper case.
pub fn normalise(code: &str) -> (r: String)
    ensures
        r@ == normalised(code@),
{
    let chars = text::chars_of(code);
    let mut out = String::new();
    let mut i: usize = 0;
    assert(chars@.take(0) =~= seq![]);
    while i < chars.len()
        invariant
            i <= chars@.len(),
            out@ == normalised(chars@.take(i as int)),
        decreases chars@.len() - i,
    {
        let c = chars[i];
        assert(chars@.take(i + 1).drop_last() =~= chars@.take(i as int));
        assert(chars@.take(i + 1).last() == c);
        if !c.is_whitespace() && c != '-' {
            text::push_upper(&mut out, c);
        }
        i += 1;
    }
    assert(chars@.take(chars@.len() as int) =~= chars@);
    out
}

/// Turn a human pairing code into the shared secret used for a first pairing.
/// Whitespace and case are ignored so "1234 56" and "123456" behave the same.
pub fn secret_from_code(code: &str) -> (r: Secret)
    ensures
        r@ == code_secret(code@),
{
    let plain = normalise(code);
    derive_key(CTX_CODE, plain.as_str().as_bytes())
}

proof fn normalised_concat(a: Seq<char>, b: Seq<char>)
    ensures
        normalised(a + b) == normalised(a) + normalised(b),
    decreases b.len(),
{
    if b.len() == 0 {
        assert(a + b =~= a);
        assert(normalised(a) + normalised(b) =~= normalised(a));
    } else {
        assert((a + b).drop_last() =~= a + b.drop_last());
        assert((a + b).last() == b.last());
        normalised_concat(a, b.drop_last());
        if !is_separator(b.last()) {
            assert(normalised(a) + (normalised(b.drop_last()) + text::upper(b.last())) =~= (
            normalised(a) + normalised(b.drop_last())) + text::upper(b.last()));
        }
    }
}

/// White space and hyphens mean nothing in a code: typing one anywhere gives
/// the same secret.
pub proof fn separators_are_ignored(before: Seq<char>, c: char, after: Seq<char>)
    requires
        is_separator(c),
    ensures
        code_secret(before.push(c) + after) == code_secret(before + after),
{
    normalised_concat(before.push(c), after);
    normalised_concat(before, after);
    assert(before.push(c).drop_last() =~= before);
}

/// Case means nothing in a code: an ASCII letter gives the same secret in
/// either case.
pub proof fn case_is_ignored(before: Seq<char>, c: char, after: Seq<char>)
    requires
        'a' <= c <= 'z',
    ensures
        code_secret(before.push(c) + after) == code_secret(
            before.push(text::ascii_upper(c)) + after,
        ),
{
    let u = text::ascii_upper(c);
    normalised_concat(before.push(c), after);
    normalised_concat(before.push(u), after);
    assert(before.push(c).drop_last() =~= before);
    assert(before.push(u).drop_last() =~= before);
    assert(text::upper(u) == text::upper(c));
}

/// The outside error of `getrandom`.
#[verifier::external_type_specification]
#[verifier::external_body]
pub struct ExRandomError(getrandom::Error);

/// `getrandom::fill` on a fresh array. An array without bytes is filled without
/// asking the system, so that cannot fail. Nothing is claimed of the bytes, nor
/// of when the system has some to give.
#[verifier::external_body]
fn fill_array<const N: usize>() -> (r: Result<[u8; N], getrandom::Error>)
    ensures
        N == 0 ==> r is Ok,
{
    let mut out = [0u8; N];
    getrandom::fill(&mut out)?;
    Ok(out)
}

/// What asking for random bytes comes to, given the system's answer: the bytes
/// as they came, or that there are none.
pub fn bytes_given<const N: usize>(filled: Result<[u8; N], getrandom::Error>) -> (r: Result<
    [u8; N],
    RandomError,
>)
    ensures
        r == match filled {
            Ok(out) => Ok::<[u8; N], RandomError>(out),
            Err(_) => Err(RandomError),
        },
{
    match filled {
        Ok(out) => Ok(out),
        Err(_) => Err(RandomError),
    }
}

/// Random bytes from the operating system, or an error where it has none to
/// give. Which bytes they are, and whether there are any, is left to the system;
/// asking for none always succeeds.
pub fn random_bytes<const N: usize>() -> (r: Result<[u8; N], RandomError>)
    ensures
        N == 0 ==> r is Ok,
{
    bytes_given(fill_array::<N>())
}

/// The last six decimal digits of `n`, leading zeros included.
pub open spec fn six_digits(n: nat) -> Seq<char> {
    seq![
        text::digit_char((n / 100000 % 10) as int),
        text::digit_char((n / 10000 % 10) as int),
        text::digit_char((n / 1000 % 10) as int),
        text::digit_char((n / 100 % 10) as int),
        text::digit_char((n / 10 % 10) as int),
        text::digit_char((n % 10) as int),
    ]
}

/// The pairing code that eight random bytes spell.
pub fn pairing_code_from(raw: &[u8; 8]) -> (r: String)
    ensures
        r@ == six_digits(vstd::bytes::spec_u64_from_le_bytes(raw@) as nat % 1_000_000),
{
    let all: u64 = vstd::bytes::u64_from_le_bytes(raw.as_slice());
    let n: u64 = all % 1_000_000;
    let mut out = String::new();
    push_digit(&mut out, n / 100000);
    push_digit(&mut out, n / 10000);
    push_digit(&mut out, n / 1000);
    push_digit(&mut out, n / 100);
    push_digit(&mut out, n / 10);
    push_digit(&mut out, n);
    assert(out@ =~= six_digits(n as nat));
    out
}

/// Appends the last decimal digit of `n`.
fn push_digit(s: &mut String, n: u64)
    ensures
        final(s)@ == old(s)@.push(text::digit_char((n % 10) as int)),
{
    let digit: u8 = 48u8 + (n % 10) as u8;
    s.push(digit as char);
}

/// Six decimal digits.
pub open spec fn is_pairing_code(code: Seq<char>) -> bool {
    &&& code.len() == 6
    &&& forall|i: int| 0 <= i < 6 ==> '0' <= #[trigger] code[i] <= '9'
}

/// The pairing code for what came of asking for eight random bytes: there is one
/// exactly when there were bytes.
pub fn pairing_code_given(raw: Result<[u8; 8], RandomError>) -> (r: Result<String, RandomError>)
    ensures
        match raw {
            Ok(bytes) => {
                &&& r is Ok
                &&& r->Ok_0@ == six_digits(
                    vstd::bytes::spec_u64_from_le_bytes(bytes@) as nat % 1_000_000,
                )
                &&& is_pairing_code(r->Ok_0@)
            },
            Err(e) => r == Err::<String, RandomError>(e),
        },
{
    match raw {
        Ok(bytes) => Ok(pairing_code_from(&bytes)),
        Err(e) => Err(e),
    }
}

/// Six digits, grouped as `123 456` in the UI. Short enough to read aloud.
/// Which digits they are is left to chance.
pub fn random_pairing_code() -> (r: Result<String, RandomError>)
    ensures
        r is Ok ==> is_pairing_code(r->Ok_0@),
{
    pairing_code_given(random_bytes::<8>())
}

/// A one-use secret of `x25519-dalek`.
#[verifier::external_type_specification]
#[verifier::external_body]
pub struct ExEphemeralSecret(x25519_dalek::EphemeralSecret);

/// The public key that `x25519-dalek` computes from a secret.
pub uninterp spec fn x25519_public(secret: x25519_dalek::EphemeralSecret) -> Seq<u8>;

/// What `EphemeralSecret::diffie_hellman` returns for a secret and a peer's
/// public key.
pub uninterp spec fn x25519_shared(secret: x25519_dalek::EphemeralSecret, peer: Seq<u8>) -> Seq<
    u8,
>;

/// `EphemeralSecret::random`: a fresh secret. Nothing is claimed of it. On a
/// machine whose system randomness is gone it does not return: the call panics.
pub assume_specification[ x25519_dalek::EphemeralSecret::random ]() -> x25519_dalek::EphemeralSecret;

/// `PublicKey::from` on a secret, as bytes: a fixed function of the secret,
/// named and not described further.
#[verifier::external_body]
fn public_key(secret: &x25519_dalek::EphemeralSecret) -> (r: [u8; 32])
    ensures
        r@ == x25519_public(*secret),
{
    x25519_dalek::PublicKey::from(secret).to_bytes()
}

/// `EphemeralSecret::diffie_hellman`: a fixed function of the secret and the
/// peer's public key. Two secrets that swap public keys arrive at the same
/// bytes, because scalar multiplication commutes.
#[verifier::external_body]
fn diffie_hellman(secret: x25519_dalek::EphemeralSecret, peer: &[u8; 32]) -> (r: [u8; 32])
    ensures
        r@ == x25519_shared(secret, peer@),
        forall|other: x25519_dalek::EphemeralSecret|
            peer@ == #[trigger] x25519_public(other) ==> r@ == x25519_shared(
                other,
                x25519_public(secret),
            ),
{
    *secret.diffie_hellman(&x25519_dalek::PublicKey::from(*peer)).as_bytes()
}

/// One side's half of the key agreement.
pub struct Handshake {
    secret: x25519_dalek::EphemeralSecret,
    pub public: [u8; 32],
}

/// Everything derived once both public keys and the auth secret are known.
pub struct SessionKeys {
    pub client_to_host: Secret,
    pub host_to_client: Secret,
    confirm_client: [u8; 32],
    confirm_host: [u8; 32],
}

/// What the two sides have in common, in the order in which it is hashed.
pub open spec fn session_material(
    shared: Seq<u8>,
    client_public: Seq<u8>,
    host_public: Seq<u8>,
    auth: Seq<u8>,
) -> Seq<u8> {
    shared + client_public + host_public + auth
}

/// The key that both directions and both confirmations are derived from.
pub open spec fn session_key(
    shared: Seq<u8>,
    client_public: Seq<u8>,
    host_public: Seq<u8>,
    auth: Seq<u8>,
) -> Seq<u8> {
    blake3_derive_key(
        CTX_SESSION@,
        session_material(shared, client_public, host_public, auth),
    )
}

impl SessionKeys {
    /// The key that the client writes with.
    pub closed spec fn to_host(&self) -> Seq<u8> {
        self.client_to_host@
    }

    /// The key that the host writes with.
    pub closed spec fn to_client(&self) -> Seq<u8> {
        self.host_to_client@
    }

    /// What a client with these keys confirms them with.
    pub closed spec fn client_tag(&self) -> Seq<u8> {
        self.confirm_client@
    }

    /// What a host with these keys confirms them with.
    pub closed spec fn host_tag(&self) -> Seq<u8> {
        self.confirm_host@
    }

    /// These are the keys that a session key gives.
    pub open spec fn come_from(&self, session: Seq<u8>) -> bool {
        &&& self.to_host() == blake3_derive_key(CTX_C2H@, session)
        &&& self.to_client() == blake3_derive_key(CTX_H2C@, session)
        &&& self.client_tag() == blake3_keyed_hash(
            session,
            vstd::utf8::encode_utf8(CONFIRM_CLIENT@),
        )
        &&& self.host_tag() == blake3_keyed_hash(session, vstd::utf8::encode_utf8(CONFIRM_HOST@))
    }
}

impl Handshake {
    /// The half that stays here.
    pub closed spec fn half(&self) -> x25519_dalek::EphemeralSecret {
        self.secret
    }

    /// The half that the peer gets to see.
    pub closed spec fn shown(&self) -> Seq<u8> {
        self.public@
    }

    /// The public half belongs to the secret.
    pub open spec fn wf(&self) -> bool {
        self.shown() == x25519_public(self.half())
    }

    /// A public half is 32 bytes long.
    pub proof fn shown_is_a_key(self)
        ensures
            self.shown().len() == 32,
    {
    }

    /// The half that the peer gets to see.
    pub fn public_key(&self) -> (r: [u8; 32])
        ensures
            r@ == self.shown(),
    {
        self.public
    }

    /// The session key that this half arrives at.
    pub open spec fn session(
        &self,
        peer_public: Seq<u8>,
        client_public: Seq<u8>,
        host_public: Seq<u8>,
        auth: Seq<u8>,
    ) -> Seq<u8> {
        session_key(
            x25519_shared(self.half(), peer_public),
            client_public,
            host_public,
            auth,
        )
    }

    /// A fresh half. Which one it is is left to chance.
    pub fn new() -> (r: Self)
        ensures
            r.wf(),
    {
        let secret = x25519_dalek::EphemeralSecret::random();
        let public = public_key(&secret);
        Handshake { secret, public }
    }

    /// Consumes the ephemeral secret; `auth` is the pairing-code secret or a
    /// stored pre-shared key. Binding both public keys and `auth` into the
    /// derivation is what authenticates the peer.
    ///
    /// Both sides arrive at the same keys: whatever half the peer's public key
    /// belongs to, that half, given this one's public key and the same `auth`,
    /// derives them too.
    pub fn finish(
        self,
        peer_public: &[u8; 32],
        client_public: &[u8; 32],
        host_public: &[u8; 32],
        auth: &Secret,
    ) -> (r: SessionKeys)
        requires
            self.wf(),
        ensures
            r.come_from(self.session(peer_public@, client_public@, host_public@, auth@)),
            forall|other: Handshake|
                #![trigger other.wf()]
                other.wf() && other.shown() == peer_public@ ==> r.come_from(
                    other.session(self.shown(), client_public@, host_public@, auth@),
                ),
    {
        let shared = diffie_hellman(self.secret, peer_public);
        let mut material: Vec<u8> = Vec::new();
        material.extend_from_slice(shared.as_slice());
        material.extend_from_slice(client_public.as_slice());
        material.extend_from_slice(host_public.as_slice());
        material.extend_from_slice(auth.as_slice());
        assert(material@ =~= shared@ + client_public@ + host_public@ + auth@);
        let session = derive_key(CTX_SESSION, material.as_slice());
        SessionKeys {
            client_to_host: derive_key(CTX_C2H, session.as_slice()),
            host_to_client: derive_key(CTX_H2C, session.as_slice()),
            confirm_client: keyed_hash(&session, CONFIRM_CLIENT.as_bytes()),
            confirm_host: keyed_hash(&session, CONFIRM_HOST.as_bytes()),
        }
    }
}

impl SessionKeys {
    /// The keys of the two directions: that of the client's messages, then that
    /// of the host's.
    pub fn directions(&self) -> (r: (Secret, Secret))
        ensures
            r.0@ == self.to_host(),
            r.1@ == self.to_client(),
    {
        (self.client_to_host, self.host_to_client)
    }

    pub fn client_confirmation(&self) -> (r: [u8; 32])
        ensures
            r@ == self.client_tag(),
    {
        self.confirm_client
    }

    pub fn host_confirmation(&self) -> (r: [u8; 32])
        ensures
            r@ == self.host_tag(),
    {
        self.confirm_host
    }

    /// Accepts exactly the tag that a client with these keys sends.
    pub fn verify_client(&self, tag: &[u8; 32]) -> (r: Result<(), CryptoError>)
        ensures
            r is Ok <==> tag@ == self.client_tag(),
            r is Err ==> r->Err_0 == CryptoError::Auth,
    {
        if same_tag(&self.confirm_client, tag) {
            Ok(())
        } else {
            Err(CryptoError::Auth)
        }
    }

    /// Accepts exactly the tag that a host with these keys sends.
    pub fn verify_host(&self, tag: &[u8; 32]) -> (r: Result<(), CryptoError>)
        ensures
            r is Ok <==> tag@ == self.host_tag(),
            r is Err ==> r->Err_0 == CryptoError::Auth,
    {
        if same_tag(&self.confirm_host, tag) {
            Ok(())
        } else {
            Err(CryptoError::Auth)
        }
    }
}

/// The longest message that one nonce has keystream for.
pub const KEYSTREAM_LEN: u64 = 274877906816;

/// Messages from this length on are refused.
pub const SEAL_LIMIT: u64 = 274877906880;

/// The outside error of the cipher.
#[verifier::external_type_specification]
#[verifier::external_body]
pub struct ExCipherError(chacha20poly1305::aead::Error);

/// What ChaCha20-Poly1305 makes of a message, tag appended, under a key and a
/// nonce and without associated data.
pub uninterp spec fn chacha_sealed(key: Seq<u8>, nonce: Seq<u8>, plain: Seq<u8>) -> Seq<u8>;

/// The message that ChaCha20-Poly1305 finds in sealed bytes under a key and a
/// nonce and without associated data, if they authenticate.
pub uninterp spec fn chacha_opened(key: Seq<u8>, nonce: Seq<u8>, sealed: Seq<u8>) -> Option<
    Seq<u8>,
>;

/// `AeadInOut::encrypt_in_place` of `ChaCha20Poly1305`, without associated
/// data. A message below [`SEAL_LIMIT`] is replaced by a fixed function of key,
/// nonce and message that is sixteen bytes longer; a longer one is refused and
/// left as it was. The lengths just below the limit, for which the keystream
/// runs out, are the ones on which the call panics, as it does where the tag
/// would make the vector longer than a vector can be.
#[verifier::external_body]
fn aead_seal(key: &Secret, nonce: &[u8; 12], buf: &mut Vec<u8>) -> (r: Result<
    (),
    chacha20poly1305::aead::Error,
>)
    requires
        old(buf)@.len() <= KEYSTREAM_LEN || old(buf)@.len() >= SEAL_LIMIT,
        old(buf)@.len() >= SEAL_LIMIT || old(buf)@.len() + TAG_LEN <= isize::MAX,
    ensures
        r is Ok <==> old(buf)@.len() < SEAL_LIMIT,
        r is Ok ==> final(buf)@ == chacha_sealed(key@, nonce@, old(buf)@) && final(buf)@.len()
            == old(buf)@.len() + TAG_LEN,
        r is Err ==> final(buf)@ == old(buf)@,
{
    let cipher = chacha20poly1305::ChaCha20Poly1305::new(&chacha20poly1305::Key::from(*key));
    cipher.encrypt_in_place(&chacha20poly1305::Nonce::from(*nonce), &[], buf)
}

/// `AeadInOut::decrypt_in_place` of `ChaCha20Poly1305`, without associated
/// data: a fixed function of key, nonce and sealed bytes. Bytes too short to
/// hold a tag, or too long, are refused; refused bytes are left as they were;
/// accepted ones lose their tag; and what was sealed under the same key and
/// nonce comes back. That forged bytes are refused is not stated: it holds only
/// up to a negligible chance.
#[verifier::external_body]
fn aead_open(key: &Secret, nonce: &[u8; 12], buf: &mut Vec<u8>) -> (r: Result<
    (),
    chacha20poly1305::aead::Error,
>)
    requires
        old(buf)@.len() <= KEYSTREAM_LEN + TAG_LEN || old(buf)@.len() >= SEAL_LIMIT + TAG_LEN,
    ensures
        r is Ok <==> chacha_opened(key@, nonce@, old(buf)@) is Some,
        r is Ok ==> final(buf)@ == chacha_opened(key@, nonce@, old(buf)@)->0 && final(
            buf)@.len() + TAG_LEN == old(buf)@.len(),
        r is Err ==> final(buf)@ == old(buf)@,
        old(buf)@.len() < TAG_LEN || old(buf)@.len() >= SEAL_LIMIT + TAG_LEN ==> r is Err,
        forall|plain: Seq<u8>|
            plain.len() <= KEYSTREAM_LEN && old(buf)@ == #[trigger] chacha_sealed(
                key@,
                nonce@,
                plain,
            ) ==> r is Ok && final(buf)@ == plain,
{
    let cipher = chacha20poly1305::ChaCha20Poly1305::new(&chacha20poly1305::Key::from(*key));
    cipher.decrypt_in_place(&chacha20poly1305::Nonce::from(*nonce), &[], buf)
}

/// The nonce of the message at a position in a channel: four zero bytes, then
/// the position, low byte first.
pub open spec fn nonce_of(position: u64) -> Seq<u8> {
    seq![0u8, 0u8, 0u8, 0u8] + vstd::bytes::spec_u64_to_le_bytes(position)
}

/// No two positions of a channel share a nonce.
pub proof fn nonces_never_repeat(a: u64, b: u64)
    requires
        a != b,
    ensures
        nonce_of(a) != nonce_of(b),
{
    vstd::bytes::lemma_auto_spec_u64_to_from_le_bytes();
    if nonce_of(a) == nonce_of(b) {
        let x = vstd::bytes::spec_u64_to_le_bytes(a);
        let y = vstd::bytes::spec_u64_to_le_bytes(b);
        assert(nonce_of(a).subrange(4, 12) =~= x);
        assert(nonce_of(b).subrange(4, 12) =~= y);
        assert(vstd::bytes::spec_u64_from_le_bytes(x) == a);
        assert(vstd::bytes::spec_u64_from_le_bytes(y) == b);
    }
}

/// What a message becomes at a position of a channel.
pub open spec fn sealed_at(key: Seq<u8>, position: u64, plain: Seq<u8>) -> Seq<u8> {
    chacha_sealed(key, nonce_of(position), plain)
}

/// What a sealed message holds at a position of a channel, if it authenticates
/// there.
pub open spec fn opened_at(key: Seq<u8>, position: u64, sealed: Seq<u8>) -> Option<Seq<u8>> {
    chacha_opened(key, nonce_of(position), sealed)
}

/// A one-directional AEAD channel.
///
/// The nonce is a local counter that is never transmitted, so a replayed,
/// dropped or reordered frame fails authentication and kills the connection.
pub struct Sealer {
    key: Secret,
    /// How many messages have gone through.
    counter: u64,
}

impl Sealer {
    /// The key that both ends of the channel hold.
    pub closed spec fn key(&self) -> Seq<u8> {
        self.key@
    }

    /// How many messages have gone through.
    pub closed spec fn position(&self) -> u64 {
        self.counter
    }

    /// This is the channel one message on.
    pub open spec fn follows(&self, before: Sealer) -> bool {
        &&& self.key() == before.key()
        &&& self.position() == before.position() + 1
    }

    pub fn new(key: &Secret) -> (r: Self)
        ensures
            r.key() == key@,
            r.position() == 0,
    {
        Sealer { key: *key, counter: 0 }
    }

    /// Whether there is a nonce left for another message.
    pub fn may_go_on(&self) -> (r: bool)
        ensures
            r == (self.position() < u64::MAX),
    {
        self.counter < u64::MAX
    }

    fn next_nonce(&mut self) -> (r: [u8; 12])
        requires
            old(self).position() < u64::MAX,
        ensures
            r@ == nonce_of(old(self).position()),
            final(self).follows(*old(self)),
    {
        let low = vstd::bytes::u64_to_le_bytes(self.counter);
        self.counter = self.counter + 1;
        let r: [u8; 12] = [
            0,
            0,
            0,
            0,
            low[0],
            low[1],
            low[2],
            low[3],
            low[4],
            low[5],
            low[6],
            low[7],
        ];
        assert(r@ =~= nonce_of(old(self).position()));
        r
    }

    /// Encrypts in place, appending the 16-byte tag. The nonce is used up
    /// whether or not the message was short enough.
    pub fn seal(&mut self, buf: &mut Vec<u8>) -> (r: Result<(), CryptoError>)
        requires
            old(self).position() < u64::MAX,
            old(buf)@.len() <= KEYSTREAM_LEN || old(buf)@.len() >= SEAL_LIMIT,
            old(buf)@.len() >= SEAL_LIMIT || old(buf)@.len() + TAG_LEN <= isize::MAX,
        ensures
            final(self).follows(*old(self)),
            r is Ok <==> old(buf)@.len() < SEAL_LIMIT,
            r is Ok ==> final(buf)@ == sealed_at(
                old(self).key(),
                old(self).position(),
                old(buf)@,
            ) && final(buf)@.len() == old(buf)@.len() + TAG_LEN,
            r is Err ==> r->Err_0 == CryptoError::TooLarge && final(buf)@ == old(buf)@,
    {
        let nonce = self.next_nonce();
        match aead_seal(&self.key, &nonce, buf) {
            Ok(()) => Ok(()),
            Err(_) => Err(CryptoError::TooLarge),
        }
    }

    /// Decrypts in place, removing the tag. The nonce is used up whether or not
    /// the message authenticates. What a channel with the same key sealed at
    /// the same position comes back as it was.
    pub fn open(&mut self, buf: &mut Vec<u8>) -> (r: Result<(), CryptoError>)
        requires
            old(self).position() < u64::MAX,
            old(buf)@.len() <= KEYSTREAM_LEN + TAG_LEN || old(buf)@.len() >= SEAL_LIMIT + TAG_LEN,
        ensures
            final(self).follows(*old(self)),
            r is Ok <==> opened_at(old(self).key(), old(self).position(), old(buf)@) is Some,
            r is Ok ==> final(buf)@ == opened_at(
                old(self).key(),
                old(self).position(),
                old(buf)@,
            )->0 && final(buf)@.len() + TAG_LEN == old(buf)@.len(),
            r is Err ==> r->Err_0 == CryptoError::Decrypt && final(buf)@ == old(buf)@,
            old(buf)@.len() < TAG_LEN || old(buf)@.len() >= SEAL_LIMIT + TAG_LEN ==> r is Err,
            forall|plain: Seq<u8>|
                plain.len() <= KEYSTREAM_LEN && old(buf)@ == #[trigger] sealed_at(
                    old(self).key(),
                    old(self).position(),
                    plain,
                ) ==> r is Ok && final(buf)@ == plain,
    {
        let nonce = self.next_nonce();
        match aead_open(&self.key, &nonce, buf) {
            Ok(()) => Ok(()),
            Err(_) => Err(CryptoError::Decrypt),
        }
    }
}

} // verus!
