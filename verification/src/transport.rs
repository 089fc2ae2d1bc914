//! Framing and the pairing handshake over plain TCP.
//!
//! Frames are `u32` little-endian length + ChaCha20-Poly1305 ciphertext. The
//! sockets run with `TCP_NODELAY`, because a mouse-move packet delayed by
//! Nagle's algorithm is exactly the stutter this app exists to avoid.
//!
//! Nothing here touches a socket: each step takes the bytes that arrived and
//! gives the bytes to send. The caller owns the connection and the encoding of
//! messages.

use vstd::prelude::*;

use crate::crypto;
use crate::crypto::{CryptoError, Handshake, Sealer, Secret, SessionKeys};
use crate::protocol::{DeviceId, MAGIC, MAX_FRAME, PROTOCOL_VERSION};
use crate::text;

pub mod laws;

verus! {

/// Magic, version, mode, device id, public key.
pub const INTRO_LEN: usize = 54;

/// Magic, version, public key.
pub const REPLY_LEN: usize = 37;

#[derive(Debug)]
pub enum TransportError {
    /// The connection failed, with the system's words for it.
    Io(String),
    Crypto(CryptoError),
    /// A message could not be encoded or decoded, with the codec's words for it.
    Codec(String),
    /// Peer is not CrossDesk or speaks an incompatible version.
    Handshake,
    /// This device has no key here and the host is not accepting new pairings.
    Rejected,
    /// Peer sent an oversized frame.
    FrameTooLarge(usize),
}

impl TransportError {
    /// What the user is told.
    pub open spec fn text(&self) -> Seq<char> {
        match self {
            TransportError::Io(what) => what@,
            TransportError::Crypto(e) => e.text(),
            TransportError::Codec(what) => what@,
            TransportError::Handshake => {
                "peer is not CrossDesk or speaks an incompatible version"@
            },
            TransportError::Rejected => {
                "this device has no key here and the host is not accepting new pairings"@
            },
            TransportError::FrameTooLarge(n) => "peer sent an oversized frame ("@ + text::decimal(
                *n as nat,
            ) + " bytes)"@,
        }
    }

    /// What the user is told.
    pub fn message(&self) -> (r: String)
        ensures
            r@ == self.text(),
    {
        match self {
            TransportError::Io(what) => what.clone(),
            TransportError::Crypto(e) => e.message(),
            TransportError::Codec(what) => what.clone(),
            TransportError::Handshake => {
                "peer is not CrossDesk or speaks an incompatible version".to_owned()
            },
            TransportError::Rejected => {
                "this device has no key here and the host is not accepting new pairings".to_owned()
            },
            TransportError::FrameTooLarge(n) => {
                let mut r = "peer sent an oversized frame (".to_owned();
                text::push_decimal(&mut r, *n as u64);
                text::push_text(&mut r, " bytes)");
                r
            },
        }
    }
}

/// How the client wants to authenticate on this connection.
#[derive(Clone, Copy, Debug, PartialEq, Eq, Structural)]
pub enum AuthMode {
    /// First contact: the user typed the host's pairing code.
    Code,
    /// Returning device: use the key stored during a previous pairing.
    Stored,
}

impl AuthMode {
    pub open spec fn byte(self) -> u8 {
        match self {
            AuthMode::Code => 0,
            AuthMode::Stored => 1,
        }
    }

    pub fn as_byte(self) -> (r: u8)
        ensures
            r == self.byte(),
    {
        match self {
            AuthMode::Code => 0,
            AuthMode::Stored => 1,
        }
    }

    pub fn from_byte(b: u8) -> (r: Option<Self>)
        ensures
            r is Some <==> b <= 1,
            r is Some ==> r->0.byte() == b,
    {
        match b {
            0 => Some(AuthMode::Code),
            1 => Some(AuthMode::Stored),
            _ => None,
        }
    }
}

/// What the host learned from a connecting client before keys were derived, so
/// it can look up the right authentication secret.
#[derive(Debug)]
pub struct ClientIntent {
    pub device: DeviceId,
    pub mode: AuthMode,
    pub client_public: [u8; 32],
}

/// The first bytes of a client.
pub open spec fn intro_bytes(mode: AuthMode, device: Seq<u8>, public: Seq<u8>) -> Seq<u8> {
    MAGIC@ + seq![PROTOCOL_VERSION, mode.byte()] + device + public
}

/// The first bytes of a host.
pub open spec fn reply_bytes(public: Seq<u8>) -> Seq<u8> {
    MAGIC@ + seq![PROTOCOL_VERSION] + public
}

/// Bytes that start as every peer of this version starts.
pub open spec fn speaks_our_version(bytes: Seq<u8>) -> bool {
    bytes.len() >= 5 && bytes.subrange(0, 4) == MAGIC@ && bytes[4] == PROTOCOL_VERSION
}

fn is_our_version(bytes: &[u8]) -> (r: bool)
    requires
        bytes@.len() >= 5,
    ensures
        r == speaks_our_version(bytes@),
{
    let r = bytes[0] == MAGIC[0] && bytes[1] == MAGIC[1] && bytes[2] == MAGIC[2] && bytes[3]
        == MAGIC[3] && bytes[4] == PROTOCOL_VERSION;
    proof {
        let head = bytes@.subrange(0, 4);
        if r {
            assert(head =~= MAGIC@);
        }
        if head == MAGIC@ {
            assert(head[0] == MAGIC@[0] && head[1] == MAGIC@[1] && head[2] == MAGIC@[2] && head[3]
                == MAGIC@[3]);
        }
    }
    r
}

/// The 32 bytes from a position on.
fn key_at(bytes: &[u8], from: usize) -> (r: [u8; 32])
    requires
        from + 32 <= bytes@.len(),
    ensures
        r@ == bytes@.subrange(from as int, from + 32),
{
    let mut out: [u8; 32] = [0u8; 32];
    let mut i: usize = 0;
    assert(bytes@.len() == bytes.len());
    while i < 32
        invariant
            i <= 32,
            from + 32 <= usize::MAX,
            from + 32 <= bytes@.len(),
            forall|k: int| 0 <= k < i ==> #[trigger] out@[k] == bytes@[from + k],
        decreases 32 - i,
    {
        out[i] = bytes[from + i];
        i += 1;
    }
    assert(out@ =~= bytes@.subrange(from as int, from + 32));
    out
}

/// The 16 bytes from a position on.
fn id_at(bytes: &[u8], from: usize) -> (r: DeviceId)
    requires
        from + 16 <= bytes@.len(),
    ensures
        r@ == bytes@.subrange(from as int, from + 16),
{
    let mut out: DeviceId = [0u8; 16];
    let mut i: usize = 0;
    assert(bytes@.len() == bytes.len());
    while i < 16
        invariant
            i <= 16,
            from + 16 <= usize::MAX,
            from + 16 <= bytes@.len(),
            forall|k: int| 0 <= k < i ==> #[trigger] out@[k] == bytes@[from + k],
        decreases 16 - i,
    {
        out[i] = bytes[from + i];
        i += 1;
    }
    assert(out@ =~= bytes@.subrange(from as int, from + 16));
    out
}

/// The sending half of an established channel.
pub struct FrameWriter {
    sealer: Sealer,
}

/// The receiving half of an established channel.
pub struct FrameReader {
    sealer: Sealer,
}

/// A sealed message as it goes on the wire.
pub open spec fn frame_bytes(sealed: Seq<u8>) -> Seq<u8> {
    vstd::bytes::spec_u32_to_le_bytes(sealed.len() as u32) + sealed
}

/// A frame length that a reader accepts.
pub open spec fn acceptable_len(len: int) -> bool {
    crypto::TAG_LEN <= len <= MAX_FRAME
}

impl FrameWriter {
    /// The key that both ends of the channel hold.
    pub closed spec fn key(&self) -> Seq<u8> {
        self.sealer.key()
    }

    /// How many messages have gone through.
    pub closed spec fn position(&self) -> u64 {
        self.sealer.position()
    }

    /// The first position of a channel with this key.
    pub fn new(key: &Secret) -> (r: Self)
        ensures
            r.key() == key@,
            r.position() == 0,
    {
        FrameWriter { sealer: Sealer::new(key) }
    }

    /// Whether another message can go through.
    pub fn may_go_on(&self) -> (r: bool)
        ensures
            r == (self.position() < u64::MAX),
    {
        self.sealer.may_go_on()
    }

    /// Encrypts one encoded message and puts its length in front, as a single
    /// run of bytes, so a small event stays in one TCP segment.
    pub fn send(&mut self, body: Vec<u8>) -> (r: Result<Vec<u8>, TransportError>)
        requires
            old(self).position() < u64::MAX,
            body@.len() <= crypto::KEYSTREAM_LEN || body@.len() >= crypto::SEAL_LIMIT,
            body@.len() >= crypto::SEAL_LIMIT || body@.len() + crypto::TAG_LEN + 4 <= isize::MAX,
        ensures
            final(self).key() == old(self).key(),
            final(self).position() == old(self).position() + 1,
            match r {
                Ok(frame) => {
                    &&& body@.len() + crypto::TAG_LEN <= u32::MAX
                    &&& frame@ == frame_bytes(
                        crypto::sealed_at(old(self).key(), old(self).position(), body@),
                    )
                    &&& frame@.len() == 4 + body@.len() + crypto::TAG_LEN
                },
                Err(TransportError::Crypto(e)) => {
                    &&& e == CryptoError::TooLarge
                    &&& body@.len() >= crypto::SEAL_LIMIT
                },
                Err(TransportError::FrameTooLarge(n)) => {
                    &&& body@.len() < crypto::SEAL_LIMIT
                    &&& n == body@.len() + crypto::TAG_LEN > u32::MAX
                },
                Err(_) => false,
            },
    {
        let mut body = body;
        let ghost plain = body@;
        match self.sealer.seal(&mut body) {
            Ok(()) => {},
            Err(e) => {
                return Err(TransportError::Crypto(e));
            },
        }
        if body.len() as u64 > u32::MAX as u64 {
            return Err(TransportError::FrameTooLarge(body.len()));
        }
        let mut frame = vstd::bytes::u32_to_le_bytes(body.len() as u32);
        frame.extend_from_slice(body.as_slice());
        assert(frame@ =~= frame_bytes(
            crypto::sealed_at(old(self).key(), old(self).position(), plain),
        ));
        Ok(frame)
    }
}

/// What a reader at a position makes of the bytes of a frame: the message in
/// them if they authenticate, and an error otherwise. Bytes that a channel with
/// the same key sealed at the same position give back what was sealed.
pub open spec fn is_received(
    key: Seq<u8>,
    position: u64,
    sealed: Seq<u8>,
    r: Result<Vec<u8>, TransportError>,
) -> bool {
    &&& match r {
        Ok(body) => {
            &&& crypto::opened_at(key, position, sealed) == Some(body@)
            &&& body@.len() + crypto::TAG_LEN == sealed.len()
        },
        Err(TransportError::Crypto(e)) => {
            &&& e == CryptoError::Decrypt
            &&& crypto::opened_at(key, position, sealed) is None
        },
        Err(_) => false,
    }
    &&& forall|plain: Seq<u8>|
        plain.len() <= crypto::KEYSTREAM_LEN && sealed == #[trigger] crypto::sealed_at(
            key,
            position,
            plain,
        ) ==> r is Ok && r->Ok_0@ == plain
}

impl FrameReader {
    /// The key that both ends of the channel hold.
    pub closed spec fn key(&self) -> Seq<u8> {
        self.sealer.key()
    }

    /// How many messages have gone through.
    pub closed spec fn position(&self) -> u64 {
        self.sealer.position()
    }

    /// The first position of a channel with this key.
    pub fn new(key: &Secret) -> (r: Self)
        ensures
            r.key() == key@,
            r.position() == 0,
    {
        FrameReader { sealer: Sealer::new(key) }
    }

    /// Whether another message can go through.
    pub fn may_go_on(&self) -> (r: bool)
        ensures
            r == (self.position() < u64::MAX),
    {
        self.sealer.may_go_on()
    }

    /// How many bytes the next frame holds, from its first four. Every frame
    /// carries a 16-byte tag, so anything shorter is nonsense.
    pub fn frame_len(header: &[u8; 4]) -> (r: Result<usize, TransportError>)
        ensures
            ({
                let len = vstd::bytes::spec_u32_from_le_bytes(header@);
                match r {
                    Ok(n) => n == len && acceptable_len(len as int),
                    Err(TransportError::FrameTooLarge(n)) => n == len && !acceptable_len(
                        len as int,
                    ),
                    Err(_) => false,
                }
            }),
    {
        let len: usize = vstd::bytes::u32_from_le_bytes(header.as_slice()) as usize;
        if len > MAX_FRAME || len < crypto::TAG_LEN {
            return Err(TransportError::FrameTooLarge(len));
        }
        Ok(len)
    }

    /// Decrypts the bytes of one frame into an encoded message. What the
    /// writer at the other end sealed at the same position comes back as it
    /// was.
    pub fn recv(&mut self, sealed: Vec<u8>) -> (r: Result<Vec<u8>, TransportError>)
        requires
            old(self).position() < u64::MAX,
            sealed@.len() <= MAX_FRAME,
        ensures
            final(self).key() == old(self).key(),
            final(self).position() == old(self).position() + 1,
            is_received(old(self).key(), old(self).position(), sealed@, r),
    {
        let mut sealed = sealed;
        match self.sealer.open(&mut sealed) {
            Ok(()) => Ok(sealed),
            Err(e) => Err(TransportError::Crypto(e)),
        }
    }
}

/// What one side writes, the other can take apart: the four bytes in front of a
/// sealed message tell its length, and the rest is the sealed message.
pub proof fn frames_read_back(sealed: Seq<u8>)
    requires
        sealed.len() <= u32::MAX,
    ensures
        ({
            let frame = frame_bytes(sealed);
            &&& frame.len() == 4 + sealed.len()
            &&& vstd::bytes::spec_u32_from_le_bytes(frame.subrange(0, 4)) == sealed.len()
            &&& frame.subrange(4, frame.len() as int) == sealed
        }),
{
    vstd::bytes::lemma_auto_spec_u32_to_from_le_bytes();
    let frame = frame_bytes(sealed);
    assert(frame.subrange(0, 4) =~= vstd::bytes::spec_u32_to_le_bytes(sealed.len() as u32));
    assert(frame.subrange(4, frame.len() as int) =~= sealed);
}

/// Two ends that share a key and a position.
pub open spec fn in_step(writer: FrameWriter, reader: FrameReader) -> bool {
    &&& writer.key() == reader.key()
    &&& writer.position() == reader.position()
}

/// What is sent is what is received: between two ends in step, a message that
/// fits in a frame makes a frame of an acceptable length, the reader finds in it
/// exactly what was sealed, and the two are in step for the next one.
pub proof fn sent_is_received(
    writers: (FrameWriter, FrameWriter),
    readers: (FrameReader, FrameReader),
    body: Seq<u8>,
    frame: Seq<u8>,
    r: Result<Vec<u8>, TransportError>,
)
    requires
        in_step(writers.0, readers.0),
        body.len() + crypto::TAG_LEN <= MAX_FRAME,
        // What `send` says of a writer, before and after.
        writers.1.key() == writers.0.key(),
        writers.1.position() == writers.0.position() + 1,
        frame == frame_bytes(crypto::sealed_at(writers.0.key(), writers.0.position(), body)),
        frame.len() == 4 + body.len() + crypto::TAG_LEN,
        // What `recv` says of a reader, before and after.
        readers.1.key() == readers.0.key(),
        readers.1.position() == readers.0.position() + 1,
        is_received(
            readers.0.key(),
            readers.0.position(),
            frame.subrange(4, frame.len() as int),
            r,
        ),
    ensures
        acceptable_len(vstd::bytes::spec_u32_from_le_bytes(frame.subrange(0, 4)) as int),
        vstd::bytes::spec_u32_from_le_bytes(frame.subrange(0, 4)) == frame.len() - 4,
        r is Ok,
        r->Ok_0@ == body,
        in_step(writers.1, readers.1),
{
    let sealed = crypto::sealed_at(writers.0.key(), writers.0.position(), body);
    assert(vstd::bytes::spec_u32_to_le_bytes(sealed.len() as u32).len() == 4) by {
        vstd::bytes::lemma_auto_spec_u32_to_from_le_bytes();
    }
    frames_read_back(sealed);
}

/// A whole conversation arrives: of any run of messages, sealed one after the
/// other from a position on and received in the same order from the same
/// position on, each is received as it was sent.
pub proof fn conversation_is_received(
    key: Seq<u8>,
    start: u64,
    bodies: Seq<Seq<u8>>,
    results: Seq<Result<Vec<u8>, TransportError>>,
)
    requires
        start + bodies.len() <= u64::MAX,
        results.len() == bodies.len(),
        forall|i: int|
            0 <= i < bodies.len() ==> (#[trigger] bodies[i]).len() + crypto::TAG_LEN <= MAX_FRAME,
        forall|i: int|
            0 <= i < bodies.len() ==> is_received(
                key,
                (start + i) as u64,
                crypto::sealed_at(key, (start + i) as u64, bodies[i]),
                #[trigger] results[i],
            ),
    ensures
        forall|i: int|
            0 <= i < bodies.len() ==> (#[trigger] results[i]) is Ok && results[i]->Ok_0@
                == bodies[i],
{
    assert forall|i: int| 0 <= i < bodies.len() implies (#[trigger] results[i]) is Ok
        && results[i]->Ok_0@ == bodies[i] by {
        assert(bodies[i].len() + crypto::TAG_LEN <= MAX_FRAME);
    }
}

/// A frame that is replayed, skipped to or taken out of order is received only
/// if the cipher accepts under one nonce what was sealed under another.
pub proof fn only_a_forgery_is_received_out_of_order(
    key: Seq<u8>,
    sent_at: u64,
    read_at: u64,
    body: Seq<u8>,
    r: Result<Vec<u8>, TransportError>,
)
    requires
        sent_at != read_at,
        is_received(key, read_at, crypto::sealed_at(key, sent_at, body), r),
    ensures
        crypto::nonce_of(sent_at) != crypto::nonce_of(read_at),
        match r {
            Ok(got) => crypto::chacha_opened(
                key,
                crypto::nonce_of(read_at),
                crypto::chacha_sealed(key, crypto::nonce_of(sent_at), body),
            ) == Some(got@),
            Err(e) => e == TransportError::Crypto(CryptoError::Decrypt),
        },
{
    crypto::nonces_never_repeat(sent_at, read_at);
}

/// The keys of one side's channel halves.
pub open spec fn halves(keys: SessionKeys, is_host: bool, r: (FrameReader, FrameWriter)) -> bool {
    &&& r.0.position() == 0
    &&& r.1.position() == 0
    &&& r.0.key() == if is_host {
        keys.to_host()
    } else {
        keys.to_client()
    }
    &&& r.1.key() == if is_host {
        keys.to_client()
    } else {
        keys.to_host()
    }
}

fn split(keys: SessionKeys, is_host: bool) -> (r: (FrameReader, FrameWriter))
    ensures
        halves(keys, is_host, r),
{
    let (to_host, to_client) = keys.directions();
    if is_host {
        (FrameReader::new(&to_host), FrameWriter::new(&to_client))
    } else {
        (FrameReader::new(&to_client), FrameWriter::new(&to_host))
    }
}

/// The bytes with which a client opens a connection, for a given half of the
/// key agreement.
pub fn client_intro(hs: &Handshake, device: &DeviceId, mode: AuthMode) -> (r: Vec<u8>)
    ensures
        r@ == intro_bytes(mode, device@, hs.shown()),
        r@.len() == INTRO_LEN,
{
    let mut intro: Vec<u8> = Vec::new();
    intro.extend_from_slice(MAGIC.as_slice());
    intro.push(PROTOCOL_VERSION);
    intro.push(mode.as_byte());
    intro.extend_from_slice(device.as_slice());
    intro.extend_from_slice(hs.public_key().as_slice());
    assert(intro@ =~= intro_bytes(mode, device@, hs.shown()));
    intro
}

/// Client side, step one: a fresh half of the key agreement and the bytes to
/// send.
pub fn client_handshake(device: &DeviceId, mode: AuthMode) -> (r: (Handshake, Vec<u8>))
    ensures
        r.0.wf(),
        r.1@ == intro_bytes(mode, device@, r.0.shown()),
{
    let hs = Handshake::new();
    let intro = client_intro(&hs, device, mode);
    (hs, intro)
}

/// Client side, step two: the keys, and the confirmation to send, from the
/// host's reply.
///
/// `auth` is derived from the pairing code on first contact, or is the stored
/// key from a previous pairing. A wrong code produces different session keys,
/// so it fails at the confirmation step rather than in a code comparison.
pub fn client_finish(hs: Handshake, reply: &[u8; 37], auth: &Secret) -> (r: Result<
    (SessionKeys, [u8; 32]),
    TransportError,
>)
    requires
        hs.wf(),
    ensures
        r is Ok <==> speaks_our_version(reply@),
        r is Err ==> r->Err_0 is Handshake,
        r is Ok ==> {
            let host_public = reply@.subrange(5, 37);
            let keys = r->Ok_0.0;
            &&& r->Ok_0.1@ == keys.client_tag()
            &&& keys.come_from(hs.session(host_public, hs.shown(), host_public, auth@))
            &&& forall|host: Handshake|
                #![trigger host.wf()]
                host.wf() && host.shown() == host_public ==> keys.come_from(
                    host.session(hs.shown(), hs.shown(), host_public, auth@),
                )
        },
{
    if !is_our_version(reply.as_slice()) {
        return Err(TransportError::Handshake);
    }
    let host_public = key_at(reply.as_slice(), 5);
    let client_public = hs.public_key();
    let keys = hs.finish(&host_public, &client_public, &host_public, auth);
    let tag = keys.client_confirmation();
    Ok((keys, tag))
}

/// Client side, step three: the channel, once the host's tag has arrived.
pub fn client_accept(keys: SessionKeys, host_tag: &[u8; 32]) -> (r: Result<
    (FrameReader, FrameWriter),
    TransportError,
>)
    ensures
        r is Ok <==> host_tag@ == keys.host_tag(),
        r is Ok ==> halves(keys, false, r->Ok_0),
        r is Err ==> r->Err_0 == TransportError::Crypto(CryptoError::Auth),
{
    match keys.verify_host(host_tag) {
        Ok(()) => Ok(split(keys, false)),
        Err(e) => Err(TransportError::Crypto(e)),
    }
}

/// Host side, step one: read the client's intro so the caller can pick between
/// the pairing code and a stored key before any key material is derived.
pub fn host_read_intent(intro: &[u8; 54]) -> (r: Result<ClientIntent, TransportError>)
    ensures
        r is Ok <==> speaks_our_version(intro@) && intro@[5] <= 1,
        r is Err ==> r->Err_0 is Handshake,
        r is Ok ==> {
            let intent = r->Ok_0;
            &&& intent.mode.byte() == intro@[5]
            &&& intent.device@ == intro@.subrange(6, 22)
            &&& intent.client_public@ == intro@.subrange(22, 54)
        },
{
    if !is_our_version(intro.as_slice()) {
        return Err(TransportError::Handshake);
    }
    let mode = match AuthMode::from_byte(intro[5]) {
        Some(mode) => mode,
        None => {
            return Err(TransportError::Handshake);
        },
    };
    Ok(
        ClientIntent {
            device: id_at(intro.as_slice(), 6),
            mode,
            client_public: key_at(intro.as_slice(), 22),
        },
    )
}

/// The host understands every client of this version: it reads back the mode,
/// the device and the public key that the client sent.
pub proof fn intro_reads_back(mode: AuthMode, device: Seq<u8>, public: Seq<u8>)
    requires
        device.len() == 16,
        public.len() == 32,
    ensures
        ({
            let intro = intro_bytes(mode, device, public);
            &&& intro.len() == INTRO_LEN
            &&& speaks_our_version(intro)
            &&& intro[5] == mode.byte() && intro[5] <= 1
            &&& intro.subrange(6, 22) == device
            &&& intro.subrange(22, 54) == public
        }),
{
    let intro = intro_bytes(mode, device, public);
    assert(intro.subrange(0, 4) =~= MAGIC@);
    assert(intro.subrange(6, 22) =~= device);
    assert(intro.subrange(22, 54) =~= public);
}

/// The client understands every host of this version.
pub proof fn reply_reads_back(public: Seq<u8>)
    requires
        public.len() == 32,
    ensures
        ({
            let reply = reply_bytes(public);
            &&& reply.len() == REPLY_LEN
            &&& speaks_our_version(reply)
            &&& reply.subrange(5, 37) == public
        }),
{
    let reply = reply_bytes(public);
    assert(reply.subrange(0, 4) =~= MAGIC@);
    assert(reply.subrange(5, 37) =~= public);
}

/// The keys and the reply of some host half of the key agreement, for a client
/// and a secret. Any client half that the intent's public key belongs to
/// arrives at the same keys.
pub open spec fn is_host_answer(
    intent: ClientIntent,
    auth: Seq<u8>,
    keys: SessionKeys,
    reply: Seq<u8>,
) -> bool {
    exists|hs: Handshake|
        {
            &&& #[trigger] hs.wf()
            &&& reply == reply_bytes(hs.shown())
            &&& keys.come_from(
                hs.session(intent.client_public@, intent.client_public@, hs.shown(), auth),
            )
            &&& forall|client: Handshake|
                #![trigger client.wf()]
                client.wf() && client.shown() == intent.client_public@ ==> keys.come_from(
                    client.session(hs.shown(), client.shown(), hs.shown(), auth),
                )
        }
}

/// Host side, step two: the keys and the reply, for the chosen secret.
pub fn host_finish(intent: &ClientIntent, auth: &Secret) -> (r: (SessionKeys, Vec<u8>))
    ensures
        is_host_answer(*intent, auth@, r.0, r.1@),
{
    let hs = Handshake::new();
    host_finish_with(hs, intent, auth)
}

/// Host side, step two, for a given half of the key agreement.
pub fn host_finish_with(hs: Handshake, intent: &ClientIntent, auth: &Secret) -> (r: (
    SessionKeys,
    Vec<u8>,
))
    requires
        hs.wf(),
    ensures
        r.1@ == reply_bytes(hs.shown()),
        r.1@.len() == REPLY_LEN,
        r.0.come_from(
            hs.session(intent.client_public@, intent.client_public@, hs.shown(), auth@),
        ),
        forall|client: Handshake|
            #![trigger client.wf()]
            client.wf() && client.shown() == intent.client_public@ ==> r.0.come_from(
                client.session(hs.shown(), client.shown(), hs.shown(), auth@),
            ),
{
    let host_public = hs.public_key();
    let mut reply: Vec<u8> = Vec::new();
    reply.extend_from_slice(MAGIC.as_slice());
    reply.push(PROTOCOL_VERSION);
    reply.extend_from_slice(host_public.as_slice());
    assert(reply@ =~= reply_bytes(hs.shown()));
    let keys = hs.finish(&intent.client_public, &intent.client_public, &host_public, auth);
    (keys, reply)
}

/// Host side, step three: the confirmation to send and the channel, once the
/// client's tag has arrived.
pub fn host_accept(keys: SessionKeys, client_tag: &[u8; 32]) -> (r: Result<
    ([u8; 32], (FrameReader, FrameWriter)),
    TransportError,
>)
    ensures
        r is Ok <==> client_tag@ == keys.client_tag(),
        r is Ok ==> r->Ok_0.0@ == keys.host_tag() && halves(keys, true, r->Ok_0.1),
        r is Err ==> r->Err_0 == TransportError::Crypto(CryptoError::Auth),
{
    match keys.verify_client(client_tag) {
        Ok(()) => {
            let tag = keys.host_confirmation();
            Ok((tag, split(keys, true)))
        },
        Err(e) => Err(TransportError::Crypto(e)),
    }
}

/// Two sides that hear each other's first bytes unchanged and hold the same
/// secret end up with one channel: each accepts the other's confirmation, and
/// each reads with the key the other writes with, from the same position.
pub proof fn same_secret_same_channel(
    client_half: Handshake,
    intent: ClientIntent,
    auth: Seq<u8>,
    host: SessionKeys,
    reply: Seq<u8>,
    client: SessionKeys,
    client_ends: (FrameReader, FrameWriter),
    host_ends: (FrameReader, FrameWriter),
)
    requires
        client_half.wf(),
        intent.client_public@ == client_half.shown(),
        is_host_answer(intent, auth, host, reply),
        client.come_from(
            client_half.session(
                reply.subrange(5, 37),
                client_half.shown(),
                reply.subrange(5, 37),
                auth,
            ),
        ),
        halves(client, false, client_ends),
        halves(host, true, host_ends),
    ensures
        speaks_our_version(reply),
        client.client_tag() == host.client_tag(),
        client.host_tag() == host.host_tag(),
        in_step(client_ends.1, host_ends.0),
        in_step(host_ends.1, client_ends.0),
{
    let hs = choose|hs: Handshake|
        {
            &&& #[trigger] hs.wf()
            &&& reply == reply_bytes(hs.shown())
            &&& host.come_from(
                hs.session(intent.client_public@, intent.client_public@, hs.shown(), auth),
            )
            &&& forall|half: Handshake|
                #![trigger half.wf()]
                half.wf() && half.shown() == intent.client_public@ ==> host.come_from(
                    half.session(hs.shown(), half.shown(), hs.shown(), auth),
                )
        };
    hs.shown_is_a_key();
    reply_reads_back(hs.shown());
}

/// Two different materials end in the same confirmation, by the same session
/// key or by different ones.
pub open spec fn tags_collide(a: Seq<u8>, b: Seq<u8>, label: Seq<char>) -> bool {
    let one = crypto::blake3_derive_key(crypto::CTX_SESSION@, a);
    let two = crypto::blake3_derive_key(crypto::CTX_SESSION@, b);
    &&& a != b
    &&& one == two || crypto::blake3_keyed_hash(one, vstd::utf8::encode_utf8(label))
        == crypto::blake3_keyed_hash(two, vstd::utf8::encode_utf8(label))
}

/// A wrong secret does not get past the confirmations, and neither does a public
/// key that was changed on the way: for either side to accept the other, BLAKE3
/// would have to give the same hash for two inputs that differ.
pub proof fn only_a_collision_confirms_a_stranger(
    client_half: Handshake,
    host_half: Handshake,
    client_saw: Seq<u8>,
    host_saw: Seq<u8>,
    client_auth: Seq<u8>,
    host_auth: Seq<u8>,
    client: SessionKeys,
    host: SessionKeys,
)
    requires
        client_saw.len() == 32,
        host_saw.len() == 32,
        client_auth.len() == 32,
        host_auth.len() == 32,
        client.come_from(
            client_half.session(client_saw, client_half.shown(), client_saw, client_auth),
        ),
        host.come_from(host_half.session(host_saw, host_saw, host_half.shown(), host_auth)),
        client_auth != host_auth || client_saw != host_half.shown() || host_saw
            != client_half.shown(),
    ensures
        ({
            let a = crypto::session_material(
                crypto::x25519_shared(client_half.half(), client_saw),
                client_half.shown(),
                client_saw,
                client_auth,
            );
            let b = crypto::session_material(
                crypto::x25519_shared(host_half.half(), host_saw),
                host_saw,
                host_half.shown(),
                host_auth,
            );
            &&& client.client_tag() == host.client_tag() ==> tags_collide(
                a,
                b,
                crypto::CONFIRM_CLIENT@,
            )
            &&& client.host_tag() == host.host_tag() ==> tags_collide(
                a,
                b,
                crypto::CONFIRM_HOST@,
            )
        }),
{
    let a = crypto::session_material(
        crypto::x25519_shared(client_half.half(), client_saw),
        client_half.shown(),
        client_saw,
        client_auth,
    );
    let b = crypto::session_material(
        crypto::x25519_shared(host_half.half(), host_saw),
        host_saw,
        host_half.shown(),
        host_auth,
    );
    client_half.shown_is_a_key();
    host_half.shown_is_a_key();
    let n = a.len() as int;
    let m = b.len() as int;
    assert(a.subrange(n - 96, n - 64) =~= client_half.shown());
    assert(a.subrange(n - 64, n - 32) =~= client_saw);
    assert(a.subrange(n - 32, n) =~= client_auth);
    assert(b.subrange(m - 96, m - 64) =~= host_saw);
    assert(b.subrange(m - 64, m - 32) =~= host_half.shown());
    assert(b.subrange(m - 32, m) =~= host_auth);
}

} // verus!
