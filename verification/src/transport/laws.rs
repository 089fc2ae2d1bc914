//! What goes over the wire, byte by byte.

use vstd::prelude::*;

use crate::crypto::{CryptoError, SessionKeys};
use crate::transport;
use crate::transport::{AuthMode, FrameReader, FrameWriter, TransportError};

verus! {

/// A client opens with `XDSK`, the version, a zero for a code or a one for a stored
/// key, its id and its public key.
pub proof fn a_client_opens_like_this(mode: AuthMode, device: Seq<u8>, public: Seq<u8>)
    requires
        device.len() == 16,
        public.len() == 32,
    ensures
        ({
            let intro = transport::intro_bytes(mode, device, public);
            &&& intro.len() == 54
            &&& intro[0] == 0x58 && intro[1] == 0x44 && intro[2] == 0x53 && intro[3] == 0x4B
            &&& intro[4] == 1
            &&& intro[5] == if mode == AuthMode::Code {
                0int
            } else {
                1int
            }
            &&& forall|i: int| 0 <= i < 16 ==> #[trigger] intro[6 + i] == device[i]
            &&& forall|i: int| 0 <= i < 32 ==> #[trigger] intro[22 + i] == public[i]
        }),
{
}

/// A host answers with `XDSK`, the version and its public key.
pub proof fn a_host_answers_like_this(public: Seq<u8>)
    requires
        public.len() == 32,
    ensures
        ({
            let reply = transport::reply_bytes(public);
            &&& reply.len() == 37
            &&& reply[0] == 0x58 && reply[1] == 0x44 && reply[2] == 0x53 && reply[3] == 0x4B
            &&& reply[4] == 1
            &&& forall|i: int| 0 <= i < 32 ==> #[trigger] reply[5 + i] == public[i]
        }),
{
}

/// A peer is understood exactly if it opens with `XDSK` and the version.
pub proof fn peers_are_known_by_their_first_bytes(bytes: Seq<u8>)
    ensures
        transport::speaks_our_version(bytes) <==> {
            &&& bytes.len() >= 5
            &&& bytes[0] == 0x58 && bytes[1] == 0x44 && bytes[2] == 0x53 && bytes[3] == 0x4B
            &&& bytes[4] == 1
        },
{
    if bytes.len() >= 5 {
        let head = bytes.subrange(0, 4);
        let magic = crate::protocol::MAGIC@;
        assert(head[0] == bytes[0] && head[1] == bytes[1] && head[2] == bytes[2] && head[3]
            == bytes[3]);
        if bytes[0] == 0x58 && bytes[1] == 0x44 && bytes[2] == 0x53 && bytes[3] == 0x4B {
            assert(head =~= magic);
        }
        if head == magic {
            assert(head[0] == magic[0] && head[1] == magic[1] && head[2] == magic[2] && head[3]
                == magic[3]);
        }
    }
}

/// The two modes have different bytes.
pub proof fn modes_are_told_apart(a: AuthMode, b: AuthMode)
    ensures
        AuthMode::Code.byte() == 0,
        AuthMode::Stored.byte() == 1,
        a.byte() == b.byte() <==> a == b,
{
}

/// A frame is its length in four bytes, low byte first, and then the sealed message;
/// it is read if the message is at least a tag and at most the limit.
pub proof fn frames_are_length_and_message(sealed: Seq<u8>)
    requires
        sealed.len() <= u32::MAX,
    ensures
        ({
            let frame = transport::frame_bytes(sealed);
            let n = sealed.len() as int;
            &&& frame.len() == 4 + n
            &&& frame.subrange(0, 4) == vstd::bytes::spec_u32_to_le_bytes(sealed.len() as u32)
            &&& forall|i: int| 0 <= i < n ==> #[trigger] frame[4 + i] == sealed[i]
            &&& transport::acceptable_len(n) <==> 16 <= n <= 33554432
        }),
{
    vstd::bytes::lemma_auto_spec_u32_to_from_le_bytes();
    let head = vstd::bytes::spec_u32_to_le_bytes(sealed.len() as u32);
    assert(head.len() == 4);
    assert(transport::frame_bytes(sealed).subrange(0, 4) =~= head);
}

/// The host writes with one key and reads with the other, and the client the other
/// way round; both start at the beginning.
pub proof fn the_two_ends_fit_together(
    keys: SessionKeys,
    host: (FrameReader, FrameWriter),
    client: (FrameReader, FrameWriter),
)
    requires
        transport::halves(keys, true, host),
        transport::halves(keys, false, client),
    ensures
        host.0.key() == keys.to_host(),
        host.1.key() == keys.to_client(),
        client.0.key() == keys.to_client(),
        client.1.key() == keys.to_host(),
        host.0.position() == 0,
        host.1.position() == 0,
        client.0.position() == 0,
        client.1.position() == 0,
        transport::in_step(host.1, client.0),
        transport::in_step(client.1, host.0),
{
}

/// What is received is what the cipher makes of the frame at that position, and where
/// it makes nothing of it, an error.
pub proof fn receiving_is_opening(
    key: Seq<u8>,
    position: u64,
    sealed: Seq<u8>,
    r: Result<Vec<u8>, TransportError>,
)
    requires
        transport::is_received(key, position, sealed, r),
    ensures
        match crate::crypto::chacha_opened(key, crate::crypto::nonce_of(position), sealed) {
            Some(plain) => r is Ok && r->Ok_0@ == plain,
            None => r == Err::<Vec<u8>, TransportError>(
                TransportError::Crypto(CryptoError::Decrypt),
            ),
        },
{
}

/// Two ends are in step exactly if they share the key and have come equally far.
pub proof fn in_step_means_same_key_and_place(writer: FrameWriter, reader: FrameReader)
    ensures
        transport::in_step(writer, reader) <==> writer.key() == reader.key() && writer.position()
            == reader.position(),
{
}

} // verus!
