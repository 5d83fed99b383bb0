//! One bot session's protocol logic: the sequential handshake state
//! machine with its key exchange, the outbound send helpers (serialise,
//! then encrypt once the cipher is up, with a bounded retry budget for
//! short writes), and the per-packet dispatch step that feeds the world
//! store and the entity registry and tells the caller what to send back.

use vstd::prelude::*;

use crate::codec::packet_encodable;
use crate::crypto::{
    cipher_aes_128_cfb8, crypter_new, crypter_update, random_bytes_16, rsa_public_encrypt,
    rsa_public_key_from_der, CryptoError,
};
use crate::encoder::encode_packet;
use crate::packet::{packet_wf, spec_layout, FieldValue, Packet};
use crate::registry::EntityManager;
use crate::world::{World, WorldError};

verus! {

/// Where the sequential handshake stands. Any packet out of the expected
/// order is fatal: the handshake is never retried.
#[derive(Debug, Clone, Copy, PartialEq, Eq, Structural)]
pub enum HandshakePhase {
    /// The handshake packet is out; the server's key request is due.
    AwaitKeyRequest,
    /// The encrypted secret is out; the server's empty confirmation is due.
    AwaitConfirm,
    /// Both directions are encrypted; normal play.
    Established,
    /// The sequence was violated; the session is dead.
    Failed,
}

/// What the connection owner must do after a handshake step.
#[derive(Debug, Clone, Copy, PartialEq, Eq, Structural)]
pub enum HandshakeAction {
    /// Build and send the encryption key response, enabling outbound
    /// encryption immediately after.
    SendKeyResponse,
    /// Enable inbound decryption and send the status acknowledgement.
    ConfirmAndAck,
    /// Tear the session down.
    Fatal,
    /// Nothing; the handshake is over.
    Done,
}

/// The handshake transition for one inbound packet identifier.
pub open spec fn spec_handshake_step(phase: HandshakePhase, packet_id: u8) -> (
    HandshakePhase,
    HandshakeAction,
) {
    match phase {
        HandshakePhase::AwaitKeyRequest => if packet_id == 0xfd {
            (HandshakePhase::AwaitConfirm, HandshakeAction::SendKeyResponse)
        } else {
            (HandshakePhase::Failed, HandshakeAction::Fatal)
        },
        HandshakePhase::AwaitConfirm => if packet_id == 0xfc {
            (HandshakePhase::Established, HandshakeAction::ConfirmAndAck)
        } else {
            (HandshakePhase::Failed, HandshakeAction::Fatal)
        },
        HandshakePhase::Established => (HandshakePhase::Established, HandshakeAction::Done),
        HandshakePhase::Failed => (HandshakePhase::Failed, HandshakeAction::Fatal),
    }
}

/// Advances the handshake by one inbound packet: only the key request is
/// accepted while one is due, and only the (empty) key response while the
/// confirmation is due; anything else fails the session for good.
pub fn handshake_step(phase: HandshakePhase, packet_id: u8) -> (r: (
    HandshakePhase,
    HandshakeAction,
))
    ensures
        r == spec_handshake_step(phase, packet_id),
{
    match phase {
        HandshakePhase::AwaitKeyRequest => if packet_id == 0xfd {
            (HandshakePhase::AwaitConfirm, HandshakeAction::SendKeyResponse)
        } else {
            (HandshakePhase::Failed, HandshakeAction::Fatal)
        },
        HandshakePhase::AwaitConfirm => if packet_id == 0xfc {
            (HandshakePhase::Established, HandshakeAction::ConfirmAndAck)
        } else {
            (HandshakePhase::Failed, HandshakeAction::Fatal)
        },
        HandshakePhase::Established => (HandshakePhase::Established, HandshakeAction::Done),
        HandshakePhase::Failed => (HandshakePhase::Failed, HandshakeAction::Fatal),
    }
}

/// The opening handshake packet: protocol version 61, the chosen name,
/// then host and port.
pub fn handshake_packet(username: Vec<u16>, host: Vec<u16>, port: i32) -> (r: Packet)
    ensures
        r@.id == 0x02,
        packet_wf(r@),
        r@.fields == seq![
            crate::packet::FieldView::U8(61),
            crate::packet::FieldView::Str(username@),
            crate::packet::FieldView::Str(host@),
            crate::packet::FieldView::I32(port),
        ],
{
    let mut fields: Vec<FieldValue> = Vec::new();
    fields.push(FieldValue::U8(61));
    fields.push(FieldValue::Str(username));
    fields.push(FieldValue::Str(host));
    fields.push(FieldValue::I32(port));
    let r = Packet { id: 0x02, fields };
    proof {
        assert(r@.fields =~= seq![
            crate::packet::FieldView::U8(61),
            crate::packet::FieldView::Str(username@),
            crate::packet::FieldView::Str(host@),
            crate::packet::FieldView::I32(port),
        ]);
        assert(packet_wf(r@)) by {
            assert(spec_layout(0x02) matches Some(l) && l.len() == 4);
        }
    }
    r
}

/// The status/acknowledgement packet (payload zero right after the
/// handshake, one to respawn).
pub fn client_statuses_packet(payload: u8) -> (r: Packet)
    ensures
        r@.id == 0xcd,
        packet_wf(r@),
        r@.fields == seq![crate::packet::FieldView::U8(payload)],
{
    let mut fields: Vec<FieldValue> = Vec::new();
    fields.push(FieldValue::U8(payload));
    let r = Packet { id: 0xcd, fields };
    proof {
        assert(r@.fields =~= seq![crate::packet::FieldView::U8(payload)]);
        assert(packet_wf(r@)) by {
            assert(spec_layout(0xcd) matches Some(l) && l.len() == 1);
        }
    }
    r
}

/// Builds the encryption key response for a server key request: draws a
/// fresh 16-byte shared secret, encrypts the secret and the verification
/// token under the server's DER-encoded RSA public key with PKCS1
/// padding, and frames both as the response packet. Returns the plain
/// secret (the session cipher's key and initialisation vector) alongside.
pub fn handshake_on_key_request(pbkey: &[u8], verify_token: &[u8]) -> (r: Result<
    (Vec<u8>, Packet),
    CryptoError,
>)
    requires
        verify_token@.len() < 0x7fffffff,
    ensures
        r matches Ok(sp) ==> sp.0@.len() == 16 && sp.1@.id == 0xfc && packet_wf(sp.1@)
            && packet_encodable(sp.1@),
{
    let secret = match random_bytes_16() {
        Ok(s) => s,
        Err(e) => { return Err(e); },
    };
    let rsa = match rsa_public_key_from_der(pbkey) {
        Ok(r) => r,
        Err(e) => { return Err(e); },
    };
    let enc_secret = match rsa_public_encrypt(&rsa, secret.as_slice()) {
        Ok(v) => v,
        Err(e) => { return Err(e); },
    };
    let enc_token = match rsa_public_encrypt(&rsa, verify_token) {
        Ok(v) => v,
        Err(e) => { return Err(e); },
    };
    if enc_secret.len() > 65534 || enc_token.len() > 65534 {
        return Err(CryptoError::Backend);
    }
    let mut fields: Vec<FieldValue> = Vec::new();
    fields.push(FieldValue::Blob(enc_secret));
    fields.push(FieldValue::Blob(enc_token));
    let p = Packet { id: 0xfc, fields };
    proof {
        assert(packet_wf(p@)) by {
            assert(spec_layout(0xfc) matches Some(l) && l.len() == 2);
            assert(p@.fields.len() == 2);
        }
        assert(packet_encodable(p@)) by {
            assert(crate::codec::field_encodable(p@.fields[0]));
            assert(crate::codec::field_encodable(p@.fields[1]));
        }
    }
    Ok((secret, p))
}

/// A fresh outbound session cipher over the shared secret (used as both
/// key and initialisation vector). The key length must fit the cipher
/// boundary's C int (the protocol's secrets are sixteen bytes).
pub fn outbound_cipher(key: &[u8]) -> (r: Result<openssl::symm::Crypter, CryptoError>)
    requires
        key@.len() < 0x7fffffff,
{
    let cipher = cipher_aes_128_cfb8();
    crypter_new(cipher, true, key)
}

/// Encrypts an outbound frame in place of the plain bytes: the session
/// cipher is a length-preserving stream cipher, so exactly as many bytes
/// go out as came in.
pub fn encrypt_outbound(crypter: &mut openssl::symm::Crypter, data: &[u8]) -> (r: Result<
    Vec<u8>,
    CryptoError,
>)
    requires
        data@.len() < 0x7fffffff,
    ensures
        r matches Ok(v) ==> v@.len() == data@.len(),
{
    crypter_update(crypter, data)
}

/// One step of the bounded send-retry discipline: progress resets the
/// consecutive no-progress count, a fruitless attempt spends one try, and
/// exhausting the budget fails the send for good.
pub fn send_retry_step(tries: u32, progressed: bool, budget: u32) -> (r: Option<u32>)
    ensures
        progressed ==> r == Some(0u32),
        !progressed && tries >= budget ==> r is None,
        !progressed && tries < budget ==> r == Some((tries + 1) as u32),
{
    if progressed {
        Some(0)
    } else if tries >= budget {
        None
    } else {
        Some(tries + 1)
    }
}

/// Serialises a packet for the wire; identical to the encoder and present
/// so a session owner needs only this module for its outbound path.
pub fn serialize_packet(p: &Packet) -> (r: Option<Vec<u8>>)
    ensures
        r is Some <==> packet_encodable(p@),
        r matches Some(v) ==> v@ == crate::codec::se_packet(p@),
{
    encode_packet(p)
}

/// Per-session state the dispatcher maintains: vital statistics, the
/// stop flag, and the session's known-entity id set.
pub struct SessionState {
    pub hp: i16,
    pub food: i16,
    pub saturation_bits: u32,
    pub stop: bool,
    pub known: Vec<i32>,
}

impl SessionState {
    pub open spec fn wf(self) -> bool {
        self.known@.no_duplicates()
    }

    /// A fresh session: no vitals yet, running, knowing no entities.
    pub fn new() -> (r: SessionState)
        ensures
            r.wf(),
            r.hp == 0 && r.food == 0 && r.saturation_bits == 0,
            r.stop == false,
            r.known@ == Seq::<i32>::empty(),
    {
        SessionState { hp: 0, food: 0, saturation_bits: 0, stop: false, known: Vec::new() }
    }
}

/// What the session owner must do after a dispatch step.
#[derive(Debug, Clone, Copy, PartialEq, Eq, Structural)]
pub enum SessionAction {
    /// Send the client-settings packet (after the spawn position).
    SendClientSettings,
    /// Send a respawn status (health reached zero).
    SendRespawn,
    /// Echo the position-and-look packet (with height and stance swapped
    /// back) and adopt the server's position; the fields carry the raw
    /// bit patterns as received.
    EchoPositionAndLook { x: u64, y: u64, stance: u64, z: u64, yaw: u32, pitch: u32, on_ground: bool },
    /// The server ended the session.
    Stop,
}

/// The server's position-and-look packet echoed back, with the height
/// and stance fields swapped, as the protocol expects from the client.
pub fn position_echo_packet(
    x: u64,
    y: u64,
    stance: u64,
    z: u64,
    yaw: u32,
    pitch: u32,
    on_ground: bool,
) -> (r: Packet)
    ensures
        r@.id == 0x0d,
        packet_wf(r@),
        packet_encodable(r@),
        r@.fields == seq![
            crate::packet::FieldView::F64(x),
            crate::packet::FieldView::F64(stance),
            crate::packet::FieldView::F64(y),
            crate::packet::FieldView::F64(z),
            crate::packet::FieldView::F32(yaw),
            crate::packet::FieldView::F32(pitch),
            crate::packet::FieldView::Bool(on_ground),
        ],
{
    let mut fields: Vec<FieldValue> = Vec::new();
    fields.push(FieldValue::F64(x));
    fields.push(FieldValue::F64(stance));
    fields.push(FieldValue::F64(y));
    fields.push(FieldValue::F64(z));
    fields.push(FieldValue::F32(yaw));
    fields.push(FieldValue::F32(pitch));
    fields.push(FieldValue::Bool(on_ground));
    let r = Packet { id: 0x0d, fields };
    proof {
        assert(r@.fields =~= seq![
            crate::packet::FieldView::F64(x),
            crate::packet::FieldView::F64(stance),
            crate::packet::FieldView::F64(y),
            crate::packet::FieldView::F64(z),
            crate::packet::FieldView::F32(yaw),
            crate::packet::FieldView::F32(pitch),
            crate::packet::FieldView::Bool(on_ground),
        ]);
        assert(packet_wf(r@)) by {
            assert(spec_layout(0x0d) matches Some(l) && l.len() == 7);
        }
        assert(packet_encodable(r@)) by {
            assert forall|i: int| 0 <= i < r@.fields.len() implies crate::codec::field_encodable(
                #[trigger] r@.fields[i],
            ) by {}
        }
    }
    r
}

/// Whether a packet identifier is dispatched to the entity registry.
pub open spec fn is_entity_packet(id: u8) -> bool {
    id == 0x17 || id == 0x18 || id == 0x1f || id == 0x21 || id == 0x22 || id == 0x27
}

/// Dispatches one decoded inbound packet to the session, the world store
/// and the entity registry, and reports what to send back. World parse
/// failures surface as errors (fatal to the session); entity events that
/// the ownership rules reject are dropped inside the registry.
pub fn session_handle_packet(
    sess: &mut SessionState,
    world: &mut World,
    reg: &mut EntityManager,
    p: &Packet,
    source: usize,
) -> (r: Result<Option<SessionAction>, WorldError>)
    requires
        old(sess).wf(),
        old(world).wf(),
        old(reg).wf(),
        packet_wf(p@),
    ensures
        final(sess).wf(),
        final(world).wf(),
        final(reg).wf(),
        // world packets
        p.id == 0x33 ==> *final(sess) == *old(sess) && *final(reg) == *old(reg),
        p.id == 0x38 ==> *final(sess) == *old(sess) && *final(reg) == *old(reg),
        p.id == 0x35 ==> *final(sess) == *old(sess) && *final(reg) == *old(reg) && r == Ok::<
            Option<SessionAction>,
            WorldError,
        >(None) && final(world).cols() == old(world).cols().insert(
            crate::world::pack_key(p@.fields[0]->I32_0 >> 4, p@.fields[2]->I32_0 >> 4),
            crate::world::col_set_block(
                if old(world).cols().contains_key(
                    crate::world::pack_key(p@.fields[0]->I32_0 >> 4, p@.fields[2]->I32_0 >> 4),
                ) {
                    old(world).cols()[crate::world::pack_key(
                        p@.fields[0]->I32_0 >> 4,
                        p@.fields[2]->I32_0 >> 4,
                    )]
                } else {
                    crate::world::col_new_view(
                        p@.fields[0]->I32_0 >> 4,
                        p@.fields[2]->I32_0 >> 4,
                    )
                },
                (p@.fields[0]->I32_0, p@.fields[1]->U8_0 as i32, p@.fields[2]->I32_0),
                (crate::world::Block {
                    id: p@.fields[3]->U16_0,
                    metadata: p@.fields[4]->U8_0,
                    light: 0,
                    skylit: 0,
                }),
            ),
        ),
        p.id == 0x34 ==> *final(sess) == *old(sess) && *final(reg) == *old(reg),
        // entity packets go to the registry; spawns and destroys also
        // maintain the session's known set
        is_entity_packet(p.id) ==> final(world).cols() == old(world).cols() && r == Ok::<
            Option<SessionAction>,
            WorldError,
        >(None),
        (p.id == 0x17 || p.id == 0x18) ==> (forall|x: i32|
            #[trigger] final(sess).known@.contains(x) <==> (old(sess).known@.contains(x) || x
                == p@.fields[0]->I32_0)),
        (p.id == 0x1f || p.id == 0x21 || p.id == 0x22 || p.id == 0x27) ==> *final(sess) == *old(sess),
        p.id == 0x1d ==> (final(world).cols() == old(world).cols() && r == Ok::<
            Option<SessionAction>,
            WorldError,
        >(None) && EntityManager::destroy_rel(*old(reg), *final(reg), p@.fields[0]->I32Vec_0, source)
            && (forall|x: i32|
            #[trigger] final(sess).known@.contains(x) <==> (old(sess).known@.contains(x)
                && !p@.fields[0]->I32Vec_0.contains(x)))),
        // session packets
        p.id == 0x06 ==> *final(sess) == *old(sess) && *final(reg) == *old(reg) && final(world).cols() == old(world).cols() && r == Ok::<Option<SessionAction>, WorldError>(
            Some(SessionAction::SendClientSettings),
        ),
        p.id == 0x08 ==> (*final(reg) == *old(reg) && final(world).cols() == old(world).cols()
            && *final(sess) == (SessionState {
            hp: p@.fields[0]->I16_0,
            food: p@.fields[1]->I16_0,
            saturation_bits: p@.fields[2]->F32_0,
            ..*old(sess)
        }) && r == Ok::<Option<SessionAction>, WorldError>(
            if p@.fields[0]->I16_0 <= 0 {
                Some(SessionAction::SendRespawn)
            } else {
                None
            },
        )),
        p.id == 0x0d ==> (*final(reg) == *old(reg) && final(world).cols() == old(world).cols()
            && *final(sess) == *old(sess) && r == Ok::<Option<SessionAction>, WorldError>(
            Some(
                SessionAction::EchoPositionAndLook {
                    x: p@.fields[0]->F64_0,
                    y: p@.fields[1]->F64_0,
                    stance: p@.fields[2]->F64_0,
                    z: p@.fields[3]->F64_0,
                    yaw: p@.fields[4]->F32_0,
                    pitch: p@.fields[5]->F32_0,
                    on_ground: p@.fields[6]->Bool_0,
                },
            ),
        )),
        p.id == 0xff ==> (*final(reg) == *old(reg) && final(world).cols() == old(world).cols()
            && *final(sess) == (SessionState { stop: true, ..*old(sess) }) && r == Ok::<
            Option<SessionAction>,
            WorldError,
        >(Some(SessionAction::Stop))),
        !(p.id == 0x33 || p.id == 0x38 || p.id == 0x35 || p.id == 0x34 || is_entity_packet(p.id)
            || p.id == 0x1d || p.id == 0x06 || p.id == 0x08 || p.id == 0x0d || p.id == 0xff)
            ==> (*final(sess) == *old(sess) && *final(reg) == *old(reg) && final(world).cols()
            == old(world).cols() && r == Ok::<Option<SessionAction>, WorldError>(None)),
    {
        match p.id {
            0x06 => Ok(Some(SessionAction::SendClientSettings)),
            0x08 => {
                let hp = match &p.fields[0] {
                    FieldValue::I16(v) => *v,
                    _ => {
                        proof {
                            assert(p@.fields[0] == p.fields@[0]@);
                            assert(false);
                        }
                        0
                    },
                };
                let food = match &p.fields[1] {
                    FieldValue::I16(v) => *v,
                    _ => {
                        proof {
                            assert(p@.fields[1] == p.fields@[1]@);
                            assert(false);
                        }
                        0
                    },
                };
                let sat = match &p.fields[2] {
                    FieldValue::F32(v) => *v,
                    _ => {
                        proof {
                            assert(p@.fields[2] == p.fields@[2]@);
                            assert(false);
                        }
                        0
                    },
                };
                sess.hp = hp;
                sess.food = food;
                sess.saturation_bits = sat;
                if hp <= 0 {
                    Ok(Some(SessionAction::SendRespawn))
                } else {
                    Ok(None)
                }
            },
            0x0d => {
                let x = pfield_f64(p, 0);
                let y = pfield_f64(p, 1);
                let stance = pfield_f64(p, 2);
                let z = pfield_f64(p, 3);
                let yaw = pfield_f32(p, 4);
                let pitch = pfield_f32(p, 5);
                let on_ground = match &p.fields[6] {
                    FieldValue::Bool(v) => *v,
                    _ => {
                        proof {
                            assert(p@.fields[6] == p.fields@[6]@);
                            assert(false);
                        }
                        false
                    },
                };
                Ok(
                    Some(
                        SessionAction::EchoPositionAndLook {
                            x,
                            y,
                            stance,
                            z,
                            yaw,
                            pitch,
                            on_ground,
                        },
                    ),
                )
            },
            0xff => {
                sess.stop = true;
                Ok(Some(SessionAction::Stop))
            },
            0x33 => {
                let data = match &p.fields[0] {
                    FieldValue::ChunkBlob(d) => d.clone(),
                    _ => {
                        proof {
                            assert(p@.fields[0] == p.fields@[0]@);
                            assert(false);
                        }
                        return Ok(None);
                    },
                };
                match world.set_chunk(data) {
                    Ok(()) => Ok(None),
                    Err(e) => Err(e),
                }
            },
            0x38 => {
                let data = match &p.fields[0] {
                    FieldValue::ChunkBulkBlob(d) => d,
                    _ => {
                        proof {
                            assert(p@.fields[0] == p.fields@[0]@);
                            assert(false);
                        }
                        return Ok(None);
                    },
                };
                match world.set_chunk_bulk(data) {
                    Ok(()) => Ok(None),
                    Err(e) => Err(e),
                }
            },
            0x35 => {
                let x = pfield_i32(p, 0);
                let y = match &p.fields[1] {
                    FieldValue::U8(v) => *v,
                    _ => {
                        proof {
                            assert(p@.fields[1] == p.fields@[1]@);
                            assert(false);
                        }
                        0
                    },
                };
                let z = pfield_i32(p, 2);
                let block_type = match &p.fields[3] {
                    FieldValue::U16(v) => *v,
                    _ => {
                        proof {
                            assert(p@.fields[3] == p.fields@[3]@);
                            assert(false);
                        }
                        0
                    },
                };
                let block_meta = match &p.fields[4] {
                    FieldValue::U8(v) => *v,
                    _ => {
                        proof {
                            assert(p@.fields[4] == p.fields@[4]@);
                            assert(false);
                        }
                        0
                    },
                };
                world.set_block(x, z, y, block_type, block_meta);
                Ok(None)
            },
            0x34 => {
                let data = match &p.fields[0] {
                    FieldValue::MultiBlock(d) => d,
                    _ => {
                        proof {
                            assert(p@.fields[0] == p.fields@[0]@);
                            assert(false);
                        }
                        return Ok(None);
                    },
                };
                match world.set_block_multiple(data) {
                    Ok(()) => Ok(None),
                    Err(e) => Err(e),
                }
            },
            0x17 => {
                let eid = pfield_i32(p, 0);
                session_know(sess, eid);
                reg.handle_packet(p, source);
                Ok(None)
            },
            0x18 => {
                let eid = pfield_i32(p, 0);
                session_know(sess, eid);
                reg.handle_packet(p, source);
                Ok(None)
            },
            0x1f => {
                reg.handle_packet(p, source);
                Ok(None)
            },
            0x21 => {
                reg.handle_packet(p, source);
                Ok(None)
            },
            0x22 => {
                reg.handle_packet(p, source);
                Ok(None)
            },
            0x27 => {
                reg.handle_packet(p, source);
                Ok(None)
            },
            0x1d => {
                let ids = match &p.fields[0] {
                    FieldValue::I32Vec(v) => v,
                    _ => {
                        proof {
                            assert(p@.fields[0] == p.fields@[0]@);
                            assert(false);
                        }
                        return Ok(None);
                    },
                };
                session_forget(sess, ids);
                reg.entity_destroy(ids, source);
                Ok(None)
            },
            _ => Ok(None),
        }
    }

/// Adds one id to a session's known set.
fn session_know(sess: &mut SessionState, eid: i32)
    requires
        old(sess).wf(),
    ensures
        final(sess).wf(),
        forall|x: i32|
            #[trigger] final(sess).known@.contains(x) <==> (old(sess).known@.contains(x) || x
                == eid),
        final(sess).hp == old(sess).hp && final(sess).food == old(sess).food && final(sess).saturation_bits == old(sess).saturation_bits && final(sess).stop == old(sess).stop,
{
    let mut found = false;
    let n = sess.known.len();
    let mut k: usize = 0;
    while k < n
        invariant
            n == sess.known@.len(),
            k <= n,
            found <==> exists|j: int| 0 <= j < k && sess.known@[j] == eid,
            *sess == *old(sess),
        decreases n - k,
    {
        if sess.known[k] == eid {
            found = true;
        }
        k += 1;
    }
    if !found {
        let ghost prev = sess.known@;
        sess.known.push(eid);
        proof {
            assert forall|x: i32| sess.known@.contains(x) implies (prev.contains(x) || x
                == eid) by {
                let j = choose|j: int| 0 <= j < sess.known@.len() && sess.known@[j] == x;
                if j < prev.len() {
                    assert(prev[j] == x);
                }
            }
            assert forall|x: i32| prev.contains(x) implies sess.known@.contains(x) by {
                let j = choose|j: int| 0 <= j < prev.len() && prev[j] == x;
                assert(sess.known@[j] == x);
            }
            assert(sess.known@.contains(eid)) by {
                assert(sess.known@.last() == eid);
            }
            assert(sess.known@.no_duplicates());
        }
    }
}

/// Removes a batch of ids from a session's known set.
fn session_forget(sess: &mut SessionState, ids: &Vec<i32>)
    requires
        old(sess).wf(),
    ensures
        final(sess).wf(),
        forall|x: i32|
            #[trigger] final(sess).known@.contains(x) <==> (old(sess).known@.contains(x)
                && !ids@.contains(x)),
        final(sess).hp == old(sess).hp && final(sess).food == old(sess).food && final(sess).saturation_bits == old(sess).saturation_bits && final(sess).stop == old(sess).stop,
{
    let mut kept: Vec<i32> = Vec::new();
    let n = sess.known.len();
    let mut k: usize = 0;
    while k < n
        invariant
            n == sess.known@.len(),
            k <= n,
            *sess == *old(sess),
            kept@.no_duplicates(),
            forall|x: i32|
                #[trigger] kept@.contains(x) <==> (exists|j: int|
                    0 <= j < k && sess.known@[j] == x) && !ids@.contains(x),
        decreases n - k,
    {
        let ghost entry_kept = kept@;
        let v = sess.known[k];
        let mut in_ids = false;
        let m = ids.len();
        let mut q: usize = 0;
        while q < m
            invariant
                m == ids@.len(),
                q <= m,
                in_ids <==> exists|j: int| 0 <= j < q && ids@[j] == v,
            decreases m - q,
        {
            if ids[q] == v {
                in_ids = true;
            }
            q += 1;
        }
        proof {
            if in_ids {
                let j = choose|j: int| 0 <= j < m && ids@[j] == v;
                assert(ids@.contains(v));
            }
            if ids@.contains(v) {
                let j = choose|j: int| 0 <= j < ids@.len() && ids@[j] == v;
                assert(in_ids);
            }
        }
        if !in_ids {
            let mut already = false;
            let kn = kept.len();
            let mut q2: usize = 0;
            while q2 < kn
                invariant
                    kn == kept@.len(),
                    q2 <= kn,
                    already <==> exists|j: int| 0 <= j < q2 && kept@[j] == v,
                decreases kn - q2,
            {
                if kept[q2] == v {
                    already = true;
                }
                q2 += 1;
            }
            proof {
                if already {
                    let j = choose|j: int| 0 <= j < kn && kept@[j] == v;
                    assert(kept@.contains(v));
                }
                if kept@.contains(v) {
                    let j = choose|j: int| 0 <= j < kept@.len() && kept@[j] == v;
                    assert(already);
                }
            }
            if !already {
                let ghost prev = kept@;
                kept.push(v);
                proof {
                    assert forall|x: i32| kept@.contains(x) implies (prev.contains(x) || x
                        == v) by {
                        let j = choose|j: int| 0 <= j < kept@.len() && kept@[j] == x;
                        if j < prev.len() {
                            assert(prev[j] == x);
                        }
                    }
                    assert forall|x: i32| prev.contains(x) implies kept@.contains(x) by {
                        let j = choose|j: int| 0 <= j < prev.len() && prev[j] == x;
                        assert(kept@[j] == x);
                    }
                    assert(kept@.contains(v)) by {
                        assert(kept@.last() == v);
                    }
                    assert(kept@.no_duplicates());
                }
            }
        }
        proof {
            assert forall|x: i32|
                #[trigger] kept@.contains(x) <==> ((exists|j: int|
                    0 <= j < k + 1 && sess.known@[j] == x) && !ids@.contains(x)) by {
                let h0 = entry_kept.contains(x);
                if (exists|j: int| 0 <= j < k + 1 && sess.known@[j] == x) && !ids@.contains(x) {
                    let j = choose|j: int| 0 <= j < k + 1 && sess.known@[j] == x;
                    if j == k {
                        assert(x == v);
                        assert(sess.known@[k as int] == v);
                    } else {
                        assert(0 <= j < k && sess.known@[j] == x);
                    }
                }
                if kept@.contains(x) {
                    if exists|j: int| 0 <= j < k && sess.known@[j] == x {
                        let j = choose|j: int| 0 <= j < k && sess.known@[j] == x;
                        assert(0 <= j < k + 1 && sess.known@[j] == x);
                    } else {
                        assert(x == v);
                        assert(sess.known@[k as int] == v);
                        assert(0 <= k < k + 1 && sess.known@[k as int] == x);
                    }
                }
            }
        }
        k += 1;
    }
    sess.known = kept;
    proof {
        assert forall|x: i32|
            #[trigger] sess.known@.contains(x) <==> (old(sess).known@.contains(x)
                && !ids@.contains(x)) by {
            if old(sess).known@.contains(x) {
                let j = choose|j: int|
                    0 <= j < old(sess).known@.len() && old(sess).known@[j] == x;
            }
        }
    }
}

/// One packet field as a signed 32-bit integer (dispatch helper).
fn pfield_i32(p: &Packet, k: usize) -> (r: i32)
    requires
        packet_wf(p@),
        0 <= k < p@.fields.len(),
        crate::packet::field_matches(p@.fields[k as int], crate::packet::FieldType::I32),
    ensures
        p@.fields[k as int] == crate::packet::FieldView::I32(r),
{
    proof {
        assert(p@.fields[k as int] == p.fields@[k as int]@);
    }
    match &p.fields[k] {
        FieldValue::I32(v) => *v,
        _ => {
            proof {
                assert(false);
            }
            0
        },
    }
}

/// One packet field as a 64-bit floating-point bit pattern.
fn pfield_f64(p: &Packet, k: usize) -> (r: u64)
    requires
        packet_wf(p@),
        0 <= k < p@.fields.len(),
        crate::packet::field_matches(p@.fields[k as int], crate::packet::FieldType::F64),
    ensures
        p@.fields[k as int] == crate::packet::FieldView::F64(r),
{
    proof {
        assert(p@.fields[k as int] == p.fields@[k as int]@);
    }
    match &p.fields[k] {
        FieldValue::F64(v) => *v,
        _ => {
            proof {
                assert(false);
            }
            0
        },
    }
}

/// One packet field as a 32-bit floating-point bit pattern.
fn pfield_f32(p: &Packet, k: usize) -> (r: u32)
    requires
        packet_wf(p@),
        0 <= k < p@.fields.len(),
        crate::packet::field_matches(p@.fields[k as int], crate::packet::FieldType::F32),
    ensures
        p@.fields[k as int] == crate::packet::FieldView::F32(r),
{
    proof {
        assert(p@.fields[k as int] == p.fields@[k as int]@);
    }
    match &p.fields[k] {
        FieldValue::F32(v) => *v,
        _ => {
            proof {
                assert(false);
            }
            0
        },
    }
}

} // verus!
