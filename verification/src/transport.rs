//! The decisions of the QUIC transport. Paired devices prove who they are with a
//! signed challenge and pin each other's certificate; unpaired devices can only
//! ask to pair; received clipboard content is de-duplicated, classified and
//! stored. The connections themselves are driven outside the library.

use vstd::prelude::*;
use vstd::utf8::{decode_utf8, valid_utf8};
use crate::clipboard::{kind_html, kind_text, spec_content_hash, EchoGuard};
use crate::crypto::{
    ed25519_key_valid, ed25519_verify_strict, spec_blake3, spec_ed25519_key_valid,
    spec_ed25519_sign, spec_ed25519_verify_strict,
};
use crate::cipher::{spec_decrypt, LocalCipher};
use crate::crypto::aead_length_ok;
use crate::discovery::{Peer, PeerAddr, PeerTable};
use crate::identity::Identity;
use crate::pairing::{pairing_code, spec_pairing_code};
use crate::protocol::Message;
use crate::recent::{spec_expire, spec_recent_contains, spec_recent_put};
use crate::storage::{ClipboardItem, DeviceRecord, MemHistory, StoredContent, spec_expiry};
use crate::text::{all_ws, normalize_newlines, opt_chars, spec_utf8_lossy, trim_front};

verus! {

broadcast use vstd::string::group_string_axioms;

/// How long a message id is remembered as processed, in milliseconds.
pub const PROCESSED_WINDOW_MS: i64 = 600_000;

/// How long the same content is not stored or announced again, in milliseconds.
pub const RECEIVE_REPEAT_WINDOW_MS: i64 = 30_000;

/// How many characters a preview keeps.
pub const PREVIEW_CHARS: usize = 200;

/// How long an unanswered pairing request is kept, in milliseconds.
pub const PENDING_PAIRING_TTL_MS: i64 = 120_000;

/// The first sixteen bytes of the BLAKE3 digest (binds a certificate into a
/// pairing code).
pub open spec fn spec_blake3_16(data: Seq<u8>) -> Seq<u8> {
    spec_blake3(data).take(16)
}

/// The first sixteen bytes of the BLAKE3 digest of `data`.
pub fn blake3_16(data: &[u8]) -> (r: Vec<u8>)
    ensures
        r@ == spec_blake3_16(data@),
{
    let d = crate::crypto::blake3_hash(data);
    let r = crate::bytes::sub_bytes(&d, 0, 16);
    assert(r@ =~= d@.take(16));
    r
}

/// Why a connecting device was not authenticated.
#[derive(Clone, Copy, Debug, PartialEq, Eq, Structural)]
pub enum AuthError {
    /// The reply to the challenge was not an `Auth` message.
    ExpectedAuth,
    /// The stored public key is not 32 bytes long.
    BadPublicKeyLength,
    /// The stored public key is not a valid Ed25519 key.
    InvalidPublicKey,
    /// The signature is not 64 bytes long.
    BadSignatureEncoding,
    /// The signature does not verify.
    AuthFailed,
    /// The server did not answer `Hello` with a challenge.
    ExpectedChallenge,
}

impl AuthError {
    /// The message the application logs for this error.
    pub fn message(&self) -> (s: &'static str)
        ensures
            *self == AuthError::ExpectedAuth ==> s@ == "期望 Auth 消息"@,
            *self == AuthError::BadPublicKeyLength ==> s@ == "设备公钥长度异常"@,
            *self == AuthError::InvalidPublicKey ==> s@ == "存储的设备公钥无效"@,
            *self == AuthError::BadSignatureEncoding ==> s@ == "签名编码无效"@,
            *self == AuthError::AuthFailed ==> s@ == "设备认证失败"@,
            *self == AuthError::ExpectedChallenge ==> s@ == "期望 Challenge 消息"@,
    {
        match self {
            AuthError::ExpectedAuth => "期望 Auth 消息",
            AuthError::BadPublicKeyLength => "设备公钥长度异常",
            AuthError::InvalidPublicKey => "存储的设备公钥无效",
            AuthError::BadSignatureEncoding => "签名编码无效",
            AuthError::AuthFailed => "设备认证失败",
            AuthError::ExpectedChallenge => "期望 Challenge 消息",
        }
    }
}

fn copy_32(b: &[u8]) -> (r: [u8; 32])
    requires
        b@.len() == 32,
    ensures
        r@ == b@,
{
    let mut k = [0u8; 32];
    let mut i: usize = 0;
    while i < 32
        invariant
            b@.len() == 32,
            i <= 32,
            forall|j: int| 0 <= j < i ==> k@[j] == b@[j],
        decreases 32 - i,
    {
        k[i] = b[i];
        i = i + 1;
    }
    assert(k@ =~= b@);
    k
}

fn copy_64(b: &[u8]) -> (r: [u8; 64])
    requires
        b@.len() == 64,
    ensures
        r@ == b@,
{
    let mut k = [0u8; 64];
    let mut i: usize = 0;
    while i < 64
        invariant
            b@.len() == 64,
            i <= 64,
            forall|j: int| 0 <= j < i ==> k@[j] == b@[j],
        decreases 64 - i,
    {
        k[i] = b[i];
        i = i + 1;
    }
    assert(k@ =~= b@);
    k
}

/// A stored public key as an Ed25519 key: refused unless it is 32 bytes and a
/// valid point.
pub fn verifying_key_from(public_key: &[u8]) -> (r: Result<[u8; 32], AuthError>)
    ensures
        r matches Ok(k) ==> k@ == public_key@ && spec_ed25519_key_valid(public_key@),
        r is Ok <==> public_key@.len() == 32 && spec_ed25519_key_valid(public_key@),
        r == Err::<[u8; 32], AuthError>(AuthError::BadPublicKeyLength) <==> public_key@.len() != 32,
        r == Err::<[u8; 32], AuthError>(AuthError::InvalidPublicKey) <==> public_key@.len() == 32
            && !spec_ed25519_key_valid(public_key@),
{
    if public_key.len() != 32 {
        return Err(AuthError::BadPublicKeyLength);
    }
    let k = copy_32(public_key);
    if !ed25519_key_valid(&k) {
        return Err(AuthError::InvalidPublicKey);
    }
    Ok(k)
}

/// Whether the reply to a challenge authenticates the device whose stored key is
/// `public_key`: it must be an `Auth` message whose signature is a valid
/// Ed25519 signature of the nonce under that key.
pub open spec fn spec_auth_ok(public_key: Seq<u8>, nonce: Seq<u8>, reply: Message) -> bool {
    reply matches Message::Auth { signature, .. } && public_key.len() == 32 && spec_ed25519_key_valid(
        public_key,
    ) && signature@.len() == 64 && spec_ed25519_verify_strict(public_key, nonce, signature@)
}

/// Checks the reply to challenge `nonce` from a device whose stored key is
/// `public_key`.
pub fn check_auth(public_key: &[u8], nonce: &[u8; 32], reply: &Message) -> (r: Result<(), AuthError>)
    ensures
        r is Ok <==> spec_auth_ok(public_key@, nonce@, *reply),
        !(reply is Auth) ==> r == Err::<(), AuthError>(AuthError::ExpectedAuth),
        reply is Auth && public_key@.len() != 32 ==> r == Err::<(), AuthError>(
            AuthError::BadPublicKeyLength,
        ),
        reply is Auth && public_key@.len() == 32 && !spec_ed25519_key_valid(public_key@) ==> r == Err::<
            (),
            AuthError,
        >(AuthError::InvalidPublicKey),
{
    match reply {
        Message::Auth { signature, .. } => {
            let vk = verifying_key_from(public_key)?;
            if signature.len() != 64 {
                return Err(AuthError::BadSignatureEncoding);
            }
            let sig = copy_64(signature.as_slice());
            if ed25519_verify_strict(&vk, nonce, &sig) {
                Ok(())
            } else {
                Err(AuthError::AuthFailed)
            }
        },
        _ => Err(AuthError::ExpectedAuth),
    }
}

/// What the server does with the first frame of a connection.
#[derive(Clone, Debug)]
pub enum FirstFrame {
    /// Challenge the device with this id (it must be paired).
    Authenticate(String),
    /// Handle a pairing request.
    Pairing,
    /// Close the connection.
    Illegal,
}

/// Dispatches the first frame of a connection: `Hello` starts authentication,
/// `PairingRequest` starts pairing, anything else is refused.
pub fn first_frame_action(msg: &Message) -> (r: FirstFrame)
    ensures
        msg matches Message::Hello { device_id } ==> r matches FirstFrame::Authenticate(id) && id@
            == device_id@,
        msg is PairingRequest ==> r is Pairing,
        !(msg is Hello) && !(msg is PairingRequest) ==> r is Illegal,
{
    match msg {
        Message::Hello { device_id } => FirstFrame::Authenticate(device_id.clone()),
        Message::PairingRequest { .. } => FirstFrame::Pairing,
        _ => FirstFrame::Illegal,
    }
}

/// The connecting side's answer to the server's reply to `Hello`: an `Auth`
/// message carrying this device's id and its signature of the nonce.
pub fn answer_challenge(identity: &Identity, reply: &Message) -> (r: Result<Message, AuthError>)
    ensures
        reply matches Message::Challenge { nonce } ==> r matches Ok(Message::Auth { device_id, signature })
            && device_id@ == identity.device_id@ && signature@ == spec_ed25519_sign(identity.seed@, nonce@),
        !(reply is Challenge) ==> r == Err::<Message, AuthError>(AuthError::ExpectedChallenge),
{
    match reply {
        Message::Challenge { nonce } => {
            let sig = identity.sign(nonce);
            let signature = crate::bytes::to_vec(&sig);
            Ok(Message::Auth { device_id: identity.device_id.clone(), signature })
        },
        _ => Err(AuthError::ExpectedChallenge),
    }
}

/// The certificate pinning rule for paired devices: the presented certificate
/// must be byte-for-byte the one stored at pairing.
pub fn pinned_cert_matches(presented: &[u8], expected: &[u8]) -> (r: bool)
    ensures
        r == (presented@ == expected@),
{
    if presented.len() != expected.len() {
        return false;
    }
    let mut i: usize = 0;
    while i < presented.len()
        invariant
            presented@.len() == expected@.len(),
            i <= presented@.len(),
            forall|j: int| 0 <= j < i ==> presented@[j] == expected@[j],
        decreases presented@.len() - i,
    {
        if presented[i] != expected[i] {
            return false;
        }
        i = i + 1;
    }
    assert(presented@ =~= expected@);
    true
}

/// The code the responding device shows: from the requester's public key, the
/// digest of the responder's own certificate, and the request nonce.
pub fn server_pairing_code(requester_pubkey: &[u8], own_cert: &[u8], nonce: &[u8]) -> (code: String)
    ensures
        code@ == spec_pairing_code(requester_pubkey@, spec_blake3_16(own_cert@), nonce@),
{
    let binding = blake3_16(own_cert);
    pairing_code(requester_pubkey, binding.as_slice(), nonce)
}

/// The code the requesting device shows: from its own public key, the digest of
/// the certificate it saw in the handshake, and its nonce.
pub fn client_pairing_code(own_pubkey: &[u8], captured_cert: &[u8], nonce: &[u8]) -> (code: String)
    ensures
        code@ == spec_pairing_code(own_pubkey@, spec_blake3_16(captured_cert@), nonce@),
{
    let binding = blake3_16(captured_cert);
    pairing_code(own_pubkey, binding.as_slice(), nonce)
}

/// Without a man in the middle both devices show the same code: when the
/// responder received the requester's public key and nonce unchanged and the
/// requester saw the responder's own certificate in the handshake, the code of
/// [`server_pairing_code`] equals that of [`client_pairing_code`].
pub proof fn lemma_pairing_codes_agree(
    received_pubkey: Seq<u8>,
    responder_cert: Seq<u8>,
    received_nonce: Seq<u8>,
    requester_pubkey: Seq<u8>,
    captured_cert: Seq<u8>,
    requester_nonce: Seq<u8>,
)
    requires
        received_pubkey == requester_pubkey,
        captured_cert == responder_cert,
        received_nonce == requester_nonce,
    ensures
        spec_pairing_code(received_pubkey, spec_blake3_16(responder_cert), received_nonce)
            == spec_pairing_code(requester_pubkey, spec_blake3_16(captured_cert), requester_nonce),
{
}

/// The `PairingAccept` a device sends: its id, its current name, its public key
/// and its certificate.
pub fn pairing_accept_message(identity: &Identity, device_name: String) -> (m: Message)
    ensures
        m matches Message::PairingAccept { device_id, device_name: n, device_pubkey, cert_der }
            && device_id@ == identity.device_id@ && n@ == device_name@ && device_pubkey@
            == identity.public_key@ && cert_der@ == identity.tls_cert@,
{
    Message::PairingAccept {
        device_id: identity.device_id.clone(),
        device_name,
        device_pubkey: crate::bytes::to_vec(&identity.public_key),
        cert_der: crate::bytes::to_vec(identity.tls_cert.as_slice()),
    }
}

/// Whether `m` is the `PairingRequest` of `identity` under name `device_name`
/// with nonce `nonce`.
pub open spec fn is_pairing_request(m: Message, identity: Identity, device_name: Seq<char>, nonce: Seq<u8>) -> bool {
    m matches Message::PairingRequest { device_id, device_name: n, device_pubkey, cert_der, nonce: nn }
        && device_id@ == identity.device_id@ && n@ == device_name && device_pubkey@ == identity.public_key@
        && cert_der@ == identity.tls_cert@ && nn@ == nonce
}

/// The `PairingRequest` a device sends: its id, name, public key, certificate and
/// the fresh nonce.
pub fn pairing_request_message(identity: &Identity, device_name: String, nonce: &[u8]) -> (m: Message)
    ensures
        is_pairing_request(m, *identity, device_name@, nonce@),
{
    Message::PairingRequest {
        device_id: identity.device_id.clone(),
        device_name,
        device_pubkey: crate::bytes::to_vec(&identity.public_key),
        cert_der: crate::bytes::to_vec(identity.tls_cert.as_slice()),
        nonce: crate::bytes::to_vec(nonce),
    }
}

/// A pairing request under a fresh random 16-byte nonce, returned with it.
pub fn new_pairing_request(identity: &Identity, device_name: String) -> (r: (Vec<u8>, Message))
    ensures
        r.0@.len() == 16,
        is_pairing_request(r.1, *identity, device_name@, r.0@),
{
    let nonce = crate::crypto::random_bytes(16);
    let m = pairing_request_message(identity, device_name, nonce.as_slice());
    (nonce, m)
}

/// A fresh random 32-byte challenge for a device that said `Hello`, with the
/// message that carries it.
pub fn new_challenge() -> (r: ([u8; 32], Message))
    ensures
        r.1 == (Message::Challenge { nonce: r.0 }),
{
    let bytes = crate::crypto::random_bytes(32);
    let nonce = copy_32(bytes.as_slice());
    (nonce, Message::Challenge { nonce })
}

/// A pairing request waiting for the user of this device to confirm or refuse.
#[derive(Clone, Debug)]
pub struct PendingPairing {
    pub device_id: String,
    pub device_name: String,
    pub device_pubkey: Vec<u8>,
    pub cert_der: Vec<u8>,
    pub code: String,
    pub created_ms: i64,
}

/// The pending pairing for a `PairingRequest` received at `now`, with the code
/// this device shows; `None` for any other message.
pub fn pending_pairing(request: Message, own_cert: &[u8], now: i64) -> (r: Option<PendingPairing>)
    ensures
        request matches Message::PairingRequest { device_id, device_name, device_pubkey, cert_der, nonce }
            ==> r matches Some(p) && p.device_id@ == device_id@ && p.device_name@ == device_name@
            && p.device_pubkey@ == device_pubkey@ && p.cert_der@ == cert_der@ && p.created_ms == now
            && p.code@ == spec_pairing_code(device_pubkey@, spec_blake3_16(own_cert@), nonce@),
        !(request is PairingRequest) ==> r is None,
{
    match request {
        Message::PairingRequest { device_id, device_name, device_pubkey, cert_der, nonce } => {
            let code = server_pairing_code(device_pubkey.as_slice(), own_cert, nonce.as_slice());
            Some(PendingPairing { device_id, device_name, device_pubkey, cert_der, code, created_ms: now })
        },
        _ => None,
    }
}

/// Whether a pending pairing created at `created_ms` is still kept at `now`
/// (younger than two minutes).
pub fn pending_alive(created_ms: i64, now: i64) -> (r: bool)
    ensures
        r == (now - created_ms < PENDING_PAIRING_TTL_MS),
{
    (now as i128) - (created_ms as i128) < (PENDING_PAIRING_TTL_MS as i128)
}

/// The record of a device paired at `now`: sending and receiving enabled, last
/// seen and created now.
pub open spec fn is_new_pairing(
    r: DeviceRecord,
    id: Seq<char>,
    name: Seq<char>,
    public_key: Seq<u8>,
    cert_der: Seq<u8>,
    now: i64,
) -> bool {
    &&& r.id@ == id
    &&& r.name@ == name
    &&& r.public_key@ == public_key
    &&& r.cert_der@ == cert_der
    &&& r.send_enabled
    &&& r.receive_enabled
    &&& r.last_seen_at == Some(now)
    &&& r.created_at == now
}

/// The device record kept when a pending pairing is accepted at `now`.
pub fn record_from_pending(p: PendingPairing, now: i64) -> (r: DeviceRecord)
    ensures
        is_new_pairing(r, p.device_id@, p.device_name@, p.device_pubkey@, p.cert_der@, now),
{
    DeviceRecord {
        id: p.device_id,
        name: p.device_name,
        public_key: p.device_pubkey,
        cert_der: p.cert_der,
        send_enabled: true,
        receive_enabled: true,
        last_seen_at: Some(now),
        created_at: now,
    }
}

/// The result of a pairing request, as the requesting side reports it.
#[derive(Clone, Debug)]
pub struct PairOutcome {
    pub accepted: bool,
    pub message: String,
    pub device_name: String,
}

/// What came back on the pairing channel.
#[derive(Clone, Debug)]
pub enum PairingReply {
    /// The other device accepted, with its keys.
    Accept { device_id: String, device_name: String, device_pubkey: Vec<u8>, cert_der: Vec<u8> },
    /// The other device refused.
    Reject,
    /// Some other message.
    Unexpected,
    /// The channel failed; the error's text.
    ChannelError(String),
}

/// Classifies a message read from the pairing channel.
pub fn pairing_reply_from(msg: Message) -> (r: PairingReply)
    ensures
        msg matches Message::PairingAccept { device_id, device_name, device_pubkey, cert_der } ==> r matches PairingReply::Accept {
            device_id: a,
            device_name: b,
            device_pubkey: c,
            cert_der: d,
        } && a@ == device_id@ && b@ == device_name@ && c@ == device_pubkey@ && d@ == cert_der@,
        msg is PairingReject ==> r is Reject,
        !(msg is PairingAccept) && !(msg is PairingReject) ==> r is Unexpected,
{
    match msg {
        Message::PairingAccept { device_id, device_name, device_pubkey, cert_der } => PairingReply::Accept {
            device_id,
            device_name,
            device_pubkey,
            cert_der,
        },
        Message::PairingReject { .. } => PairingReply::Reject,
        _ => PairingReply::Unexpected,
    }
}

/// The outcome of a pairing request given the certificate seen in the handshake
/// and the reply: an acceptance whose certificate differs from the one seen is a
/// suspected man in the middle and is refused; a matching acceptance pairs the
/// device (its record is returned); a refusal, an unexpected message or a broken
/// channel pairs nothing.
pub fn pairing_outcome(captured_cert: &[u8], reply: PairingReply, now: i64) -> (r: (PairOutcome, Option<DeviceRecord>))
    ensures
        reply matches PairingReply::Accept { device_id, device_name, device_pubkey, cert_der } ==> {
            &&& r.0.device_name@ == device_name@
            &&& if cert_der@ == captured_cert@ {
                &&& r.0.accepted
                &&& r.0.message@ == "配对成功"@
                &&& r.1 matches Some(rec) && is_new_pairing(rec, device_id@, device_name@, device_pubkey@, cert_der@, now)
            } else {
                &&& !r.0.accepted
                &&& r.0.message@ == "证书不匹配，疑似中间人攻击"@
                &&& r.1 is None
            }
        },
        reply is Reject ==> !r.0.accepted && r.0.message@ == "对方拒绝了配对"@ && r.0.device_name@.len() == 0 && r.1 is None,
        reply is Unexpected ==> !r.0.accepted && r.0.message@ == "收到意外响应"@ && r.0.device_name@.len() == 0 && r.1 is None,
        reply matches PairingReply::ChannelError(e) ==> !r.0.accepted && r.0.message@ == "配对通道断开: "@ + e@
            && r.0.device_name@.len() == 0 && r.1 is None,
{
    match reply {
        PairingReply::Accept { device_id, device_name, device_pubkey, cert_der } => {
            if !pinned_cert_matches(captured_cert, cert_der.as_slice()) {
                (PairOutcome { accepted: false, message: String::from_str("证书不匹配，疑似中间人攻击"), device_name }, None)
            } else {
                let rec = DeviceRecord {
                    id: device_id,
                    name: device_name.clone(),
                    public_key: device_pubkey,
                    cert_der,
                    send_enabled: true,
                    receive_enabled: true,
                    last_seen_at: Some(now),
                    created_at: now,
                };
                (PairOutcome { accepted: true, message: String::from_str("配对成功"), device_name }, Some(rec))
            }
        },
        PairingReply::Reject => (
            PairOutcome { accepted: false, message: String::from_str("对方拒绝了配对"), device_name: String::new() },
            None,
        ),
        PairingReply::Unexpected => (
            PairOutcome { accepted: false, message: String::from_str("收到意外响应"), device_name: String::new() },
            None,
        ),
        PairingReply::ChannelError(e) => {
            let message = String::from_str("配对通道断开: ").concat(e.as_str());
            (PairOutcome { accepted: false, message, device_name: String::new() }, None)
        },
    }
}

/// The event announcing a pairing code.
#[derive(Clone, Debug)]
pub struct PairingEventPayload {
    pub device_id: String,
    pub device_name: String,
    pub code: String,
}

/// The event announcing the result of a pairing request.
#[derive(Clone, Debug)]
pub struct PairingResultPayload {
    pub device_id: String,
    pub device_name: String,
    pub ok: bool,
    pub message: String,
}

/// The event for the result of the pairing request to `device_id`.
pub fn pairing_result_payload(device_id: String, outcome: &PairOutcome) -> (r: PairingResultPayload)
    ensures
        r.device_id@ == device_id@,
        r.device_name@ == outcome.device_name@,
        r.ok == outcome.accepted,
        r.message@ == outcome.message@,
{
    PairingResultPayload {
        device_id,
        device_name: outcome.device_name.clone(),
        ok: outcome.accepted,
        message: outcome.message.clone(),
    }
}

/// Whether `peers` holds the device `id` at address `addr`.
pub open spec fn peer_at(peers: PeerTable, id: Seq<char>, addr: PeerAddr) -> bool {
    exists|j: int| 0 <= j < peers.seq().len() && #[trigger] peers.seq()[j].device_id@ == id && peers.seq()[j].addr == addr
}

/// Whether `(id, addr)` is a push target: a device in `devices` with sending
/// enabled, seen at `addr`.
pub open spec fn is_target(devices: Seq<DeviceRecord>, peers: PeerTable, id: Seq<char>, addr: PeerAddr) -> bool {
    &&& exists|i: int| 0 <= i < devices.len() && (#[trigger] devices[i]).send_enabled && devices[i].id@ == id
    &&& peer_at(peers, id, addr)
}

/// The paired devices clipboard content is pushed to: those with sending enabled
/// that are currently seen on the network, in the order of `devices`, each with
/// its address.
pub fn push_targets(devices: &[DeviceRecord], peers: &PeerTable) -> (r: Vec<(String, PeerAddr)>)
    requires
        peers.wf(),
    ensures
        r@.len() <= devices@.len(),
        (forall|a: int, b: int| 0 <= a < b < devices@.len() ==> #[trigger] devices@[a].id@ != #[trigger] devices@[b].id@)
            ==> forall|a: int, b: int| 0 <= a < b < r@.len() ==> #[trigger] r@[a].0@ != #[trigger] r@[b].0@,
        forall|k: int| 0 <= k < r@.len() ==> is_target(devices@, *peers, (#[trigger] r@[k]).0@, r@[k].1),
        forall|i: int|
            0 <= i < devices@.len() && (#[trigger] devices@[i]).send_enabled && peers.has(devices@[i].id@)
                ==> exists|k: int| 0 <= k < r@.len() && (#[trigger] r@[k]).0@ == devices@[i].id@,
{
    let mut out: Vec<(String, PeerAddr)> = Vec::new();
    let mut i: usize = 0;
    let ghost mut from: Seq<int> = Seq::empty();
    while i < devices.len()
        invariant
            peers.wf(),
            i <= devices@.len(),
            out@.len() <= i,
            from.len() == out@.len(),
            forall|k: int| 0 <= k < from.len() ==> 0 <= #[trigger] from[k] < i && out@[k].0@ == devices@[from[k]].id@,
            forall|a: int, b: int| 0 <= a < b < from.len() ==> #[trigger] from[a] < #[trigger] from[b],
            forall|k: int| 0 <= k < out@.len() ==> is_target(devices@, *peers, (#[trigger] out@[k]).0@, out@[k].1),
            forall|ii: int|
                0 <= ii < i && (#[trigger] devices@[ii]).send_enabled && peers.has(devices@[ii].id@)
                    ==> exists|k: int| 0 <= k < out@.len() && (#[trigger] out@[k]).0@ == devices@[ii].id@,
        decreases devices@.len() - i,
    {
        let d = &devices[i];
        let ghost before = out@;
        if d.send_enabled {
            match peers.get(d.id.as_str()) {
                Some(p) => {
                    let ghost j = choose|j: int| 0 <= j < peers.seq().len() && peers.seq()[j] == *p;
                    out.push((d.id.clone(), p.addr));
                    proof {
                        from = from.push(i as int);
                        let k = out@.len() - 1;
                        assert(peers.seq()[j].device_id@ == devices@[i as int].id@);
                        assert(peer_at(*peers, out@[k].0@, out@[k].1));
                        assert(devices@[i as int].send_enabled && devices@[i as int].id@ == out@[k].0@);
                        assert forall|kk: int| 0 <= kk < out@.len() implies is_target(devices@, *peers, (#[trigger] out@[kk]).0@, out@[kk].1) by {
                            if kk < k {
                                assert(out@[kk] == before[kk]);
                            }
                        }
                        assert forall|ii: int|
                            0 <= ii < i + 1 && (#[trigger] devices@[ii]).send_enabled && peers.has(devices@[ii].id@)
                                implies exists|kk: int| 0 <= kk < out@.len() && (#[trigger] out@[kk]).0@ == devices@[ii].id@ by {
                            if ii < i {
                                let kk = choose|kk: int| 0 <= kk < before.len() && (#[trigger] before[kk]).0@ == devices@[ii].id@;
                                assert(out@[kk] == before[kk]);
                            } else {
                                assert(out@[k].0@ == devices@[ii].id@);
                            }
                        }
                    }
                },
                None => {},
            }
        }
        i = i + 1;
    }
    proof {
        if forall|a: int, b: int| 0 <= a < b < devices@.len() ==> #[trigger] devices@[a].id@ != #[trigger] devices@[b].id@ {
            assert forall|a: int, b: int| 0 <= a < b < out@.len() implies #[trigger] out@[a].0@ != #[trigger] out@[b].0@ by {
                assert(from[a] < from[b]);
            }
        }
    }
    out
}


/// The text of a received push: its alternative text when present, else the
/// content decoded as UTF-8 when valid, else nothing.
pub open spec fn spec_incoming_text(alt_text: Option<Seq<char>>, content: Seq<u8>) -> Seq<char> {
    match alt_text {
        Some(a) => a,
        None => if valid_utf8(content) {
            decode_utf8(content)
        } else {
            Seq::empty()
        },
    }
}

/// A received push that passed the sender, duplicate-id and blank-text checks.
#[derive(Clone, Debug)]
pub struct IncomingText {
    pub msg_id: String,
    pub text: String,
    pub normalized: String,
    pub hash: String,
    pub is_html: bool,
    pub content: Vec<u8>,
    pub alt_text: Option<String>,
}

/// The first checks on a message from the authenticated device `dev`, at `now`.
/// Only a clipboard push from `dev` itself, with receiving enabled, whose message
/// id was not handled in the last ten minutes goes on; its id is then recorded.
/// Its text (see [`spec_incoming_text`]) is normalised and must not be blank; the
/// result carries the text, its normalised form and its content hash.
pub fn accept_incoming(dev: &DeviceRecord, msg: Message, guard: &mut EchoGuard, now: i64) -> (r: Option<IncomingText>)
    requires
        old(guard).wf(),
    ensures
        final(guard).wf(),
        final(guard).suppress == old(guard).suppress,
        final(guard).recent_local == old(guard).recent_local,
        final(guard).recent_sent == old(guard).recent_sent,
        !(msg is ClipboardPush) ==> r is None && *final(guard) == *old(guard),
        msg matches Message::ClipboardPush { msg_id, sender_id, content_type, content, alt_text, .. } ==> {
            let text = spec_incoming_text(opt_chars(alt_text), content@);
            let norm = normalize_newlines(text);
            let seen = spec_recent_contains(old(guard).processed_msgs.view(), msg_id@, now, PROCESSED_WINDOW_MS);
            if sender_id@ != dev.id@ || !dev.receive_enabled {
                r is None && *final(guard) == *old(guard)
            } else if seen {
                r is None && final(guard).processed_msgs.view() == spec_expire(old(guard).processed_msgs.view(), now)
            } else {
                &&& final(guard).processed_msgs.view() == spec_recent_put(old(guard).processed_msgs.view(), msg_id@, now)
                &&& all_ws(norm) ==> r is None
                &&& !all_ws(norm) ==> (r matches Some(inc) && inc.msg_id@ == msg_id@ && inc.text@ == text
                    && inc.normalized@ == norm && inc.hash@ == spec_content_hash(kind_text(), norm)
                    && inc.is_html == (content_type@ == kind_html()) && inc.content@ == content@
                    && opt_chars(inc.alt_text) == opt_chars(alt_text))
            }
        },
{
    match msg {
        Message::ClipboardPush { msg_id, sender_id, content_type, content, alt_text, .. } => {
            if sender_id != dev.id {
                return None;
            }
            if !dev.receive_enabled {
                return None;
            }
            if guard.processed_msgs.recent_contains(msg_id.as_str(), now, PROCESSED_WINDOW_MS) {
                return None;
            }
            guard.processed_msgs.recent_put(msg_id.as_str(), now);
            let text: String = match &alt_text {
                Some(a) => a.clone(),
                None => match crate::text::utf8_string(crate::bytes::to_vec(content.as_slice())) {
                    Some(t) => t,
                    None => String::new(),
                },
            };
            let normalized = crate::clipboard::normalized_text(text.as_str());
            if crate::text::is_blank(normalized.as_str()) {
                return None;
            }
            let kind = crate::clipboard::text_kind();
            let hash = crate::clipboard::content_hash(kind.as_str(), normalized.as_str());
            let html = crate::clipboard::html_kind();
            let is_html = content_type == html;
            Some(IncomingText { msg_id, text, normalized, hash, is_html, content, alt_text })
        },
        _ => None,
    }
}

/// Whether the same content was sent from here or received in the last 30
/// seconds: in the sent-hash map (expired entries are dropped), the newest stored
/// item with this hash (`stored_last`, its creation time), or the in-memory
/// history.
pub fn receive_seen_recently(
    guard: &mut EchoGuard,
    hash: &str,
    now: i64,
    stored_last: Option<i64>,
    mem: &MemHistory,
) -> (r: bool)
    requires
        old(guard).wf(),
    ensures
        final(guard).wf(),
        final(guard).suppress == old(guard).suppress,
        final(guard).recent_local == old(guard).recent_local,
        final(guard).processed_msgs == old(guard).processed_msgs,
        final(guard).recent_sent.view() == spec_expire(old(guard).recent_sent.view(), now),
        r == (spec_recent_contains(old(guard).recent_sent.view(), hash@, now, RECEIVE_REPEAT_WINDOW_MS)
            || (stored_last matches Some(t) && now - t < RECEIVE_REPEAT_WINDOW_MS) || exists|i: int|
            0 <= i < mem.view().len() && (#[trigger] mem.view()[i]).content_hash@ == hash@ && now
                - mem.view()[i].created_at < RECEIVE_REPEAT_WINDOW_MS),
{
    if guard.recent_sent.recent_contains(hash, now, RECEIVE_REPEAT_WINDOW_MS) {
        return true;
    }
    if let Some(t) = stored_last {
        if (now as i128) - (t as i128) < (RECEIVE_REPEAT_WINDOW_MS as i128) {
            return true;
        }
    }
    mem.seen_within(hash, now, RECEIVE_REPEAT_WINDOW_MS)
}

/// The kind of received content: `"url"` when the normalised text, once leading
/// whitespace is trimmed, starts with `http://` or `https://`; else `"html"` for
/// HTML content; else `"text"`.
pub open spec fn spec_final_type(normalized: Seq<char>, is_html: bool) -> Seq<char> {
    let t = trim_front(normalized, false);
    if (t.len() >= 7 && t.take(7) == "http://"@) || (t.len() >= 8 && t.take(8) == "https://"@) {
        seq!['u', 'r', 'l']
    } else if is_html {
        kind_html()
    } else {
        kind_text()
    }
}

/// Classifies received content (see [`spec_final_type`]).
pub fn final_content_type(normalized: &str, is_html: bool) -> (r: String)
    ensures
        r@ == spec_final_type(normalized@, is_html),
{
    let cs = crate::text::str_chars(normalized);
    let t = crate::text::trim_front_chars(cs.as_slice(), false);
    proof {
        reveal_strlit("url");
        reveal_strlit("http://");
        reveal_strlit("https://");
    }
    if crate::text::starts_with(t.as_slice(), "http://") || crate::text::starts_with(t.as_slice(), "https://") {
        proof {
            assert("url"@ =~= seq!['u', 'r', 'l']);
        }
        String::from_str("url")
    } else if is_html {
        crate::clipboard::html_kind()
    } else {
        crate::clipboard::text_kind()
    }
}

/// A preview of the normalised text: its first 200 characters with line breaks
/// and tabs shown as spaces.
pub open spec fn spec_preview(normalized: Seq<char>) -> Seq<char> {
    let n = if normalized.len() < 200 { normalized.len() } else { 200 };
    Seq::new(
        n as nat,
        |i: int|
            if normalized[i] == '\n' || normalized[i] == '\r' || normalized[i] == '\t' {
                ' '
            } else {
                normalized[i]
            },
    )
}

/// The preview shows the start of the text: it has `min(len, 200)` characters and
/// each is the character at the same place in the text, with a line break or tab
/// shown as a space; text without those is cut to its first 200 characters.
pub proof fn lemma_preview_is_start(normalized: Seq<char>)
    ensures
        spec_preview(normalized).len() == if normalized.len() < 200 {
            normalized.len()
        } else {
            200
        },
        forall|i: int|
            0 <= i < spec_preview(normalized).len() ==> (#[trigger] spec_preview(normalized)[i] == normalized[i]
                || (spec_preview(normalized)[i] == ' ' && (normalized[i] == '\n' || normalized[i] == '\r'
                || normalized[i] == '\t'))),
        (forall|i: int| 0 <= i < normalized.len() ==> #[trigger] normalized[i] != '\n' && normalized[i] != '\r'
            && normalized[i] != '\t') ==> spec_preview(normalized) == normalized.take(
            spec_preview(normalized).len() as int,
        ),
{
    let p = spec_preview(normalized);
    if forall|i: int| 0 <= i < normalized.len() ==> #[trigger] normalized[i] != '\n' && normalized[i] != '\r'
        && normalized[i] != '\t' {
        assert(p =~= normalized.take(p.len() as int));
    }
}

/// Text after the first 200 characters does not change the preview.
pub proof fn lemma_preview_ignores_tail(normalized: Seq<char>, tail: Seq<char>)
    requires
        normalized.len() >= 200,
    ensures
        spec_preview(normalized + tail) == spec_preview(normalized),
{
    assert(spec_preview(normalized + tail) =~= spec_preview(normalized));
}

/// The preview of received text.
pub fn make_preview(normalized: &str) -> (r: String)
    ensures
        r@ == spec_preview(normalized@),
{
    let cs = crate::text::str_chars(normalized);
    let mut out: Vec<char> = Vec::new();
    let mut i: usize = 0;
    while i < cs.len() && i < PREVIEW_CHARS
        invariant
            cs@ == normalized@,
            i <= cs@.len(),
            i <= 200,
            out@ =~= Seq::new(
                i as nat,
                |k: int|
                    if cs@[k] == '\n' || cs@[k] == '\r' || cs@[k] == '\t' {
                        ' '
                    } else {
                        cs@[k]
                    },
            ),
        decreases cs@.len() - i,
    {
        let c = cs[i];
        if c == '\n' || c == '\r' || c == '\t' {
            out.push(' ');
        } else {
            out.push(c);
        }
        i = i + 1;
    }
    assert(out@ =~= spec_preview(normalized@));
    crate::text::chars_to_string(out.as_slice())
}

/// What is stored (encrypted) for received content: its kind, the text, the HTML
/// (decoded leniently) when the content is HTML, and the alternative text.
pub fn incoming_stored_content(inc: &IncomingText) -> (r: StoredContent)
    ensures
        r.content_type@ == spec_final_type(inc.normalized@, inc.is_html),
        r.text matches Some(t) && t@ == inc.text@,
        inc.is_html ==> (r.html matches Some(h) && h@ == spec_utf8_lossy(inc.content@)),
        !inc.is_html ==> r.html is None,
        opt_chars(r.alt_text) == opt_chars(inc.alt_text),
{
    let content_type = final_content_type(inc.normalized.as_str(), inc.is_html);
    let html = if inc.is_html {
        Some(crate::text::utf8_lossy(inc.content.as_slice()))
    } else {
        None
    };
    let alt_text = match &inc.alt_text {
        Some(a) => Some(a.clone()),
        None => None,
    };
    StoredContent { content_type, text: Some(inc.text.clone()), html, alt_text }
}

/// The history item for received content from `dev` at `now`: pending, with
/// `plain` (the serialised stored content) encrypted under `cipher`, its plain
/// size, and an expiry after the retention period.
pub fn incoming_item(
    inc: IncomingText,
    dev: &DeviceRecord,
    cipher: &LocalCipher,
    plain: &[u8],
    now: i64,
    retention_days: i64,
) -> (r: ClipboardItem)
    requires
        plain@.len() <= i64::MAX,
        aead_length_ok(plain@.len()),
        i64::MIN <= spec_expiry(now, retention_days) <= i64::MAX,
    ensures
        r.id@ == inc.msg_id@,
        r.source_device_id@ == dev.id@,
        r.source_device_name@ == dev.name@,
        r.content_type@ == spec_final_type(inc.normalized@, inc.is_html),
        r.preview@ == spec_preview(inc.normalized@),
        r.content_hash@ == inc.hash@,
        spec_decrypt(cipher.key(), r.encrypted_content@) == Some(plain@),
        r.content_size == plain@.len(),
        r.status@ == "pending"@,
        r.created_at == now,
        r.expires_at == Some(spec_expiry(now, retention_days) as i64),
{
    let encrypted = cipher.encrypt(plain);
    let plain_len = plain.len();
    let content_type = final_content_type(inc.normalized.as_str(), inc.is_html);
    let preview = make_preview(inc.normalized.as_str());
    ClipboardItem {
        id: inc.msg_id,
        source_device_id: dev.id.clone(),
        source_device_name: dev.name.clone(),
        content_type,
        preview,
        content_hash: inc.hash,
        encrypted_content: encrypted,
        content_size: plain_len as i64,
        status: String::from_str("pending"),
        created_at: now,
        expires_at: Some(crate::storage::expiry_time(now, retention_days)),
    }
}

} // verus!
