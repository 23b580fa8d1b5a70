//! The encrypted channel: server identity, handshake and frame encryption.
//!
//! The server has a static X25519 key. The client checks the fingerprint of its public part,
//! answers with a fresh public key of its own, and both sides derive the session key from the
//! shared secret. Every frame is encrypted with AES-256-GCM under a counter that only grows.

use vstd::prelude::*;
use vstd::string::{StrSliceExecFns, StringExecFns};

use crate::net::primitives::{
    aead_decrypt, aead_encrypt, diffie_hellman, hkdf_expand, public_key, random_secret,
    sha256_digest,
};
use crate::numeric::push_be;
use crate::text::{push_decimal, push_hex2};

verus! {

/// A secret X25519 key.
#[derive(Clone, Copy)]
pub struct StaticSecret {
    pub bytes: [u8; 32],
}

/// A public X25519 key.
#[derive(Debug, Clone, Copy)]
pub struct PublicKey {
    pub bytes: [u8; 32],
}

/// Why a frame was refused.
#[derive(Debug, Clone, Copy, PartialEq, Eq, Structural)]
pub enum CryptoError {
    /// The frame's counter is not above the last one accepted.
    Replay { ctr: u64, last: u64 },
    /// The frame is not authentic.
    Decrypt,
}

impl CryptoError {
    pub open spec fn text(self) -> Seq<char> {
        match self {
            CryptoError::Replay { ctr, last } => "replay or out-of-order nonce: "@
                + crate::text::decimal(ctr as nat) + " <= "@ + crate::text::decimal(last as nat),
            CryptoError::Decrypt => "AES-GCM decryption failed: Error"@,
        }
    }

    /// The error in words.
    pub fn describe(&self) -> (r: String)
        ensures
            r@ == self.text(),
    {
        let mut s = String::new();
        match self {
            CryptoError::Replay { ctr, last } => {
                s.append("replay or out-of-order nonce: ");
                push_decimal(&mut s, *ctr as u128);
                s.append(" <= ");
                push_decimal(&mut s, *last as u128);
            },
            CryptoError::Decrypt => {
                s.append("AES-GCM decryption failed: Error");
            },
        }
        s
    }
}

/// What a `Crypter` amounts to.
pub struct Channel {
    pub key: Seq<u8>,
    /// Counter of the next frame to send.
    pub send_ctr: u64,
    /// Counter of the last frame accepted.
    pub last_recv: Option<u64>,
}

/// The nonce of a frame: four zero bytes, then the counter in big endian.
pub open spec fn frame_nonce(ctr: u64) -> Seq<u8> {
    seq![0u8, 0u8, 0u8, 0u8] + crate::numeric::be_bytes(ctr as nat, 8)
}

impl Channel {
    /// A channel on which nothing has been sent or received.
    pub open spec fn fresh(key: Seq<u8>) -> Channel {
        Channel { key, send_ctr: 0, last_recv: None }
    }

    /// A frame with this counter is neither a replay nor out of order.
    pub open spec fn accepts(self, ctr: u64) -> bool {
        match self.last_recv {
            Some(last) => last < ctr,
            None => true,
        }
    }

    /// The outcome of receiving a frame.
    pub open spec fn opened(self, ctr: u64, ciphertext: Seq<u8>) -> Result<Seq<u8>, CryptoError> {
        match self.last_recv {
            Some(last) if ctr <= last => Err(CryptoError::Replay { ctr, last }),
            _ => match crate::net::primitives::aes256gcm_open(
                self.key,
                frame_nonce(ctr),
                ciphertext,
            ) {
                Some(plaintext) => Ok(plaintext),
                None => Err(CryptoError::Decrypt),
            },
        }
    }

    /// The channel after receiving a frame: a frame that is refused changes nothing.
    pub open spec fn after_receiving(self, ctr: u64, ciphertext: Seq<u8>) -> Channel {
        if self.opened(ctr, ciphertext) is Ok {
            Channel { last_recv: Some(ctr), ..self }
        } else {
            self
        }
    }
}

/// Session encryption with AES-256-GCM.
///
/// The sender uses each counter once, in increasing order. The receiver takes the counter from
/// the frame and refuses one that is not above the last one accepted.
pub struct Crypter {
    key: [u8; 32],
    send_ctr: u64,
    last_recv: Option<u64>,
}

impl View for Crypter {
    type V = Channel;

    closed spec fn view(&self) -> Channel {
        Channel { key: self.key@, send_ctr: self.send_ctr, last_recv: self.last_recv }
    }
}

/// Builds the nonce of a frame.
fn nonce_bytes(ctr: u64) -> (r: Vec<u8>)
    ensures
        r@ == frame_nonce(ctr),
        r@.len() == 12,
{
    let mut nonce: Vec<u8> = Vec::new();
    nonce.push(0);
    nonce.push(0);
    nonce.push(0);
    nonce.push(0);
    push_be(&mut nonce, ctr, 8);
    proof {
        crate::numeric::lemma_be_bytes_len(ctr as nat, 8);
        assert(nonce@ =~= frame_nonce(ctr));
    }
    nonce
}

impl Crypter {
    pub fn new(key: &[u8; 32]) -> (r: Self)
        ensures
            r@ == Channel::fresh(key@),
    {
        Crypter { key: *key, send_ctr: 0, last_recv: None }
    }

    /// Tests whether a plaintext of this length can be encrypted: there is a counter left, and
    /// AES-GCM takes the length.
    pub fn can_encrypt(&self, len: usize) -> (r: bool)
        ensures
            r == (self@.send_ctr < u64::MAX && crate::net::primitives::sealable(len as nat)),
    {
        self.send_ctr < u64::MAX && len as u64 <= 0x10_0000_0000 && len <= isize::MAX as usize - 16
    }

    /// Encrypts a frame. Returns its counter and its ciphertext with the tag behind it.
    ///
    /// The counter goes up with every frame, so that no nonce is used twice. A receiver with the
    /// same key, at any point at which it accepts the counter, obtains the plaintext.
    pub fn encrypt(&mut self, plaintext: &[u8]) -> (r: (u64, Vec<u8>))
        requires
            old(self)@.send_ctr < u64::MAX,
            crate::net::primitives::sealable(plaintext@.len()),
        ensures
            r.0 == old(self)@.send_ctr,
            final(self)@ == (Channel {
                send_ctr: (old(self)@.send_ctr + 1) as u64,
                ..old(self)@
            }),
            r.1@ == crate::net::primitives::aes256gcm_seal(
                old(self)@.key,
                frame_nonce(r.0),
                plaintext@,
            ),
            r.1@.len() == plaintext@.len() + 16,
            forall|peer: Channel|
                peer.key == old(self)@.key && peer.accepts(r.0) ==> #[trigger] peer.opened(
                    r.0,
                    r.1@,
                ) == Ok::<Seq<u8>, CryptoError>(plaintext@),
    {
        let ctr: u64 = self.send_ctr;
        self.send_ctr = ctr + 1;
        let nonce: Vec<u8> = nonce_bytes(ctr);
        let ciphertext: Vec<u8> = aead_encrypt(&self.key, nonce.as_slice(), plaintext);
        (ctr, ciphertext)
    }

    /// Decrypts a frame with the given counter. The first frame is taken with any counter; after
    /// that the counter has to grow.
    pub fn decrypt(&mut self, ctr: u64, ciphertext: &[u8]) -> (r: Result<Vec<u8>, CryptoError>)
        ensures
            match r {
                Ok(plaintext) => old(self)@.opened(ctr, ciphertext@) == Ok::<
                    Seq<u8>,
                    CryptoError,
                >(plaintext@) && plaintext@.len() + 16 == ciphertext@.len(),
                Err(e) => old(self)@.opened(ctr, ciphertext@) == Err::<Seq<u8>, CryptoError>(e),
            },
            final(self)@ == old(self)@.after_receiving(ctr, ciphertext@),
    {
        if let Some(last) = self.last_recv {
            if ctr <= last {
                return Err(CryptoError::Replay { ctr, last });
            }
        }
        let nonce: Vec<u8> = nonce_bytes(ctr);
        match aead_decrypt(&self.key, nonce.as_slice(), ciphertext) {
            Ok(plaintext) => {
                self.last_recv = Some(ctr);
                Ok(plaintext)
            },
            Err(_) => Err(CryptoError::Decrypt),
        }
    }
}

/// Two frames with different counters have different nonces.
pub proof fn nonces_are_distinct(a: u64, b: u64)
    requires
        frame_nonce(a) == frame_nonce(b),
    ensures
        a == b,
{
    reveal_with_fuel(crate::numeric::byte_range, 9);
    crate::numeric::be_bytes_round_trip(a as nat, 8);
    crate::numeric::be_bytes_round_trip(b as nat, 8);
    assert(frame_nonce(a).skip(4) =~= crate::numeric::be_bytes(a as nat, 8));
    assert(frame_nonce(b).skip(4) =~= crate::numeric::be_bytes(b as nat, 8));
}

/// The receiver's channel before frame `i` of a run of frames, each a counter and a ciphertext.
pub open spec fn channel_before(start: Channel, frames: Seq<(u64, Seq<u8>)>, i: nat) -> Channel
    decreases i,
{
    if i == 0 {
        start
    } else {
        let f = frames[i - 1];
        channel_before(start, frames, (i - 1) as nat).after_receiving(f.0, f.1)
    }
}

/// Frame `i` of the run is accepted.
pub open spec fn frame_accepted(start: Channel, frames: Seq<(u64, Seq<u8>)>, i: nat) -> bool {
    channel_before(start, frames, i).opened(frames[i as int].0, frames[i as int].1) is Ok
}

/// No replay: whatever frames arrive, of two that are accepted the later one has the greater
/// counter. In particular no frame is accepted twice.
pub proof fn accepted_counters_increase(
    start: Channel,
    frames: Seq<(u64, Seq<u8>)>,
    i: nat,
    j: nat,
)
    requires
        i < j < frames.len(),
        frame_accepted(start, frames, i),
        frame_accepted(start, frames, j),
    ensures
        frames[i as int].0 < frames[j as int].0,
{
    lemma_last_counter_stays(start, frames, i, j);
}

proof fn lemma_last_counter_stays(start: Channel, frames: Seq<(u64, Seq<u8>)>, i: nat, j: nat)
    requires
        i < j <= frames.len(),
        frame_accepted(start, frames, i),
    ensures
        channel_before(start, frames, j).last_recv matches Some(last) && frames[i as int].0 <= last,
    decreases j,
{
    if j > i + 1 {
        lemma_last_counter_stays(start, frames, i, (j - 1) as nat);
    }
}

/// Frames that arrive in the order in which they were sent get through: a channel that accepts a
/// counter accepts the next one afterwards, whether the frame was authentic or not.
pub proof fn next_counter_is_accepted(ch: Channel, ctr: u64, ciphertext: Seq<u8>)
    requires
        ch.accepts(ctr),
        ctr < u64::MAX,
    ensures
        ch.after_receiving(ctr, ciphertext).accepts((ctr + 1) as u64),
{
}

/// Everything that is sent arrives: of a run of authentic frames whose counters grow, as a sender's
/// do, each one is opened to its plaintext, whether or not frames between them were lost.
pub proof fn authentic_frames_get_through(
    start: Channel,
    frames: Seq<(u64, Seq<u8>)>,
    plaintexts: Seq<Seq<u8>>,
    i: nat,
)
    requires
        i < frames.len() == plaintexts.len(),
        start.accepts(frames[0].0),
        forall|j: int, k: int| 0 <= j < k < frames.len() ==> frames[j].0 < frames[k].0,
        forall|j: int|
            0 <= j < frames.len() ==> crate::net::primitives::aes256gcm_open(
                start.key,
                frame_nonce((#[trigger] frames[j]).0),
                frames[j].1,
            ) == Some(plaintexts[j]),
    ensures
        channel_before(start, frames, i).opened(frames[i as int].0, frames[i as int].1) == Ok::<
            Seq<u8>,
            CryptoError,
        >(plaintexts[i as int]),
        channel_before(start, frames, i).key == start.key,
    decreases i,
{
    if i > 0 {
        authentic_frames_get_through(start, frames, plaintexts, (i - 1) as nat);
    }
}

/// A refused frame leaves the channel as it was, so that it cannot stop later frames.
pub proof fn refused_frame_changes_nothing(ch: Channel, ctr: u64, ciphertext: Seq<u8>)
    requires
        ch.opened(ctr, ciphertext) is Err,
    ensures
        ch.after_receiving(ctr, ciphertext) == ch,
{
}

/// The bytes of `s` in hexadecimal, separated by colons.
pub open spec fn colon_hex(s: Seq<u8>) -> Seq<char>
    decreases s.len(),
{
    if s.len() == 0 {
        Seq::empty()
    } else if s.len() == 1 {
        crate::text::hex2(s[0])
    } else {
        colon_hex(s.drop_last()).push(':') + crate::text::hex2(s.last())
    }
}

/// The fingerprint of a public key: its SHA-256 digest in upper case hexadecimal, separated by
/// colons.
pub open spec fn fingerprint_of(public: Seq<u8>) -> Seq<char> {
    colon_hex(crate::net::primitives::sha256(public))
}

/// Writes bytes in hexadecimal, separated by colons.
pub fn write_colon_hex(bytes: &[u8]) -> (r: String)
    ensures
        r@ == colon_hex(bytes@),
{
    let mut s = String::new();
    let mut i: usize = 0;
    while i < bytes.len()
        invariant
            i <= bytes@.len(),
            s@ == colon_hex(bytes@.take(i as int)),
        decreases bytes@.len() - i,
    {
        if i > 0 {
            proof {
                reveal_strlit(":");
            }
            s.append(":");
        }
        push_hex2(&mut s, bytes[i]);
        proof {
            assert(bytes@.take(i + 1).drop_last() =~= bytes@.take(i as int));
            assert(s@ =~= colon_hex(bytes@.take(i + 1)));
        }
        i += 1;
    }
    assert(bytes@.take(i as int) =~= bytes@);
    s
}

/// Hexadecimal digits that differ in case at most are the same digit.
proof fn lemma_digits_differ(x: nat, y: nat)
    requires
        x < 16,
        y < 16,
        ascii_lower(crate::text::digit(x)) == ascii_lower(crate::text::digit(y)),
    ensures
        x == y,
{
    reveal_strlit("0123456789ABCDEF");
}

proof fn lemma_colon_hex_len(s: Seq<u8>)
    ensures
        colon_hex(s).len() == (if s.len() == 0 {
            0
        } else {
            3 * s.len() - 1
        }),
    decreases s.len(),
{
    if s.len() > 1 {
        lemma_colon_hex_len(s.drop_last());
    }
}

/// A fingerprint names one digest: two digests whose fingerprints agree, in whatever case they
/// are written, are the same. Pinning a fingerprint therefore pins the digest of the key.
pub proof fn fingerprint_names_one_digest(a: Seq<u8>, b: Seq<u8>)
    requires
        a.len() == b.len(),
        same_ignoring_case(colon_hex(a), colon_hex(b)),
    ensures
        a == b,
    decreases a.len(),
{
    let (ca, cb) = (colon_hex(a), colon_hex(b));
    lemma_colon_hex_len(a);
    lemma_colon_hex_len(b);
    if a.len() == 0 {
        assert(a =~= b);
    } else {
        let n = ca.len();
        let (x, y) = (a.last() as nat, b.last() as nat);
        assert(ca[n - 2] == crate::text::digit(x / 16) && ca[n - 1] == crate::text::digit(x % 16));
        assert(cb[n - 2] == crate::text::digit(y / 16) && cb[n - 1] == crate::text::digit(y % 16));
        assert(ascii_lower(ca[n - 2]) == ascii_lower(cb[n - 2]));
        assert(ascii_lower(ca[n - 1]) == ascii_lower(cb[n - 1]));
        lemma_digits_differ(x / 16, y / 16);
        lemma_digits_differ(x % 16, y % 16);
        assert(a.last() == b.last());
        if a.len() > 1 {
            let (pa, pb) = (colon_hex(a.drop_last()), colon_hex(b.drop_last()));
            lemma_colon_hex_len(a.drop_last());
            lemma_colon_hex_len(b.drop_last());
            assert forall|i: int| 0 <= i < pa.len() implies ascii_lower(#[trigger] pa[i])
                == ascii_lower(pb[i]) by {
                assert(pa[i] == ca[i] && pb[i] == cb[i]);
            }
            fingerprint_names_one_digest(a.drop_last(), b.drop_last());
        }
        assert(a =~= a.drop_last().push(a.last()));
        assert(b =~= b.drop_last().push(b.last()));
    }
}

/// The fingerprint of the server's public key, by which clients recognise it.
pub fn fingerprint(pubkey: &[u8; 32]) -> (r: String)
    ensures
        r@ == fingerprint_of(pubkey@),
        r@.len() == 95,
{
    let digest: [u8; 32] = sha256_digest(pubkey.as_slice());
    proof {
        lemma_colon_hex_len(digest@);
    }
    write_colon_hex(digest.as_slice())
}

/// The public key of the server and its fingerprint.
pub fn public_key_and_fingerprint(key: &StaticSecret) -> (r: (PublicKey, String))
    ensures
        r.0.bytes@ == crate::net::primitives::x25519_public(key.bytes@),
        r.1@ == fingerprint_of(r.0.bytes@),
        r.1@.len() == 95,
{
    let bytes: [u8; 32] = public_key(&key.bytes);
    let fp = fingerprint(&bytes);
    (PublicKey { bytes }, fp)
}

/// The stored server identity does not have 32 bytes.
#[derive(Debug, Clone, Copy, PartialEq, Eq, Structural)]
pub struct CorruptIdentity;

impl CorruptIdentity {
    /// The error in words.
    pub fn describe(&self) -> (r: String)
        ensures
            r@ == "corrupt server identity (expected 32 bytes)"@,
    {
        String::from_str("corrupt server identity (expected 32 bytes)")
    }
}

/// Reads a server identity from its stored form.
pub fn server_key_from_bytes(stored: &[u8]) -> (r: Result<StaticSecret, CorruptIdentity>)
    ensures
        r is Ok <==> stored@.len() == 32,
        r matches Ok(key) ==> key.bytes@ == stored@,
{
    if stored.len() != 32 {
        return Err(CorruptIdentity);
    }
    let mut bytes: [u8; 32] = [0u8; 32];
    let mut i: usize = 0;
    while i < 32
        invariant
            i <= 32,
            stored@.len() == 32,
            forall|k: int| 0 <= k < i ==> bytes@[k] == stored@[k],
        decreases 32 - i,
    {
        bytes[i] = stored[i];
        i += 1;
    }
    assert(bytes@ =~= stored@);
    Ok(StaticSecret { bytes })
}

/// A server identity, and whether it is new and has to be stored.
pub struct ServerKey {
    pub secret: StaticSecret,
    pub is_new: bool,
}

/// The server's identity: the stored one where there is one, else a new one, which the caller
/// stores, so that the fingerprint stays the same from run to run.
///
/// Of a new identity nothing is stated but that it has to be stored: its bytes depend on chance.
pub fn load_or_create_server_key(stored: Option<Vec<u8>>) -> (r: Result<
    ServerKey,
    CorruptIdentity,
>)
    ensures
        match stored {
            Some(bytes) => match r {
                Ok(key) => key.secret.bytes@ == bytes@ && !key.is_new,
                Err(_) => bytes@.len() != 32,
            },
            None => r matches Ok(key) && key.is_new,
        },
{
    match stored {
        Some(bytes) => match server_key_from_bytes(bytes.as_slice()) {
            Ok(secret) => Ok(ServerKey { secret, is_new: false }),
            Err(e) => Err(e),
        },
        None => Ok(ServerKey { secret: StaticSecret { bytes: random_secret() }, is_new: true }),
    }
}

/// `crosslink-v1`, the salt of the key derivation.
pub const SALT: [u8; 12] = [
    0x63, 0x72, 0x6f, 0x73, 0x73, 0x6c, 0x69, 0x6e, 0x6b, 0x2d, 0x76, 0x31,
];

/// `session-key`, the purpose of the derived key.
pub const INFO: [u8; 11] = [0x73, 0x65, 0x73, 0x73, 0x69, 0x6f, 0x6e, 0x2d, 0x6b, 0x65, 0x79];

/// The session key that belongs to a shared secret.
pub open spec fn session_key(shared: Seq<u8>) -> Seq<u8> {
    crate::net::primitives::hkdf_sha256(SALT@, shared, INFO@)
}

/// Derives the session key from a shared secret.
pub fn derive_key(shared: &[u8]) -> (r: [u8; 32])
    ensures
        r@ == session_key(shared@),
{
    let salt: [u8; 12] = SALT;
    let info: [u8; 11] = INFO;
    hkdf_expand(salt.as_slice(), shared, info.as_slice())
}

/// The lower case form of an ASCII letter; every other character stays.
pub open spec fn ascii_lower(c: char) -> u32 {
    if 'A' <= c <= 'Z' {
        (c as u32 + 32) as u32
    } else {
        c as u32
    }
}

/// The two texts are the same but for the case of ASCII letters.
pub open spec fn same_ignoring_case(a: Seq<char>, b: Seq<char>) -> bool {
    &&& a.len() == b.len()
    &&& forall|i: int| 0 <= i < a.len() ==> ascii_lower(#[trigger] a[i]) == ascii_lower(b[i])
}

fn lower(c: char) -> (r: u32)
    ensures
        r == ascii_lower(c),
{
    if 'A' <= c && c <= 'Z' {
        c as u32 + 32
    } else {
        c as u32
    }
}

/// Compares two texts without regard to the case of ASCII letters.
pub fn eq_ignore_ascii_case(a: &str, b: &str) -> (r: bool)
    ensures
        r == same_ignoring_case(a@, b@),
{
    let n: usize = a.unicode_len();
    if b.unicode_len() != n {
        return false;
    }
    let mut i: usize = 0;
    while i < n
        invariant
            i <= n,
            n == a@.len() == b@.len(),
            forall|k: int| 0 <= k < i ==> ascii_lower(#[trigger] a@[k]) == ascii_lower(b@[k]),
        decreases n - i,
    {
        if lower(a.get_char(i)) != lower(b.get_char(i)) {
            assert(ascii_lower(a@[i as int]) != ascii_lower(b@[i as int]));
            return false;
        }
        i += 1;
    }
    true
}

/// The server's fingerprint is not the expected one.
#[derive(Debug, Clone)]
pub struct FingerprintMismatch {
    pub expected: String,
    pub received: String,
}

impl FingerprintMismatch {
    /// The error in words.
    pub fn describe(&self) -> (r: String)
        ensures
            r@ == "server fingerprint mismatch!\n  expected: "@ + self.expected@
                + "\n  received: "@ + self.received@,
    {
        let mut s = String::from_str("server fingerprint mismatch!\n  expected: ");
        s.append(self.expected.as_str());
        s.append("\n  received: ");
        s.append(self.received.as_str());
        s
    }
}

/// A server with this public key is trusted: it has the expected fingerprint, or none is
/// expected and the server is trusted on first use.
pub open spec fn trusted(server_pub: Seq<u8>, expected: Option<&str>) -> bool {
    match expected {
        Some(fp) => same_ignoring_case(fp@, fingerprint_of(server_pub)),
        None => true,
    }
}

/// Checks the server's public key against the expected fingerprint. Returns its fingerprint.
pub fn verify_server(server_pub: &[u8; 32], expected: Option<&str>) -> (r: Result<
    String,
    FingerprintMismatch,
>)
    ensures
        match r {
            Ok(fp) => {
                &&& trusted(server_pub@, expected)
                &&& fp@ == fingerprint_of(server_pub@)
                &&& fp@.len() == 95
            },
            Err(e) => {
                &&& !trusted(server_pub@, expected)
                &&& expected matches Some(fp) && e.expected@ == fp@
                &&& e.received@ == fingerprint_of(server_pub@)
            },
        },
{
    let fp = fingerprint(server_pub);
    if let Some(exp) = expected {
        if !eq_ignore_ascii_case(exp, fp.as_str()) {
            return Err(
                FingerprintMismatch { expected: String::from_str(exp), received: fp },
            );
        }
    }
    Ok(fp)
}

/// The server's part of the handshake, once the client's public key has arrived: the channel and
/// the server's fingerprint. Before that the server has sent its own public key.
///
/// Where the client's public key belongs to a secret `c`, the session key is the one that the
/// client derives from `c` and the server's public key.
pub fn server_handshake(key: &StaticSecret, client_pub: &[u8; 32]) -> (r: (Crypter, String))
    ensures
        r.0@ == Channel::fresh(
            session_key(crate::net::primitives::x25519_shared(key.bytes@, client_pub@)),
        ),
        r.1@ == fingerprint_of(crate::net::primitives::x25519_public(key.bytes@)),
        r.1@.len() == 95,
        forall|c: Seq<u8>|
            #![trigger crate::net::primitives::x25519_public(c)]
            c.len() == 32 && client_pub@ == crate::net::primitives::x25519_public(c) ==> r.0@
                == client_channel(c, crate::net::primitives::x25519_public(key.bytes@)),
{
    let (server_pub, fp) = public_key_and_fingerprint(key);
    let shared: [u8; 32] = diffie_hellman(&key.bytes, client_pub);
    let session: [u8; 32] = derive_key(shared.as_slice());
    (Crypter::new(&session), fp)
}

/// The channel that a client with this secret opens to a server with this public key.
pub open spec fn client_channel(secret: Seq<u8>, server_pub: Seq<u8>) -> Channel {
    Channel::fresh(session_key(crate::net::primitives::x25519_shared(secret, server_pub)))
}

/// The client's part of the handshake.
pub struct ClientHello {
    /// What the client sends to the server.
    pub public: PublicKey,
    pub crypter: Crypter,
    /// The fingerprint of the server.
    pub fingerprint: String,
}

/// The client's answer to a server that it trusts.
fn answer_server(server_pub: &[u8; 32], fingerprint: String, secret: &StaticSecret) -> (r:
    ClientHello)
    ensures
        r.public.bytes@ == crate::net::primitives::x25519_public(secret.bytes@),
        r.crypter@ == client_channel(secret.bytes@, server_pub@),
        r.fingerprint@ == fingerprint@,
{
    let public: [u8; 32] = public_key(&secret.bytes);
    let shared: [u8; 32] = diffie_hellman(&secret.bytes, server_pub);
    let session: [u8; 32] = derive_key(shared.as_slice());
    ClientHello {
        public: PublicKey { bytes: public },
        crypter: Crypter::new(&session),
        fingerprint,
    }
}

/// The client's part of the handshake with a given secret, once the server's public key has
/// arrived.
pub fn client_handshake_with(
    server_pub: &[u8; 32],
    expected: Option<&str>,
    secret: &StaticSecret,
) -> (r: Result<ClientHello, FingerprintMismatch>)
    ensures
        match r {
            Ok(hello) => {
                &&& trusted(server_pub@, expected)
                &&& hello.public.bytes@ == crate::net::primitives::x25519_public(secret.bytes@)
                &&& hello.crypter@ == client_channel(secret.bytes@, server_pub@)
                &&& hello.fingerprint@ == fingerprint_of(server_pub@)
                &&& hello.fingerprint@.len() == 95
            },
            Err(e) => {
                &&& !trusted(server_pub@, expected)
                &&& expected matches Some(fp) && e.expected@ == fp@
                &&& e.received@ == fingerprint_of(server_pub@)
            },
        },
{
    match verify_server(server_pub, expected) {
        Ok(fp) => Ok(answer_server(server_pub, fp, secret)),
        Err(e) => Err(e),
    }
}

/// The client's part of the handshake, once the server's public key has arrived: it checks the
/// server's fingerprint and answers with a fresh key.
pub fn client_handshake(server_pub: &[u8; 32], expected: Option<&str>) -> (r: Result<
    ClientHello,
    FingerprintMismatch,
>)
    ensures
        match r {
            Ok(hello) => {
                &&& trusted(server_pub@, expected)
                &&& hello.fingerprint@ == fingerprint_of(server_pub@)
                &&& hello.fingerprint@.len() == 95
                &&& exists|c: Seq<u8>|
                    #![trigger crate::net::primitives::x25519_public(c)]
                    c.len() == 32 && hello.public.bytes@ == crate::net::primitives::x25519_public(
                        c,
                    ) && hello.crypter@ == client_channel(c, server_pub@)
            },
            Err(e) => {
                &&& !trusted(server_pub@, expected)
                &&& expected matches Some(fp) && e.expected@ == fp@
                &&& e.received@ == fingerprint_of(server_pub@)
            },
        },
{
    match verify_server(server_pub, expected) {
        Ok(fp) => {
            let secret = StaticSecret { bytes: random_secret() };
            Ok(answer_server(server_pub, fp, &secret))
        },
        Err(e) => Err(e),
    }
}

} // verus!
