//! Frames, replay protection, fingerprints and trust.

use vstd::prelude::*;

use crate::net::crypto;
use crate::net::crypto::{Channel, CryptoError};
use crate::net::primitives;
use crate::net::transport;
use crate::net::transport::FrameError;
use crate::numeric;

verus! {

/// Byte `i` of `n`, written in `len` bytes with the most significant first.
pub open spec fn byte_at(n: int, len: int, i: int) -> int {
    (n / vstd::arithmetic::power::pow(256, (len - 1 - i) as nat)) % 256
}

/// Numbers are written with the most significant byte first, and read that way.
pub proof fn numbers_are_big_endian(n: nat, len: nat, i: int)
    requires
        0 <= i < len,
    ensures
        numeric::be_bytes(n, len).len() == len,
        numeric::be_bytes(n, len)[i] == byte_at(n as int, len as int, i),
    decreases len,
{
    numeric::lemma_be_bytes_len(n, len);
    let m = (len - 1) as nat;
    numeric::lemma_be_bytes_len(n / 256, m);
    if i == m {
        vstd::arithmetic::power::lemma_pow0(256);
        assert(n as int / 1 == n);
    } else {
        numbers_are_big_endian(n / 256, m, i);
        let k = (m - 1 - i) as nat;
        vstd::arithmetic::power::lemma_pow_positive(256, k);
        let p = vstd::arithmetic::power::pow(256, k);
        vstd::arithmetic::div_mod::lemma_div_denominator(n as int, 256, p);
        assert(vstd::arithmetic::power::pow(256, k + 1) == 256 * p) by {
            reveal(vstd::arithmetic::power::pow);
        }
    }
}

/// Reading a further byte multiplies what was read by 256 and adds the byte.
pub proof fn numbers_are_read_big_endian(s: Seq<u8>, b: u8)
    ensures
        numeric::be_value(Seq::<u8>::empty()) == 0,
        numeric::be_value(s.push(b)) == 256 * numeric::be_value(s) + b,
{
    assert(s.push(b).drop_last() =~= s);
}

/// A frame is its length in four bytes, its counter in eight, and its ciphertext; the length counts
/// what follows it.
pub proof fn frames_are_laid_out(ctr: u64, ciphertext: Seq<u8>, i: int)
    ensures
        ({
            let f = transport::frame(ctr, ciphertext);
            &&& f.len() == 12 + ciphertext.len()
            &&& 0 <= i < 4 ==> f[i] == byte_at((8 + ciphertext.len()) as int, 4, i)
            &&& 0 <= i < 8 ==> f[4 + i] == byte_at(ctr as int, 8, i)
            &&& 0 <= i < 8 ==> transport::frame_body(ctr, ciphertext)[i] == byte_at(
                ctr as int,
                8,
                i,
            )
            &&& 0 <= i < ciphertext.len() ==> f[12 + i] == ciphertext[i]
            &&& f.skip(4) == transport::frame_body(ctr, ciphertext)
        }),
{
    let n = (8 + ciphertext.len()) as nat;
    numeric::lemma_be_bytes_len(n, 4);
    numeric::lemma_be_bytes_len(ctr as nat, 8);
    let f = transport::frame(ctr, ciphertext);
    assert(f.skip(4) =~= transport::frame_body(ctr, ciphertext));
    if 0 <= i < 4 {
        numbers_are_big_endian(n, 4, i);
    }
    if 0 <= i < 8 {
        numbers_are_big_endian(ctr as nat, 8, i);
    }
}

/// The nonce of a frame has twelve bytes: four zeros and the counter.
pub proof fn nonces_hold_the_counter(ctr: u64, i: int)
    ensures
        crypto::frame_nonce(ctr).len() == 12,
        0 <= i < 4 ==> crypto::frame_nonce(ctr)[i] == 0,
        0 <= i < 8 ==> crypto::frame_nonce(ctr)[4 + i] == byte_at(ctr as int, 8, i),
{
    numeric::lemma_be_bytes_len(ctr as nat, 8);
    if 0 <= i < 8 {
        numbers_are_big_endian(ctr as nat, 8, i);
    }
}

/// A channel takes every counter at first, and then those above the last it accepted. A counter
/// that it takes and an authentic ciphertext give the plaintext, and the counter is remembered;
/// everything else is refused for its reason and changes nothing.
pub proof fn channels_accept_authentic_growing_frames(ch: Channel, ctr: u64, ciphertext: Seq<u8>)
    ensures
        ({
            let fresh = match ch.last_recv {
                Some(last) => ctr > last,
                None => true,
            };
            let plain = primitives::aes256gcm_open(ch.key, crypto::frame_nonce(ctr), ciphertext);
            let after = ch.after_receiving(ctr, ciphertext);
            &&& ch.accepts(ctr) == fresh
            &&& fresh && plain is Some ==> ch.opened(ctr, ciphertext) == Ok::<Seq<u8>, CryptoError>(
                plain->0,
            ) && after.last_recv == Some(ctr)
            &&& fresh && plain is None ==> ch.opened(ctr, ciphertext) == Err::<
                Seq<u8>,
                CryptoError,
            >(CryptoError::Decrypt) && after == ch
            &&& !fresh ==> ch.opened(ctr, ciphertext) == Err::<Seq<u8>, CryptoError>(
                CryptoError::Replay { ctr, last: ch.last_recv->0 },
            ) && after == ch
            &&& after.key == ch.key && after.send_ctr == ch.send_ctr
        }),
{
}

/// A new channel has sent nothing and received nothing.
pub proof fn channels_start_at_zero(key: Seq<u8>)
    ensures
        Channel::fresh(key).key == key,
        Channel::fresh(key).send_ctr == 0,
        Channel::fresh(key).last_recv is None,
{
}

/// What is received of a frame's body is what the channel makes of its counter and its ciphertext.
/// A body that is too short for a counter is refused, with its length.
pub proof fn bodies_are_opened_by_their_counter(ch: Channel, ctr: u64, ciphertext: Seq<u8>)
    ensures
        ({
            let body = transport::frame_body(ctr, ciphertext);
            &&& transport::after_body(ch, body) == ch.after_receiving(ctr, ciphertext)
            &&& match ch.opened(ctr, ciphertext) {
                Ok(plaintext) => transport::received(ch, body) == Ok::<Seq<u8>, FrameError>(
                    plaintext,
                ),
                Err(e) => transport::received(ch, body) == Err::<Seq<u8>, FrameError>(
                    FrameError::Crypto(e),
                ),
            }
        }),
        forall|short: Seq<u8>|
            short.len() < 8 ==> #[trigger] transport::received(ch, short) == Err::<
                Seq<u8>,
                FrameError,
            >(FrameError::TooSmall { len: short.len() as usize }) && transport::after_body(ch, short)
                == ch,
{
    reveal_with_fuel(numeric::byte_range, 9);
    numeric::be_bytes_round_trip(ctr as nat, 8);
    let body = transport::frame_body(ctr, ciphertext);
    assert(body.take(8) =~= numeric::be_bytes(ctr as nat, 8));
    assert(body.skip(8) =~= ciphertext);
}

/// What a channel sends, any channel with its key that takes the counter makes of the frame what
/// AES-GCM makes of the ciphertext: the frame carries the next counter, and the ciphertext is
/// sealed under the key and the nonce of that counter.
pub proof fn sent_frames_carry_the_next_counter(ch: Channel, plaintext: Seq<u8>)
    ensures
        transport::sent_frame(ch, plaintext).skip(4) == transport::frame_body(
            ch.send_ctr,
            primitives::aes256gcm_seal(ch.key, crypto::frame_nonce(ch.send_ctr), plaintext),
        ),
{
    frames_are_laid_out(
        ch.send_ctr,
        primitives::aes256gcm_seal(ch.key, crypto::frame_nonce(ch.send_ctr), plaintext),
        0,
    );
}

/// A hexadecimal digit in upper case.
pub open spec fn is_digit(c: char, value: int) -> bool {
    &&& 0 <= value < 10 ==> c as int == '0' as int + value
    &&& 10 <= value < 16 ==> c as int == 'A' as int + value - 10
}

/// A fingerprint has two upper case digits for each byte, in order, with colons between them.
pub proof fn fingerprints_list_the_bytes(s: Seq<u8>, i: int)
    requires
        0 <= i < s.len(),
    ensures
        crypto::colon_hex(s).len() == 3 * s.len() - 1,
        is_digit(crypto::colon_hex(s)[3 * i], s[i] as int / 16),
        is_digit(crypto::colon_hex(s)[3 * i + 1], s[i] as int % 16),
        i + 1 < s.len() ==> crypto::colon_hex(s)[3 * i + 2] == ':',
    decreases s.len(),
{
    reveal_strlit("0123456789ABCDEF");
    if s.len() > 1 {
        let init = s.drop_last();
        fingerprints_list_the_bytes(
            init,
            if i < init.len() {
                i
            } else {
                0
            },
        );
    }
}

/// The fingerprint of a key is that of its SHA-256 digest.
pub proof fn fingerprints_are_of_the_digest(public: Seq<u8>)
    ensures
        crypto::fingerprint_of(public) == crypto::colon_hex(primitives::sha256(public)),
{
}

/// The two characters are the same letter, in whatever case, or the same character.
pub open spec fn same_letter(a: char, b: char) -> bool {
    ||| a == b
    ||| 'A' <= a <= 'Z' && b as int == a as int + 32
    ||| 'A' <= b <= 'Z' && a as int == b as int + 32
}

proof fn lemma_same_letter(x: char, y: char)
    ensures
        crypto::ascii_lower(x) == crypto::ascii_lower(y) <==> same_letter(x, y),
{
    assert(x as u32 as int == x as int);
    assert(y as u32 as int == y as int);
}

/// Texts are the same without regard to case where they are as long as one another and have the
/// same letters throughout.
pub proof fn case_is_all_that_is_ignored(a: Seq<char>, b: Seq<char>)
    ensures
        crypto::same_ignoring_case(a, b) <==> a.len() == b.len() && forall|i: int|
            0 <= i < a.len() ==> same_letter(#[trigger] a[i], b[i]),
{
    if crypto::same_ignoring_case(a, b) {
        assert forall|i: int| 0 <= i < a.len() implies same_letter(#[trigger] a[i], b[i]) by {
            assert(crypto::ascii_lower(a[i]) == crypto::ascii_lower(b[i]));
            lemma_same_letter(a[i], b[i]);
        }
    }
    if a.len() == b.len() && forall|i: int| 0 <= i < a.len() ==> same_letter(#[trigger] a[i], b[i]) {
        assert forall|i: int| 0 <= i < a.len() implies crypto::ascii_lower(#[trigger] a[i])
            == crypto::ascii_lower(b[i]) by {
            assert(same_letter(a[i], b[i]));
            lemma_same_letter(a[i], b[i]);
        }
    }
}

/// Without an expected fingerprint every server is trusted. With one, exactly those whose
/// fingerprint it is, without regard to case.
pub proof fn trust_is_by_fingerprint(server_pub: Seq<u8>, expected: &str)
    ensures
        crypto::trusted(server_pub, None),
        crypto::trusted(server_pub, Some(expected)) <==> {
            let fp = crypto::fingerprint_of(server_pub);
            expected@.len() == fp.len() && forall|i: int|
                0 <= i < fp.len() ==> same_letter(#[trigger] expected@[i], fp[i])
        },
{
    case_is_all_that_is_ignored(expected@, crypto::fingerprint_of(server_pub));
}

/// A fingerprint of one key makes another trusted exactly if their digests are the same.
pub proof fn pinning_tells_digests_apart(p: Seq<u8>, q: Seq<u8>, expected: &str)
    requires
        primitives::sha256(p).len() == primitives::sha256(q).len(),
        expected@ == crypto::fingerprint_of(q),
    ensures
        crypto::trusted(p, Some(expected)) <==> primitives::sha256(p) == primitives::sha256(q),
{
    if crypto::trusted(p, Some(expected)) {
        crypto::fingerprint_names_one_digest(primitives::sha256(q), primitives::sha256(p));
    }
}

/// The session key is derived from the shared secret with the salt `crosslink-v1` for the purpose
/// `session-key`, and the client's channel starts with the key of the secret it shares.
pub proof fn session_keys_have_their_salt_and_purpose(shared: Seq<u8>, secret: Seq<u8>, public: Seq<u8>)
    ensures
        crypto::session_key(shared) == primitives::hkdf_sha256(
            ascii("crosslink-v1"@),
            shared,
            ascii("session-key"@),
        ),
        crypto::client_channel(secret, public) == Channel::fresh(
            crypto::session_key(primitives::x25519_shared(secret, public)),
        ),
{
    reveal_strlit("crosslink-v1");
    reveal_strlit("session-key");
    assert(crypto::SALT@ =~= ascii("crosslink-v1"@));
    assert(crypto::INFO@ =~= ascii("session-key"@));
}

/// The bytes of an ASCII text.
pub open spec fn ascii(text: Seq<char>) -> Seq<u8> {
    text.map_values(|c: char| c as u8)
}

} // verus!
