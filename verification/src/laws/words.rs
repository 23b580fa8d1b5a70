//! What is said: errors in words, and the names of platforms.

use vstd::prelude::*;

use crate::input;
use crate::input::inject::InjectError;
use crate::input::TargetOs;
use crate::net::crypto::CryptoError;
use crate::net::transport::FrameError;
use crate::text;

verus! {

/// A replayed frame is named by its counter, then the last one accepted, both in decimal.
pub proof fn replays_name_both_counters(ctr: u64, last: u64)
    ensures
        ({
            let said = CryptoError::Replay { ctr, last }.text();
            let head = "replay or out-of-order nonce: "@;
            let first = text::decimal(ctr as nat);
            let second = text::decimal(last as nat);
            &&& said.len() == head.len() + first.len() + 4 + second.len()
            &&& said.take(head.len() as int) == head
            &&& said.skip(head.len() as int).take(first.len() as int) == first
            &&& said.skip((head.len() + first.len()) as int).take(4) == " <= "@
            &&& said.skip((head.len() + first.len() + 4) as int) == second
        }),
        CryptoError::Decrypt.text() == "AES-GCM decryption failed: Error"@,
{
    reveal_strlit(" <= ");
    let said = CryptoError::Replay { ctr, last }.text();
    let head = "replay or out-of-order nonce: "@;
    let first = text::decimal(ctr as nat);
    let second = text::decimal(last as nat);
    assert(said.take(head.len() as int) =~= head);
    assert(said.skip(head.len() as int).take(first.len() as int) =~= first);
    assert(said.skip((head.len() + first.len()) as int).take(4) =~= " <= "@);
    assert(said.skip((head.len() + first.len() + 4) as int) =~= second);
}

/// A short frame is named by the length it announces, and an error of the channel speaks for
/// itself.
pub proof fn short_frames_name_their_length(len: usize, e: CryptoError)
    ensures
        ({
            let said = FrameError::TooSmall { len }.text();
            let head = "frame too small: "@;
            said.take(head.len() as int) == head && said.skip(head.len() as int) == text::decimal(
                len as nat,
            )
        }),
        FrameError::Crypto(e).text() == e.text(),
{
    let said = FrameError::TooSmall { len }.text();
    let head = "frame too small: "@;
    assert(said.take(head.len() as int) =~= head);
    assert(said.skip(head.len() as int) =~= text::decimal(len as nat));
}

/// A key that cannot be injected is named by the four digits of its usage id.
pub proof fn unknown_keys_are_named(hid: u16)
    ensures
        ({
            let said = InjectError::UnknownKey { hid }.text();
            let head = "inject: unknown HID key 0x"@;
            said.take(head.len() as int) == head && said.skip(head.len() as int) == text::hex4(hid)
        }),
{
    let said = InjectError::UnknownKey { hid }.text();
    let head = "inject: unknown HID key 0x"@;
    assert(said.take(head.len() as int) =~= head);
    assert(said.skip(head.len() as int) =~= text::hex4(hid));
}

/// Each platform has its name, and no two have the same.
pub proof fn platforms_are_told_apart(a: TargetOs, b: TargetOs)
    ensures
        input::platform_name(a) == input::platform_name(b) <==> a == b,
        a is Windows ==> input::platform_name(a) == "windows"@,
        a is MacOs ==> input::platform_name(a) == "macos"@,
        a is Linux ==> input::platform_name(a) == "linux"@,
        a is Other ==> input::platform_name(a) == "unknown"@,
{
    reveal_strlit("windows");
    reveal_strlit("macos");
    reveal_strlit("linux");
    reveal_strlit("unknown");
    assert("windows"@[0] == 'w' && "macos"@[0] == 'm' && "linux"@[0] == 'l' && "unknown"@[0] == 'u');
}

} // verus!
