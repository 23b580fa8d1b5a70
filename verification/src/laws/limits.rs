//! What the arithmetic takes: nothing is refused but what would leave the machine's integers.

use vstd::prelude::*;

use crate::input::capture::seamless;
use crate::input::capture::seamless::Seamless;
use crate::input::capture::windows::{CaptureState, Reading};
use crate::input::inject::macos::MacPointer;
use crate::input::CaptureOptions;
use crate::net::primitives;
use crate::net::transport::Session;
use crate::switch;
use crate::switch::{Edge, Side, Switch};

verus! {

/// `n` is a signed number of 32 bits.
pub open spec fn short(n: int) -> bool {
    -0x8000_0000 <= n < 0x8000_0000
}

/// `n` is a signed number of 64 bits.
pub open spec fn long(n: int) -> bool {
    -0x8000_0000_0000_0000 <= n < 0x8000_0000_0000_0000
}

/// The distance to a seam, the middle of it and a crossing can be computed wherever the far pixel
/// of the screen, and the way to it, are numbers of 32 bits; near edges are no limit.
pub proof fn far_edges_are_the_limit(
    x: int,
    y: int,
    w: int,
    h: int,
    pw: int,
    ph: int,
)
    requires
        w < 0x8000_0000,
        h < 0x8000_0000,
        pw < 0x8000_0000,
        ph < 0x8000_0000,
    ensures
        switch::distance_fits(Edge::Right, x, y, w, h) <==> short(w - 1) && short(w - 1 - x),
        switch::distance_fits(Edge::Bottom, x, y, w, h) <==> short(h - 1) && short(h - 1 - y),
        switch::distance_fits(Edge::Left, x, y, w, h),
        switch::distance_fits(Edge::Top, x, y, w, h),
        switch::last_pixel_fits(Edge::Right, w, h) <==> short(w - 1),
        switch::last_pixel_fits(Edge::Bottom, w, h) <==> short(h - 1),
        switch::last_pixel_fits(Edge::Left, w, h),
        switch::last_pixel_fits(Edge::Top, w, h),
        switch::crossing_fits(Edge::Right, w, h, pw, ph) <==> short(w - 1),
        switch::crossing_fits(Edge::Bottom, w, h, pw, ph) <==> short(h - 1),
        switch::crossing_fits(Edge::Left, w, h, pw, ph) <==> short(pw - 1),
        switch::crossing_fits(Edge::Top, w, h, pw, ph) <==> short(ph - 1),
{
}

/// The owner takes every reading of its cursor whose way to a far seam is a number of 32 bits; at a
/// near seam it takes all, but for a crossing to a screen whose far pixel cannot be written down.
/// In particular it takes every reading on its screen.
pub proof fn readings_are_taken(s: Switch, x: i32, y: i32)
    ensures
        ({
            let (w, h) = (switch::extent(s.my_w), switch::extent(s.my_h));
            let (pw, ph) = (switch::extent(s.peer_w), switch::extent(s.peer_h));
            &&& s.step_fits(x as int, y as int) <==> match s.side {
                Side::Right => short(w - 1) && short(w - 1 - x),
                Side::Bottom => short(h - 1) && short(h - 1 - y),
                Side::Left => !s.armed || x > 4 || short(pw - 1),
                Side::Top => !s.armed || y > 4 || short(ph - 1),
            }
            &&& 0 <= x < w && 0 <= y < h && 0 < pw && 0 < ph ==> s.step_fits(x as int, y as int)
        }),
{
}

/// The logical cursor takes every movement as long as the sum with its place is a number of 64
/// bits, and the screen it is moved on has an extent; one at rest is always taken. A screen of 2^31
/// pixels, whose far edge cannot be written down, is the one that is refused throughout.
pub proof fn movements_are_taken(
    s: Seamless,
    opts: CaptureOptions,
    cursor: (i32, i32),
    raw: (i64, i64),
)
    ensures
        ({
            let dy = seamless::scaled_y(raw.1 as int, opts.win_h as int, opts.mac_h as int);
            let leaves = s.mac_x <= 0 && raw.0 < 0;
            &&& !s.on_mac && raw == (0i64, 0i64) ==> (s.frame_fits(opts, cursor, raw)
                <==> opts.win_w != 0x8000_0000)
            &&& !s.on_mac && raw != (0i64, 0i64) ==> (s.frame_fits(opts, cursor, raw) <==> {
                &&& 1 <= opts.win_w < 0x8000_0000
                &&& 1 <= opts.win_h < 0x8000_0000
                &&& long(cursor.0 + raw.0)
                &&& long(cursor.1 + raw.1)
            })
            &&& s.on_mac && leaves ==> (s.frame_fits(opts, cursor, raw) <==> opts.win_w
                != 0x8000_0000)
            &&& s.on_mac && raw == (0i64, 0i64) ==> s.frame_fits(opts, cursor, raw)
            &&& s.on_mac && !leaves && raw != (0i64, 0i64) ==> (s.frame_fits(opts, cursor, raw)
                <==> long(s.mac_x + raw.0) && long(s.mac_y + dy))
        }),
{
}

/// Outside seamless mode a round is taken where the way of the cursor since it was last seen is a
/// number of 32 bits in each coordinate, if it was seen at all; in seamless mode where the logical
/// cursor takes the movement.
pub proof fn rounds_are_taken(s: CaptureState, poll: Reading)
    ensures
        s.last_pos is None || poll.cursor is None ==> s.move_fits(poll.cursor),
        s.last_pos matches Some(from) ==> (poll.cursor matches Some(to) ==> (s.move_fits(poll.cursor)
            <==> short(to.0 - from.0) && short(to.1 - from.1))),
        !s.opts.m4_mode ==> s.round_fits(poll) == s.move_fits(poll.cursor),
        s.opts.m4_mode ==> s.round_fits(poll) == s.seamless.frame_fits(
            s.opts,
            match poll.cursor {
                Some(p) => p,
                None => (0i32, 0i32),
            },
            poll.moved(),
        ),
{
}

/// Every message of up to 2 GiB less 17 bytes can be sealed, whatever the machine.
pub proof fn messages_can_be_sealed(len: nat)
    ensures
        len <= 0x7fff_ffef ==> primitives::sealable(len),
        len > 0x10_0000_0000 ==> !primitives::sealable(len),
{
}

/// A pointer may be wherever a cursor can be placed, and far beyond.
pub proof fn pointers_may_be_anywhere(p: MacPointer)
    ensures
        long(p.x as int) && long(p.y as int) ==> p.well_formed(),
{
}

/// A session without edge switching is always well formed; one with it is so where it injects
/// nothing and only the owner of the pointer is armed.
pub proof fn sessions_without_switching_are_well_formed(s: Session)
    ensures
        s.switch is None ==> s.well_formed(),
        s.switch matches Some(sw) ==> (s.well_formed() <==> !s.inject && (sw.armed ==> sw.owning)),
{
}

} // verus!
