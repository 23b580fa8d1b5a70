//! Edge switching: the pointer roams between two machines.
//!
//! At any time the pointer belongs to one machine, the owner, which is used with its own keyboard
//! and mouse. When the owner's cursor reaches the edge shared with the peer, the seam, the
//! pointer is handed over: the peer puts its cursor on the matching place of its own seam and
//! becomes the owner. Nothing but small `Transfer` messages travels between the machines.

use vstd::prelude::*;

use crate::binary64::{nearest_int, nearest_quotient};
use crate::net::protocol::Transfer;
use crate::numeric::wrap_i32;

verus! {

/// Where the peer sits relative to this machine.
#[derive(Debug, Clone, Copy, PartialEq, Eq, Structural)]
pub enum Side {
    Right,
    Left,
    Top,
    Bottom,
}

/// An edge of the screen.
#[derive(Debug, Clone, Copy, PartialEq, Eq, Structural)]
pub enum Edge {
    Right,
    Left,
    Top,
    Bottom,
}

impl Side {
    /// The edge that faces the peer.
    pub open spec fn facing(self) -> Edge {
        match self {
            Side::Right => Edge::Right,
            Side::Left => Edge::Left,
            Side::Top => Edge::Top,
            Side::Bottom => Edge::Bottom,
        }
    }

    /// The edge through which the pointer leaves this machine.
    pub fn seam(self) -> (r: Edge)
        ensures
            r == self.facing(),
    {
        match self {
            Side::Right => Edge::Right,
            Side::Left => Edge::Left,
            Side::Top => Edge::Top,
            Side::Bottom => Edge::Bottom,
        }
    }
}

/// A cursor this near to the seam, in pixels, has arrived there.
pub const EDGE: i32 = 4;

/// A cursor farther than this from the seam may cross it again.
pub const REARM: i32 = 12;

/// Pause between two readings of the cursor.
pub const POLL_MS: u64 = 5;

/// Pause while the size of a screen is not known.
pub const IDLE_MS: u64 = 50;

/// A screen dimension as coordinates see it.
pub open spec fn extent(n: u32) -> int {
    crate::numeric::wrap_signed(n as int, 0x1_0000_0000)
}

pub open spec fn max0(n: int) -> int {
    if n < 0 {
        0
    } else {
        n
    }
}

/// The coordinate `v` of a screen `from` wide, scaled to a screen `to` wide.
///
/// The ratio `v * to / from` is formed in binary64, rounded to the nearest whole number, halves
/// upwards, and kept on the target screen. A negative coordinate lands on 0, and so does every
/// coordinate where a screen has no extent.
pub open spec fn scaled(v: int, from: int, to: int) -> int {
    if from <= 0 || to <= 0 || v <= 0 {
        0
    } else {
        let (num, den) = crate::binary64::nearest_quotient_spec(
            crate::binary64::nearest_int_spec((v * to) as nat),
            from as nat,
        );
        let r = (2 * num + den) / (2 * den);
        if r < to {
            r as int
        } else {
            to - 1
        }
    }
}

/// Scales the coordinate `v`, in `[0, from)`, to `[0, to)` in proportion to the two resolutions.
pub fn map(v: i32, from: i32, to: i32) -> (r: i32)
    ensures
        r == scaled(v as int, from as int, to as int),
        0 <= r,
        0 < to ==> r < to,
{
    if from <= 0 || to <= 0 || v <= 0 {
        return 0;
    }
    proof {
        assert(0 < v * to <= 0x7fff_ffff * 0x7fff_ffff) by (nonlinear_arith)
            requires
                0 < v <= 0x7fff_ffff,
                0 < to <= 0x7fff_ffff,
        ;
    }
    let product: u128 = nearest_int(v as u128 * to as u128);
    let q = nearest_quotient(product, from as u128);
    let r: u128 = (2 * q.num + q.den) / (2 * q.den);
    if r < to as u128 {
        r as i32
    } else {
        to - 1
    }
}

/// Distance from the cursor to the seam, in pixels; 0 at the seam and beyond it.
pub open spec fn seam_distance(seam: Edge, x: int, y: int, w: int, h: int) -> int {
    match seam {
        Edge::Right => max0(w - 1 - x),
        Edge::Left => max0(x),
        Edge::Top => max0(y),
        Edge::Bottom => max0(h - 1 - y),
    }
}

/// The subtractions of `dist_to_seam` stay within 32 bits.
pub open spec fn distance_fits(seam: Edge, x: int, y: int, w: int, h: int) -> bool {
    match seam {
        Edge::Right => i32::MIN <= w - 1 && i32::MIN <= w - 1 - x <= i32::MAX,
        Edge::Bottom => i32::MIN <= h - 1 && i32::MIN <= h - 1 - y <= i32::MAX,
        _ => true,
    }
}

/// Distance from the cursor `(x, y)` to the seam of a screen of `mw` by `mh` pixels.
pub fn dist_to_seam(seam: Edge, x: i32, y: i32, mw: u32, mh: u32) -> (r: i32)
    requires
        distance_fits(seam, x as int, y as int, extent(mw), extent(mh)),
    ensures
        r == seam_distance(seam, x as int, y as int, extent(mw), extent(mh)),
{
    let w: i32 = wrap_i32(mw);
    let h: i32 = wrap_i32(mh);
    let d: i32 = match seam {
        Edge::Right => w - 1 - x,
        Edge::Left => x,
        Edge::Top => y,
        Edge::Bottom => h - 1 - y,
    };
    if d < 0 {
        0
    } else {
        d
    }
}

/// `n / 2`, rounded towards zero.
pub open spec fn halved(n: int) -> int {
    if n >= 0 {
        n / 2
    } else {
        -((-n) / 2)
    }
}

/// The middle of the edge that faces the peer.
pub open spec fn seam_middle(side: Side, w: int, h: int) -> (int, int) {
    match side.facing() {
        Edge::Right => (w - 1, halved(h)),
        Edge::Left => (0, halved(h)),
        Edge::Top => (halved(w), 0),
        Edge::Bottom => (halved(w), h - 1),
    }
}

/// The last pixel of a `w` by `h` screen on the given edge can be written down.
pub open spec fn last_pixel_fits(edge: Edge, w: int, h: int) -> bool {
    match edge {
        Edge::Right => i32::MIN <= w - 1,
        Edge::Bottom => i32::MIN <= h - 1,
        _ => true,
    }
}

fn half(n: i32) -> (r: i32)
    ensures
        r == halved(n as int),
{
    if n >= 0 {
        n / 2
    } else {
        (-((-(n as i64)) / 2)) as i32
    }
}

/// Tests whether the middle of the seam of a screen of `mw` by `mh` pixels can be computed.
pub fn can_park(side: Side, mw: u32, mh: u32) -> (r: bool)
    ensures
        r == last_pixel_fits(side.facing(), extent(mw), extent(mh)),
{
    match side.seam() {
        Edge::Right => wrap_i32(mw) > i32::MIN,
        Edge::Bottom => wrap_i32(mh) > i32::MIN,
        _ => true,
    }
}

/// Where a machine that does not own the pointer parks its cursor: the middle of its seam.
pub fn seam_park_pos(side: Side, mw: u32, mh: u32) -> (r: (i32, i32))
    requires
        last_pixel_fits(side.facing(), extent(mw), extent(mh)),
    ensures
        (r.0 as int, r.1 as int) == seam_middle(side, extent(mw), extent(mh)),
{
    let w: i32 = wrap_i32(mw);
    let h: i32 = wrap_i32(mh);
    match side.seam() {
        Edge::Right => (w - 1, half(h)),
        Edge::Left => (0, half(h)),
        Edge::Top => (half(w), 0),
        Edge::Bottom => (half(w), h - 1),
    }
}

/// A crossing of the seam: where the cursor is held on this side, and where the peer's cursor
/// enters. The peer is entered at its opposite edge; the other coordinate is scaled.
pub open spec fn crossing(seam: Edge, x: int, y: int, w: int, h: int, pw: int, ph: int) -> (
    int,
    int,
    int,
    int,
) {
    match seam {
        Edge::Right => (w - 1, y, 0, scaled(y, h, ph)),
        Edge::Left => (0, y, max0(pw - 1), scaled(y, h, ph)),
        Edge::Top => (x, 0, scaled(x, w, pw), max0(ph - 1)),
        Edge::Bottom => (x, h - 1, scaled(x, w, pw), 0),
    }
}

/// The edge on the other side of the screen.
pub open spec fn opposite(edge: Edge) -> Edge {
    match edge {
        Edge::Right => Edge::Left,
        Edge::Left => Edge::Right,
        Edge::Top => Edge::Bottom,
        Edge::Bottom => Edge::Top,
    }
}

/// The subtractions of `compute_transfer` stay within 32 bits.
pub open spec fn crossing_fits(seam: Edge, w: int, h: int, pw: int, ph: int) -> bool {
    last_pixel_fits(seam, w, h) && last_pixel_fits(opposite(seam), pw, ph)
}

/// Computes a crossing from a screen of `mw` by `mh` pixels to one of `pw` by `ph` pixels:
/// the place of this cursor, then the entry point on the peer's screen.
pub fn compute_transfer(seam: Edge, x: i32, y: i32, mw: u32, mh: u32, pw: u32, ph: u32) -> (r:
    Option<(i32, i32, u32, u32)>)
    requires
        crossing_fits(seam, extent(mw), extent(mh), extent(pw), extent(ph)),
    ensures
        r matches Some(t) && (t.0 as int, t.1 as int, t.2 as int, t.3 as int) == crossing(
            seam,
            x as int,
            y as int,
            extent(mw),
            extent(mh),
            extent(pw),
            extent(ph),
        ),
{
    let w: i32 = wrap_i32(mw);
    let h: i32 = wrap_i32(mh);
    let peer_w: i32 = wrap_i32(pw);
    let peer_h: i32 = wrap_i32(ph);
    let (clamp_x, clamp_y, ex, ey): (i32, i32, i32, i32) = match seam {
        Edge::Right => (w - 1, y, 0, map(y, h, peer_h)),
        Edge::Left => (0, y, peer_w - 1, map(y, h, peer_h)),
        Edge::Top => (x, 0, map(x, w, peer_w), peer_h - 1),
        Edge::Bottom => (x, h - 1, map(x, w, peer_w), 0),
    };
    let entry_x: u32 = if ex < 0 { 0 } else { ex as u32 };
    let entry_y: u32 = if ey < 0 { 0 } else { ey as u32 };
    Some((clamp_x, clamp_y, entry_x, entry_y))
}

/// The controller of one machine.
#[derive(Debug, Clone, Copy, PartialEq, Eq, Structural)]
pub struct Switch {
    /// This machine owns the pointer.
    pub owning: bool,
    /// The cursor has been away from the seam and may cross it.
    pub armed: bool,
    pub side: Side,
    pub my_w: u32,
    pub my_h: u32,
    /// Size of the peer's screen, 0 until the peer has told it.
    pub peer_w: u32,
    pub peer_h: u32,
    /// Last known place of the cursor on this machine.
    pub cursor_x: i32,
    pub cursor_y: i32,
}

/// What the monitor does next.
#[derive(Debug, Clone, Copy, PartialEq, Eq, Structural)]
pub enum MonitorPoll {
    /// Nothing to watch: sleep this long and ask again.
    Sleep { ms: u64 },
    /// Read the cursor and call `monitor_step`, then sleep `POLL_MS`.
    ReadCursor,
}

/// The pointer leaves this machine.
#[derive(Debug, Clone, Copy, PartialEq, Eq, Structural)]
pub struct Handover {
    /// Where this machine holds its cursor.
    pub clamp_x: i32,
    pub clamp_y: i32,
    /// What the peer is sent.
    pub transfer: Transfer,
}

impl Switch {
    /// Only the owner can be armed.
    pub open spec fn well_formed(self) -> bool {
        self.armed ==> self.owning
    }

    /// The sizes of both screens are known.
    pub open spec fn geometry_known(self) -> bool {
        self.my_w != 0 && self.my_h != 0 && self.peer_w != 0 && self.peer_h != 0
    }

    /// A machine with the given screen whose peer sits at `side`. One that does not own the
    /// pointer has its cursor parked in the middle of the seam.
    pub open spec fn initial(side: Side, initial_owner: bool, my_w: u32, my_h: u32) -> Switch {
        let park = if initial_owner {
            (0int, 0int)
        } else {
            seam_middle(side, extent(my_w), extent(my_h))
        };
        Switch {
            owning: initial_owner,
            armed: initial_owner,
            side,
            my_w,
            my_h,
            peer_w: 0,
            peer_h: 0,
            cursor_x: park.0 as i32,
            cursor_y: park.1 as i32,
        }
    }

    /// A machine whose peer sits at `side`. The server starts as the owner, the client does not.
    pub fn new(side: Side, initial_owner: bool, my_w: u32, my_h: u32) -> (r: Self)
        requires
            !initial_owner ==> last_pixel_fits(side.facing(), extent(my_w), extent(my_h)),
        ensures
            r == Switch::initial(side, initial_owner, my_w, my_h),
            r.well_formed(),
    {
        let (cursor_x, cursor_y): (i32, i32) = if initial_owner {
            (0, 0)
        } else {
            seam_park_pos(side, my_w, my_h)
        };
        Switch {
            owning: initial_owner,
            armed: initial_owner,
            side,
            my_w,
            my_h,
            peer_w: 0,
            peer_h: 0,
            cursor_x,
            cursor_y,
        }
    }

    /// Where the cursor is parked, on a machine that does not own the pointer.
    pub open spec fn parking(self) -> Option<(i32, i32)> {
        if self.owning {
            None
        } else {
            Some((self.cursor_x, self.cursor_y))
        }
    }

    /// Where the cursor has to be put at the start: on the seam, if the peer owns the pointer.
    pub fn park(&self) -> (r: Option<(i32, i32)>)
        ensures
            r == (if self.owning {
                None
            } else {
                Some((self.cursor_x, self.cursor_y))
            }),
            r == self.parking(),
    {
        if self.owning {
            None
        } else {
            Some((self.cursor_x, self.cursor_y))
        }
    }

    /// This machine after the pointer entered at the given point.
    pub open spec fn received(self, entry_x: u32, entry_y: u32) -> Switch {
        Switch {
            owning: true,
            armed: false,
            cursor_x: extent(entry_x) as i32,
            cursor_y: extent(entry_y) as i32,
            ..self
        }
    }

    /// The peer hands the pointer over. Returns where the cursor has to be put. The crossing is
    /// not armed: the cursor, now at the seam, has to move away from it first.
    pub fn on_receive(&mut self, entry_x: u32, entry_y: u32) -> (r: (i32, i32))
        ensures
            *final(self) == old(self).received(entry_x, entry_y),
            r == (final(self).cursor_x, final(self).cursor_y),
            r.0 == extent(entry_x),
            r.1 == extent(entry_y),
            final(self).well_formed(),
    {
        let x: i32 = wrap_i32(entry_x);
        let y: i32 = wrap_i32(entry_y);
        self.cursor_x = x;
        self.cursor_y = y;
        self.owning = true;
        self.armed = false;
        (x, y)
    }

    /// Notes the size of the peer's screen.
    pub fn set_peer_geom(&mut self, w: u32, h: u32)
        ensures
            *final(self) == (Switch { peer_w: w, peer_h: h, ..*old(self) }),
            old(self).well_formed() ==> final(self).well_formed(),
    {
        self.peer_w = w;
        self.peer_h = h;
    }

    /// What the monitor has to do next: a machine that does not own the pointer waits, one that
    /// does not know both screens waits longer, and the owner watches its cursor.
    pub fn monitor_poll(&self) -> (r: MonitorPoll)
        ensures
            r == self.next_poll(),
    {
        if !self.owning {
            MonitorPoll::Sleep { ms: POLL_MS }
        } else if self.my_w == 0 || self.my_h == 0 || self.peer_w == 0 || self.peer_h == 0 {
            MonitorPoll::Sleep { ms: IDLE_MS }
        } else {
            MonitorPoll::ReadCursor
        }
    }

    pub open spec fn next_poll(self) -> MonitorPoll {
        if !self.owning {
            MonitorPoll::Sleep { ms: POLL_MS }
        } else if !self.geometry_known() {
            MonitorPoll::Sleep { ms: IDLE_MS }
        } else {
            MonitorPoll::ReadCursor
        }
    }

    /// Distance from `(x, y)` to this machine's seam.
    pub open spec fn distance(self, x: int, y: int) -> int {
        seam_distance(self.side.facing(), x, y, extent(self.my_w), extent(self.my_h))
    }

    /// The arithmetic of `monitor_step` stays within 32 bits: that of the distance, and where the
    /// pointer crosses that of the crossing.
    pub open spec fn step_fits(self, x: int, y: int) -> bool {
        let (w, h) = (extent(self.my_w), extent(self.my_h));
        let seam = self.side.facing();
        &&& distance_fits(seam, x, y, w, h)
        &&& self.armed && self.distance(x, y) <= EDGE ==> crossing_fits(
            seam,
            w,
            h,
            extent(self.peer_w),
            extent(self.peer_h),
        )
    }

    /// The crossing of the seam at `(x, y)`.
    pub open spec fn handover(self, x: int, y: int) -> Handover {
        let (cx, cy, ex, ey) = crossing(
            self.side.facing(),
            x,
            y,
            extent(self.my_w),
            extent(self.my_h),
            extent(self.peer_w),
            extent(self.peer_h),
        );
        Handover {
            clamp_x: cx as i32,
            clamp_y: cy as i32,
            transfer: Transfer { entry_x: ex as u32, entry_y: ey as u32 },
        }
    }

    /// The owner after its cursor was seen at `(x, y)`, and the handover, if there is one.
    ///
    /// A crossing that is not armed becomes so once the cursor is farther than `REARM` from the
    /// seam. One that is armed happens as soon as the cursor is within `EDGE` of it.
    pub open spec fn stepped(self, x: i32, y: i32) -> (Switch, Option<Handover>) {
        let seen = Switch { cursor_x: x, cursor_y: y, ..self };
        let d = self.distance(x as int, y as int);
        if !self.armed {
            (Switch { armed: d > REARM, ..seen }, None)
        } else if d <= EDGE {
            (
                Switch { owning: false, armed: false, ..seen },
                Some(self.handover(x as int, y as int)),
            )
        } else {
            (seen, None)
        }
    }

    /// Tests whether `monitor_step` may be called for a cursor at `(x, y)`.
    pub fn can_step(&self, x: i32, y: i32) -> (r: bool)
        ensures
            r == self.step_fits(x as int, y as int),
    {
        let w: i64 = wrap_i32(self.my_w) as i64;
        let h: i64 = wrap_i32(self.my_h) as i64;
        let pw: i64 = wrap_i32(self.peer_w) as i64;
        let ph: i64 = wrap_i32(self.peer_h) as i64;
        let low: i64 = i32::MIN as i64;
        let high: i64 = i32::MAX as i64;
        match self.side.seam() {
            Edge::Right => low <= w - 1 && low <= w - 1 - x as i64 && w - 1 - x as i64 <= high,
            Edge::Left => !self.armed || x > EDGE || low <= pw - 1,
            Edge::Top => !self.armed || y > EDGE || low <= ph - 1,
            Edge::Bottom => low <= h - 1 && low <= h - 1 - y as i64 && h - 1 - y as i64 <= high,
        }
    }

    /// One reading of the owner's cursor. Returns what to do when the pointer leaves.
    pub fn monitor_step(&mut self, x: i32, y: i32) -> (r: Option<Handover>)
        requires
            old(self).next_poll() == MonitorPoll::ReadCursor,
            old(self).step_fits(x as int, y as int),
        ensures
            (*final(self), r) == old(self).stepped(x, y),
            final(self).well_formed(),
    {
        self.cursor_x = x;
        self.cursor_y = y;
        let seam = self.side.seam();
        let dist: i32 = dist_to_seam(seam, x, y, self.my_w, self.my_h);
        if !self.armed {
            if dist > REARM {
                self.armed = true;
            }
            None
        } else if dist <= EDGE {
            match compute_transfer(
                seam,
                x,
                y,
                self.my_w,
                self.my_h,
                self.peer_w,
                self.peer_h,
            ) {
                Some((clamp_x, clamp_y, entry_x, entry_y)) => {
                    self.owning = false;
                    self.armed = false;
                    Some(Handover { clamp_x, clamp_y, transfer: Transfer { entry_x, entry_y } })
                },
                None => None,
            }
        } else {
            None
        }
    }
}

/// Scaling is proportional: as long as the product of coordinate and target size stays below
/// 2^52, the result is the whole number nearest to the exact ratio, halves upwards, kept on the
/// target screen.
pub proof fn scaling_is_proportional(v: int, from: int, to: int)
    requires
        0 <= v,
        0 < from,
        0 < to,
        v * to < 0x10_0000_0000_0000,
    ensures
        scaled(v, from, to) == ({
            let exact = (2 * (v * to) + from) / (2 * from);
            if exact < to {
                exact
            } else {
                to - 1
            }
        }),
{
    if v == 0 {
        assert(v * to == 0) by (nonlinear_arith)
            requires
                v == 0,
        ;
        assert(from / (2 * from) == 0) by (nonlinear_arith)
            requires
                0 < from,
        ;
    } else {
        assert(0 < v * to) by (nonlinear_arith)
            requires
                0 < v,
                0 < to,
        ;
        crate::binary64::small_integers_are_exact((v * to) as nat);
        crate::binary64::quotient_rounds_like_exact((v * to) as nat, from as nat);
    }
}

/// The pointer does not drift: a coordinate that is scaled to a screen of the same or a greater
/// size and back comes out as it was. The sizes are such that their product stays below 2^52.
pub proof fn there_and_back_is_exact(v: int, from: int, to: int)
    requires
        0 <= v < from <= to,
        from * to < 0x10_0000_0000_0000,
    ensures
        scaled(scaled(v, from, to), to, from) == v,
{
    assert(0 <= v * to < 0x10_0000_0000_0000) by (nonlinear_arith)
        requires
            0 <= v < from <= to,
            from * to < 0x10_0000_0000_0000,
    ;
    scaling_is_proportional(v, from, to);
    let u = (2 * (v * to) + from) / (2 * from);
    let r = (2 * (v * to) + from) % (2 * from);
    vstd::arithmetic::div_mod::lemma_fundamental_div_mod(2 * (v * to) + from, 2 * from);
    assert(u < to) by (nonlinear_arith)
        requires
            2 * (v * to) + from == (2 * from) * u + r,
            0 <= r,
            0 <= v <= from - 1,
            from <= to,
            0 < from,
    ;
    assert(0 <= u) by (nonlinear_arith)
        requires
            2 * (v * to) + from == (2 * from) * u + r,
            r < 2 * from,
            0 <= v * to,
            0 < from,
    ;
    assert(scaled(v, from, to) == u);
    assert(0 <= u * from < 0x10_0000_0000_0000) by (nonlinear_arith)
        requires
            0 <= u < to,
            0 < from,
            from * to < 0x10_0000_0000_0000,
    ;
    scaling_is_proportional(u, to, from);
    if from == to {
        assert(u == v) by (nonlinear_arith)
            requires
                2 * (v * from) + from == (2 * from) * u + r,
                0 <= r < 2 * from,
                0 < from,
        ;
    }
    let x = 2 * (u * from) + to;
    assert(v * (2 * to) <= x < v * (2 * to) + 2 * to) by (nonlinear_arith)
        requires
            x == 2 * (u * from) + to,
            2 * (v * to) + from == (2 * from) * u + r,
            0 <= r < 2 * from,
            0 < from <= to,
            from == to ==> u == v,
    {
        assert(v * (2 * to) == 2 * (v * to));
        assert((2 * from) * u == 2 * (u * from));
    }
    vstd::arithmetic::div_mod::lemma_fundamental_div_mod_converse(
        x,
        2 * to,
        v,
        x - v * (2 * to),
    );
}

/// The entry point lies on the peer's screen, on the edge opposite to the seam: the peer, which
/// sees this machine on its other side, finds its cursor at distance 0 from its own seam.
pub proof fn entry_is_on_the_peer_seam(
    seam: Edge,
    x: int,
    y: int,
    w: int,
    h: int,
    pw: int,
    ph: int,
)
    requires
        0 < pw,
        0 < ph,
    ensures
        ({
            let (cx, cy, ex, ey) = crossing(seam, x, y, w, h, pw, ph);
            &&& 0 <= ex < pw
            &&& 0 <= ey < ph
            &&& seam_distance(opposite(seam), ex, ey, pw, ph) == 0
        }),
{
    lemma_scaled_range(x, w, pw);
    lemma_scaled_range(y, h, ph);
}

proof fn lemma_scaled_range(v: int, from: int, to: int)
    requires
        0 < to,
    ensures
        0 <= scaled(v, from, to) < to,
{
    if 0 < from && 0 < v {
        let a = crate::binary64::nearest_int_spec((v * to) as nat);
        let (num, den) = crate::binary64::nearest_quotient_spec(a, from as nat);
        crate::binary64::lemma_scales_positive(a, from as nat);
        assert(0 <= (2 * num + den) / (2 * den)) by (nonlinear_arith)
            requires
                0 < den,
        ;
    }
}

/// The cursor of the machine that hands the pointer over is held on its own seam.
pub proof fn leaving_cursor_is_on_the_seam(
    seam: Edge,
    x: int,
    y: int,
    w: int,
    h: int,
    pw: int,
    ph: int,
)
    ensures
        ({
            let (cx, cy, ex, ey) = crossing(seam, x, y, w, h, pw, ph);
            seam_distance(seam, cx, cy, w, h) == 0
        }),
{
}

/// The owner after a run of cursor readings, as far as it stays the owner.
pub open spec fn after_readings(s: Switch, readings: Seq<(i32, i32)>) -> (Switch, Option<Handover>)
    decreases readings.len(),
{
    if readings.len() == 0 {
        (s, None)
    } else {
        let (before, left) = after_readings(s, readings.drop_last());
        if left is Some {
            (before, left)
        } else {
            before.stepped(readings.last().0, readings.last().1)
        }
    }
}

/// No rebound: a machine that has just received the pointer does not hand it back, however often
/// its cursor is seen, until the cursor has been seen farther than `REARM` from the seam.
pub proof fn pointer_does_not_rebound(
    s: Switch,
    entry_x: u32,
    entry_y: u32,
    readings: Seq<(i32, i32)>,
)
    requires
        forall|i: int|
            #![trigger readings[i]]
            0 <= i < readings.len() ==> s.distance(readings[i].0 as int, readings[i].1 as int)
                <= REARM,
    ensures
        ({
            let (end, left) = after_readings(s.received(entry_x, entry_y), readings);
            left is None && end.owning && !end.armed
        }),
    decreases readings.len(),
{
    lemma_stays_unarmed(s.received(entry_x, entry_y), readings);
}

proof fn lemma_stays_unarmed(s: Switch, readings: Seq<(i32, i32)>)
    requires
        s.owning,
        !s.armed,
        forall|i: int|
            #![trigger readings[i]]
            0 <= i < readings.len() ==> s.distance(readings[i].0 as int, readings[i].1 as int)
                <= REARM,
    ensures
        ({
            let (end, left) = after_readings(s, readings);
            &&& left is None
            &&& end.owning
            &&& !end.armed
            &&& end.side == s.side
            &&& end.my_w == s.my_w
            &&& end.my_h == s.my_h
        }),
    decreases readings.len(),
{
    if readings.len() > 0 {
        let init = readings.drop_last();
        assert forall|i: int| #![trigger init[i]] 0 <= i < init.len() implies s.distance(
            init[i].0 as int,
            init[i].1 as int,
        ) <= REARM by {
            assert(init[i] == readings[i]);
        }
        lemma_stays_unarmed(s, init);
        assert(readings.last() == readings[readings.len() - 1]);
    }
}

/// A machine that does not know a screen never watches its cursor, so that it keeps the pointer.
pub proof fn unknown_geometry_keeps_the_pointer(s: Switch)
    requires
        !s.geometry_known(),
    ensures
        s.next_poll() != MonitorPoll::ReadCursor,
{
}

/// What can happen to one machine.
pub enum Happening {
    /// The monitor comes round; the cursor is at `(x, y)`.
    Read { x: i32, y: i32 },
    /// The peer hands the pointer over.
    Arrive { entry_x: u32, entry_y: u32 },
    /// The machine learns the size of its peer's screen.
    Geometry { w: u32, h: u32 },
}

impl Switch {
    /// The machine after something happened, and what it sent. The monitor reads the cursor only
    /// where it is to.
    pub open spec fn happened(self, e: Happening) -> (Switch, Option<Transfer>) {
        match e {
            Happening::Read { x, y } => if self.next_poll() == MonitorPoll::ReadCursor {
                let (next, left) = self.stepped(x, y);
                match left {
                    Some(h) => (next, Some(h.transfer)),
                    None => (next, None),
                }
            } else {
                (self, None)
            },
            Happening::Arrive { entry_x, entry_y } => (self.received(entry_x, entry_y), None),
            Happening::Geometry { w, h } => (Switch { peer_w: w, peer_h: h, ..self }, None),
        }
    }

    /// The machine after the first `n` entries of a history.
    pub open spec fn after(self, history: Seq<Happening>, n: nat) -> Switch
        decreases n,
    {
        if n == 0 {
            self
        } else {
            self.after(history, (n - 1) as nat).happened(history[n - 1]).0
        }
    }

    /// Entry `i` of a history makes the machine send a transfer.
    pub open spec fn sends(self, history: Seq<Happening>, i: int) -> bool {
        &&& 0 <= i < history.len()
        &&& self.after(history, i as nat).happened(history[i]).1 is Some
    }

    /// At entry `i` of a history the cursor is read, farther than `REARM` from the seam.
    pub open spec fn seen_away(self, history: Seq<Happening>, i: int) -> bool {
        &&& 0 <= i < history.len()
        &&& self.after(history, i as nat).next_poll() == MonitorPoll::ReadCursor
        &&& history[i] matches Happening::Read { x, y }
        &&& self.distance(x as int, y as int) > REARM
    }
}

/// Entry `i` of a history hands the pointer to the machine.
pub open spec fn arrives(history: Seq<Happening>, i: int) -> bool {
    0 <= i < history.len() && history[i] is Arrive
}

/// The side and the screen of a machine stay as they are.
proof fn lemma_layout_stays(s: Switch, history: Seq<Happening>, n: nat)
    ensures
        s.after(history, n).side == s.side,
        s.after(history, n).my_w == s.my_w,
        s.after(history, n).my_h == s.my_h,
    decreases n,
{
    if n > 0 {
        lemma_layout_stays(s, history, (n - 1) as nat);
    }
}

/// A machine without the pointer stays so as long as none arrives.
proof fn lemma_stays_without(s: Switch, history: Seq<Happening>, from: nat, to: nat)
    requires
        from <= to <= history.len(),
        !s.after(history, from).owning,
        forall|k: int| from <= k < to ==> !arrives(history, k),
    ensures
        !s.after(history, to).owning,
    decreases to,
{
    if from < to {
        lemma_stays_without(s, history, from, (to - 1) as nat);
        assert(!arrives(history, to - 1));
    }
}

/// A crossing that is not armed stays so as long as the cursor is not seen away from the seam.
proof fn lemma_stays_disarmed(s: Switch, history: Seq<Happening>, from: nat, to: nat)
    requires
        from <= to <= history.len(),
        !s.after(history, from).armed,
        forall|k: int| from <= k < to ==> !s.seen_away(history, k),
    ensures
        !s.after(history, to).armed,
    decreases to,
{
    if from < to {
        lemma_stays_disarmed(s, history, from, (to - 1) as nat);
        lemma_layout_stays(s, history, (to - 1) as nat);
        assert(!s.seen_away(history, to - 1));
    }
}

/// Between two transfers that a machine sends, the pointer arrives there, whatever its history.
pub proof fn transfers_alternate_with_arrivals(s: Switch, history: Seq<Happening>, i: int, j: int)
    requires
        i < j,
        s.sends(history, i),
        s.sends(history, j),
    ensures
        exists|k: int| i < k < j && arrives(history, k),
{
    if forall|k: int| i < k < j ==> !arrives(history, k) {
        lemma_stays_without(s, history, (i + 1) as nat, j as nat);
    }
}

/// A machine that does not start as the owner sends no transfer before the pointer has arrived.
pub proof fn first_transfer_needs_an_arrival(s: Switch, history: Seq<Happening>, j: int)
    requires
        !s.owning,
        s.sends(history, j),
    ensures
        exists|k: int| 0 <= k < j && arrives(history, k),
{
    if forall|k: int| 0 <= k < j ==> !arrives(history, k) {
        lemma_stays_without(s, history, 0, j as nat);
    }
}

/// Once the pointer has arrived, no transfer is sent until the cursor has been read farther than
/// `REARM` from the seam. A reading at exactly that distance is not enough.
pub proof fn crossing_back_needs_distance(s: Switch, history: Seq<Happening>, i: int, j: int)
    requires
        i < j,
        arrives(history, i),
        s.sends(history, j),
    ensures
        exists|k: int| i < k < j && s.seen_away(history, k),
{
    if forall|k: int| i < k < j ==> !s.seen_away(history, k) {
        lemma_stays_disarmed(s, history, (i + 1) as nat, j as nat);
    }
}

/// Two machines and the transfers on their way between them.
pub struct Link {
    pub a: Switch,
    pub b: Switch,
    pub to_a: Seq<Transfer>,
    pub to_b: Seq<Transfer>,
}

/// What can happen on a link.
pub enum LinkEvent {
    /// Machine a reads its cursor.
    ReadA { x: i32, y: i32 },
    /// Machine b reads its cursor.
    ReadB { x: i32, y: i32 },
    /// The next transfer reaches machine a.
    ArriveA,
    /// The next transfer reaches machine b.
    ArriveB,
    /// Machine a learns the size of its peer's screen.
    GeometryA { w: u32, h: u32 },
    /// Machine b learns the size of its peer's screen.
    GeometryB { w: u32, h: u32 },
}

impl Link {
    /// A server and a client that have just met.
    pub open spec fn start(
        server_side: Side,
        server_w: u32,
        server_h: u32,
        client_side: Side,
        client_w: u32,
        client_h: u32,
    ) -> Link {
        Link {
            a: Switch::initial(server_side, true, server_w, server_h),
            b: Switch::initial(client_side, false, client_w, client_h),
            to_a: Seq::empty(),
            to_b: Seq::empty(),
        }
    }

    /// The number of pointers: those owned and those on their way.
    pub open spec fn pointers(self) -> nat {
        (if self.a.owning {
            1nat
        } else {
            0
        }) + (if self.b.owning {
            1nat
        } else {
            0
        }) + self.to_a.len() + self.to_b.len()
    }

    /// The link after an event. An event that cannot happen changes nothing.
    pub open spec fn next(self, e: LinkEvent) -> Link {
        match e {
            LinkEvent::ReadA { x, y } => if self.a.next_poll() == MonitorPoll::ReadCursor {
                let (a, left) = self.a.stepped(x, y);
                match left {
                    Some(h) => Link { a, to_b: self.to_b.push(h.transfer), ..self },
                    None => Link { a, ..self },
                }
            } else {
                self
            },
            LinkEvent::ReadB { x, y } => if self.b.next_poll() == MonitorPoll::ReadCursor {
                let (b, left) = self.b.stepped(x, y);
                match left {
                    Some(h) => Link { b, to_a: self.to_a.push(h.transfer), ..self },
                    None => Link { b, ..self },
                }
            } else {
                self
            },
            LinkEvent::ArriveA => if self.to_a.len() > 0 {
                let t = self.to_a.first();
                Link {
                    a: self.a.received(t.entry_x, t.entry_y),
                    to_a: self.to_a.drop_first(),
                    ..self
                }
            } else {
                self
            },
            LinkEvent::ArriveB => if self.to_b.len() > 0 {
                let t = self.to_b.first();
                Link {
                    b: self.b.received(t.entry_x, t.entry_y),
                    to_b: self.to_b.drop_first(),
                    ..self
                }
            } else {
                self
            },
            LinkEvent::GeometryA { w, h } => Link {
                a: Switch { peer_w: w, peer_h: h, ..self.a },
                ..self
            },
            LinkEvent::GeometryB { w, h } => Link {
                b: Switch { peer_w: w, peer_h: h, ..self.b },
                ..self
            },
        }
    }

    /// The link after a run of events.
    pub open spec fn after(self, events: Seq<LinkEvent>) -> Link
        decreases events.len(),
    {
        if events.len() == 0 {
            self
        } else {
            self.after(events.drop_last()).next(events.last())
        }
    }
}

/// There is one pointer: from the moment a server and a client meet, whatever happens between
/// them, exactly one of these holds: the server owns it, the client owns it, or it is on its way.
pub proof fn there_is_one_pointer(
    server_side: Side,
    server_w: u32,
    server_h: u32,
    client_side: Side,
    client_w: u32,
    client_h: u32,
    events: Seq<LinkEvent>,
)
    ensures
        ({
            let end = Link::start(
                server_side,
                server_w,
                server_h,
                client_side,
                client_w,
                client_h,
            ).after(events);
            end.pointers() == 1 && !(end.a.owning && end.b.owning)
        }),
    decreases events.len(),
{
    if events.len() > 0 {
        there_is_one_pointer(
            server_side,
            server_w,
            server_h,
            client_side,
            client_w,
            client_h,
            events.drop_last(),
        );
    }
}

} // verus!
