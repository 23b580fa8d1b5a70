//! Edge switching.

use vstd::prelude::*;

use crate::binary64;
use crate::switch;
use crate::switch::{Edge, MonitorPoll, Side, Switch};

verus! {

/// `e` is the whole number nearest to `v * to / from`, halves upwards, kept in `0..to`.
pub open spec fn nearest_on_screen(e: int, v: int, from: int, to: int) -> bool {
    &&& 0 <= e < to
    &&& v <= 0 ==> e == 0
    &&& v > 0 ==> {
        &&& 2 * (e * from) <= 2 * (v * to) + from
        &&& 2 * (v * to) + from < 2 * (e * from) + 2 * from || e == to - 1
    }
}

proof fn lemma_scaled_is_nearest(v: int, from: int, to: int)
    requires
        0 < from,
        0 < to,
        v * to < 0x10_0000_0000_0000,
    ensures
        nearest_on_screen(switch::scaled(v, from, to), v, from, to),
{
    if v > 0 {
        switch::scaling_is_proportional(v, from, to);
        let n = 2 * (v * to) + from;
        let exact = n / (2 * from);
        let e = switch::scaled(v, from, to);
        vstd::arithmetic::div_mod::lemma_fundamental_div_mod(n, 2 * from);
        assert(0 <= v * to) by (nonlinear_arith)
            requires
                0 < v,
                0 < to,
        ;
        assert(0 <= exact) by (nonlinear_arith)
            requires
                exact == n / (2 * from),
                0 <= n,
                0 < from,
        ;
        assert((2 * from) * exact == 2 * (exact * from)) by (nonlinear_arith);
        assert(e * from <= exact * from) by (nonlinear_arith)
            requires
                e <= exact,
                0 < from,
        ;
    }
}

/// A crossing lands at the proportionally matching place of the peer's edge: the coordinate along
/// the shared edge is the nearest whole number to its share of the peer's screen. The other
/// coordinate is that of the edge, on both sides, and the cursor left behind keeps its place along
/// it.
pub proof fn crossing_lands_at_the_matching_place(
    seam: Edge,
    x: int,
    y: int,
    w: int,
    h: int,
    pw: int,
    ph: int,
)
    requires
        0 < w,
        0 < h,
        0 < pw,
        0 < ph,
        x * pw < 0x10_0000_0000_0000,
        y * ph < 0x10_0000_0000_0000,
    ensures
        ({
            let (cx, cy, ex, ey) = switch::crossing(seam, x, y, w, h, pw, ph);
            match seam {
                Edge::Right => cx == w - 1 && cy == y && ex == 0 && nearest_on_screen(
                    ey,
                    y,
                    h,
                    ph,
                ),
                Edge::Left => cx == 0 && cy == y && ex == pw - 1 && nearest_on_screen(
                    ey,
                    y,
                    h,
                    ph,
                ),
                Edge::Top => cx == x && cy == 0 && ey == ph - 1 && nearest_on_screen(ex, x, w, pw),
                Edge::Bottom => cx == x && cy == h - 1 && ey == 0 && nearest_on_screen(
                    ex,
                    x,
                    w,
                    pw,
                ),
            }
        }),
{
    lemma_scaled_is_nearest(x, w, pw);
    lemma_scaled_is_nearest(y, h, ph);
}

/// Crossing to a peer whose screen is at least as large, and back through the same seam where the
/// pointer entered, returns to the coordinate of departure.
pub proof fn crossing_back_returns(
    seam: Edge,
    x: int,
    y: int,
    w: int,
    h: int,
    pw: int,
    ph: int,
)
    requires
        0 <= x < w <= pw,
        0 <= y < h <= ph,
        w * pw < 0x10_0000_0000_0000,
        h * ph < 0x10_0000_0000_0000,
    ensures
        ({
            let (_, _, ex, ey) = switch::crossing(seam, x, y, w, h, pw, ph);
            match seam {
                Edge::Right => {
                    let back = switch::crossing(Edge::Left, ex, ey, pw, ph, w, h);
                    back.2 == w - 1 && back.3 == y
                },
                Edge::Left => {
                    let back = switch::crossing(Edge::Right, ex, ey, pw, ph, w, h);
                    back.2 == 0 && back.3 == y
                },
                Edge::Top => {
                    let back = switch::crossing(Edge::Bottom, ex, ey, pw, ph, w, h);
                    back.2 == x && back.3 == 0
                },
                Edge::Bottom => {
                    let back = switch::crossing(Edge::Top, ex, ey, pw, ph, w, h);
                    back.2 == x && back.3 == h - 1
                },
            }
        }),
{
    switch::there_and_back_is_exact(x, w, pw);
    switch::there_and_back_is_exact(y, h, ph);
}

/// A pointer that leaves farther along the edge does not enter nearer to its start.
pub proof fn crossings_keep_their_order(
    seam: Edge,
    a: int,
    b: int,
    w: int,
    h: int,
    pw: int,
    ph: int,
)
    requires
        0 <= a <= b,
        0 < w,
        0 < h,
        0 < pw,
        0 < ph,
        b * pw < 0x10_0000_0000_0000,
        b * ph < 0x10_0000_0000_0000,
    ensures
        switch::crossing(seam, a, a, w, h, pw, ph).2 <= switch::crossing(seam, b, b, w, h, pw, ph).2,
        switch::crossing(seam, a, a, w, h, pw, ph).3 <= switch::crossing(seam, b, b, w, h, pw, ph).3,
{
    lemma_scaled_keeps_order(a, b, w, pw);
    lemma_scaled_keeps_order(a, b, h, ph);
}

proof fn lemma_scaled_keeps_order(a: int, b: int, from: int, to: int)
    requires
        0 <= a <= b,
        0 < from,
        0 < to,
        b * to < 0x10_0000_0000_0000,
    ensures
        switch::scaled(a, from, to) <= switch::scaled(b, from, to),
{
    assert(a * to <= b * to) by (nonlinear_arith)
        requires
            a <= b,
            0 < to,
    ;
    switch::scaling_is_proportional(a, from, to);
    switch::scaling_is_proportional(b, from, to);
    vstd::arithmetic::div_mod::lemma_div_is_ordered(
        2 * (a * to) + from,
        2 * (b * to) + from,
        2 * from,
    );
}

/// The distance to the seam is the number of pixels between the cursor and that edge of the
/// screen, and 0 beyond it.
pub proof fn distance_counts_pixels(seam: Edge, x: int, y: int, w: int, h: int)
    ensures
        ({
            let gap = match seam {
                Edge::Right => w - 1 - x,
                Edge::Left => x,
                Edge::Top => y,
                Edge::Bottom => h - 1 - y,
            };
            let d = switch::seam_distance(seam, x, y, w, h);
            (gap >= 0 ==> d == gap) && (gap <= 0 ==> d == 0)
        }),
{
}

/// A client parks its cursor on the seam, in the middle of that edge.
pub proof fn parking_is_in_the_middle_of_the_seam(side: Side, w: int, h: int)
    requires
        0 < w,
        0 < h,
    ensures
        ({
            let (x, y) = switch::seam_middle(side, w, h);
            match side {
                Side::Right => x == w - 1 && 2 * y <= h <= 2 * y + 1,
                Side::Left => x == 0 && 2 * y <= h <= 2 * y + 1,
                Side::Top => y == 0 && 2 * x <= w <= 2 * x + 1,
                Side::Bottom => y == h - 1 && 2 * x <= w <= 2 * x + 1,
            }
        }),
{
}

/// At the start the server owns the pointer and may hand it over; the client does not own it, and
/// its cursor is parked. Neither knows its peer's screen.
pub proof fn a_pair_starts_with_the_server_as_owner(side: Side, w: u32, h: u32)
    requires
        0 < w < 0x8000_0000,
        0 < h < 0x8000_0000,
    ensures
        ({
            let server = Switch::initial(side, true, w, h);
            let client = Switch::initial(side, false, w, h);
            &&& server.owning && server.armed
            &&& !client.owning && !client.armed
            &&& server.side == side && client.side == side
            &&& server.my_w == w && server.my_h == h && client.my_w == w && client.my_h == h
            &&& server.peer_w == 0 && server.peer_h == 0
            &&& client.peer_w == 0 && client.peer_h == 0
            &&& server.cursor_x == 0 && server.cursor_y == 0
            &&& server.parking() is None
            &&& client.parking() == Some((client.cursor_x, client.cursor_y))
            &&& client.cursor_x == switch::seam_middle(side, w as int, h as int).0
            &&& client.cursor_y == switch::seam_middle(side, w as int, h as int).1
        }),
{
    parking_is_in_the_middle_of_the_seam(side, w as int, h as int);
}

/// The monitor waits 5 milliseconds without the pointer, 50 while a screen is unknown, and reads
/// the cursor in every other state.
pub proof fn the_owner_of_known_screens_is_watched(s: Switch)
    ensures
        !s.owning ==> s.next_poll() == (MonitorPoll::Sleep { ms: 5 }),
        s.owning && (s.my_w == 0 || s.my_h == 0 || s.peer_w == 0 || s.peer_h == 0) ==> s.next_poll()
            == (MonitorPoll::Sleep { ms: 50 }),
        s.owning && s.my_w > 0 && s.my_h > 0 && s.peer_w > 0 && s.peer_h > 0 ==> s.next_poll()
            == MonitorPoll::ReadCursor,
{
}

/// A machine that receives the pointer owns it, has its cursor at the entry point, and has to move
/// away from the seam before it can hand the pointer back. Nothing else about it changes.
pub proof fn receiving_takes_the_pointer(s: Switch, entry_x: u32, entry_y: u32)
    requires
        entry_x < 0x8000_0000,
        entry_y < 0x8000_0000,
    ensures
        ({
            let r = s.received(entry_x, entry_y);
            &&& r.owning && !r.armed
            &&& r.cursor_x == entry_x && r.cursor_y == entry_y
            &&& r.side == s.side && r.my_w == s.my_w && r.my_h == s.my_h
            &&& r.peer_w == s.peer_w && r.peer_h == s.peer_h
        }),
{
}

/// What one reading of the cursor does. A pointer that may cross does so exactly within 4 pixels
/// of the seam; one that may not yet, may from more than 12 pixels on. Where it crosses, the
/// machine gives it up, holds its cursor on the seam at the same place along it, and sends the peer
/// to the matching place of the opposite edge. In no other case is anything given up or sent.
pub proof fn readings_decide_crossings(s: Switch, x: i32, y: i32)
    requires
        0 < s.my_w < 0x8000_0000,
        0 < s.my_h < 0x8000_0000,
        0 < s.peer_w < 0x8000_0000,
        0 < s.peer_h < 0x8000_0000,
        x * s.peer_w < 0x10_0000_0000_0000,
        y * s.peer_h < 0x10_0000_0000_0000,
    ensures
        ({
            let (w, h) = (s.my_w as int, s.my_h as int);
            let (pw, ph) = (s.peer_w as int, s.peer_h as int);
            let gap = match s.side {
                Side::Right => w - 1 - x,
                Side::Left => x as int,
                Side::Top => y as int,
                Side::Bottom => h - 1 - y,
            };
            let (next, left) = s.stepped(x, y);
            &&& left is Some <==> s.armed && gap <= 4
            &&& left is Some ==> !next.owning && !next.armed
            &&& left is None ==> next.owning == s.owning
            &&& left is None ==> next.armed == (s.armed || gap > 12)
            &&& next.cursor_x == x && next.cursor_y == y
            &&& next.side == s.side && next.my_w == s.my_w && next.my_h == s.my_h
            &&& next.peer_w == s.peer_w && next.peer_h == s.peer_h
            &&& left matches Some(out) ==> {
                let (ex, ey) = (out.transfer.entry_x as int, out.transfer.entry_y as int);
                match s.side {
                    Side::Right => out.clamp_x == w - 1 && out.clamp_y == y && ex == 0
                        && nearest_on_screen(ey, y as int, h, ph),
                    Side::Left => out.clamp_x == 0 && out.clamp_y == y && ex == pw - 1
                        && nearest_on_screen(ey, y as int, h, ph),
                    Side::Top => out.clamp_x == x && out.clamp_y == 0 && ey == ph - 1
                        && nearest_on_screen(ex, x as int, w, pw),
                    Side::Bottom => out.clamp_x == x && out.clamp_y == h - 1 && ey == 0
                        && nearest_on_screen(ex, x as int, w, pw),
                }
            }
        }),
{
    crossing_lands_at_the_matching_place(
        match s.side {
            Side::Right => Edge::Right,
            Side::Left => Edge::Left,
            Side::Top => Edge::Top,
            Side::Bottom => Edge::Bottom,
        },
        x as int,
        y as int,
        s.my_w as int,
        s.my_h as int,
        s.peer_w as int,
        s.peer_h as int,
    );
}

/// On screens of any size the place is the matching one: it differs from the exact share by half a
/// pixel and by no more than one part in 2^51 of the share, unless it is the last pixel.
pub proof fn huge_screens_keep_their_proportion(v: int, from: int, to: int)
    requires
        0 < v,
        0 < from,
        0 < to,
    ensures
        ({
            let e = switch::scaled(v, from, to);
            let k = 0x8_0000_0000_0000int;
            &&& 0 <= e < to
            &&& k * (2 * (e * from)) <= k * (2 * (v * to) + from) + 2 * (v * to)
            &&& e == to - 1 || k * (2 * (v * to) - from) <= k * (2 * (e * from)) + 2 * (v * to)
        }),
{
    let p = (v * to) as nat;
    assert(0 < v * to) by (nonlinear_arith)
        requires
            0 < v,
            0 < to,
    ;
    binary64::quotients_of_rounded_are_close(p, from as nat);
    let (num, den) = binary64::nearest_quotient_spec(
        binary64::nearest_int_spec(p),
        from as nat,
    );
    let r = (2 * num + den) / (2 * den);
    let e = switch::scaled(v, from, to);
    vstd::arithmetic::div_mod::lemma_fundamental_div_mod((2 * num + den) as int, (2 * den) as int);
    assert(0 <= r) by (nonlinear_arith)
        requires
            r == (2 * num + den) / (2 * den),
            den >= 1,
    ;
    let (a, c) = (num * from, p * den);
    let f = den * from;
    assert(2 * ((r * from) * den) <= 2 * a + f && 2 * a <= 2 * ((r * from) * den) + f)
        by (nonlinear_arith)
        requires
            (2 * den) * r <= 2 * num + den,
            2 * num + den < (2 * den) * r + 2 * den,
            a == num * from,
            f == den * from,
            0 < from,
            den >= 1,
    {
        assert(((2 * den) * r) * from == 2 * ((r * from) * den));
        assert((2 * num + den) * from == 2 * a + f);
        assert(((2 * den) * r + 2 * den) * from == 2 * ((r * from) * den) + 2 * f);
        assert(((2 * den) * r) * from <= (2 * num + den) * from);
        assert((2 * num + den) * from <= ((2 * den) * r + 2 * den) * from);
    }
    let k = 0x8_0000_0000_0000int;
    let g = (r * from) * den;
    assert(k * (2 * g) <= k * (2 * c + f) + 2 * c);
    assert(k * (2 * c - f) <= k * (2 * g) + 2 * c);
    let rf = r * from;
    assert(k * (2 * rf) <= k * (2 * p + from) + 2 * p && k * (2 * p - from) <= k * (2 * rf) + 2 * p)
        by (nonlinear_arith)
        requires
            k * (2 * (rf * den)) <= k * (2 * (p * den) + den * from) + 2 * (p * den),
            k * (2 * (p * den) - den * from) <= k * (2 * (rf * den)) + 2 * (p * den),
            den >= 1,
    {
        assert(k * (2 * (rf * den)) == (k * (2 * rf)) * den);
        assert(k * (2 * (p * den) + den * from) + 2 * (p * den) == (k * (2 * p + from) + 2 * p)
            * den);
        assert(k * (2 * (p * den) - den * from) == (k * (2 * p - from)) * den);
        assert(k * (2 * (rf * den)) + 2 * (p * den) == (k * (2 * rf) + 2 * p) * den);
    }
    assert(e * from <= r * from) by (nonlinear_arith)
        requires
            e <= r,
            0 < from,
    ;
}

/// A coordinate is scaled by way of the product: this is rounded once, its quotient once more, and
/// the result to the nearest whole number, halves upwards.
pub proof fn coordinates_are_scaled_by_their_product(v: nat, from: nat, to: nat)
    requires
        0 < v,
        0 < from,
        0 < to,
    ensures
        ({
            let e = switch::scaled(v as int, from as int, to as int);
            let (num, den) = binary64::nearest_quotient_spec(
                binary64::nearest_int_spec(v * to),
                from,
            );
            &&& 2 * (e * den) <= 2 * num + den
            &&& e == to - 1 || 2 * num + den < 2 * (e * den) + 2 * den
        }),
{
    let a = binary64::nearest_int_spec(v * to);
    let (num, den) = binary64::nearest_quotient_spec(a, from);
    binary64::lemma_scales_positive(a, from);
    let n = 2 * num + den;
    let r = n / (2 * den);
    vstd::arithmetic::div_mod::lemma_fundamental_div_mod(n as int, (2 * den) as int);
    assert((2 * den) * r == 2 * (r * den)) by (nonlinear_arith);
    let e = switch::scaled(v as int, from as int, to as int);
    assert(e * den <= r * den) by (nonlinear_arith)
        requires
            e <= r,
            0 < den,
    ;
}

/// A machine parks its cursor exactly while it does not own the pointer, where it last had it.
pub proof fn the_owner_does_not_park(s: Switch)
    ensures
        s.owning ==> s.parking() is None,
        !s.owning ==> s.parking() == Some((s.cursor_x, s.cursor_y)),
{
}

/// Half of a size is cut towards zero.
pub proof fn halves_are_cut_towards_zero(n: int)
    ensures
        n >= 0 ==> 2 * switch::halved(n) <= n <= 2 * switch::halved(n) + 1,
        n <= 0 ==> 2 * switch::halved(n) - 1 <= n <= 2 * switch::halved(n),
{
}

/// On screens of whatever size the pointer leaves at the seam and enters at the opposite edge, at
/// the scaled place along it. Where a screen has no extent, that is its first pixel.
pub proof fn crossings_are_at_the_edges(
    x: int,
    y: int,
    w: int,
    h: int,
    pw: int,
    ph: int,
)
    ensures
        ({
            let along_y = switch::scaled(y, h, ph);
            let along_x = switch::scaled(x, w, pw);
            &&& switch::crossing(Edge::Right, x, y, w, h, pw, ph) == (w - 1, y, 0int, along_y)
            &&& switch::crossing(Edge::Bottom, x, y, w, h, pw, ph) == (x, h - 1, along_x, 0int)
            &&& pw >= 1 ==> switch::crossing(Edge::Left, x, y, w, h, pw, ph) == (
                0int,
                y,
                pw - 1,
                along_y,
            )
            &&& ph >= 1 ==> switch::crossing(Edge::Top, x, y, w, h, pw, ph) == (
                x,
                0int,
                along_x,
                ph - 1,
            )
            &&& pw <= 0 ==> switch::crossing(Edge::Left, x, y, w, h, pw, ph) == (
                0int,
                y,
                0int,
                along_y,
            )
            &&& ph <= 0 ==> switch::crossing(Edge::Top, x, y, w, h, pw, ph) == (
                x,
                0int,
                along_x,
                0int,
            )
            &&& h <= 0 || ph <= 0 || y <= 0 ==> along_y == 0
            &&& w <= 0 || pw <= 0 || x <= 0 ==> along_x == 0
        }),
{
}

/// On screens of whatever size, what a reading does goes by the distance to the seam alone, and a
/// pointer that crosses does so as the crossing says.
pub proof fn readings_go_by_the_distance(s: Switch, x: i32, y: i32)
    requires
        s.step_fits(x as int, y as int),
    ensures
        ({
            let d = s.distance(x as int, y as int);
            let edge = match s.side {
                Side::Right => Edge::Right,
                Side::Left => Edge::Left,
                Side::Top => Edge::Top,
                Side::Bottom => Edge::Bottom,
            };
            let (w, h) = (switch::extent(s.my_w), switch::extent(s.my_h));
            let (pw, ph) = (switch::extent(s.peer_w), switch::extent(s.peer_h));
            let (next, left) = s.stepped(x, y);
            let crosses = s.armed && d <= 4;
            &&& d == switch::seam_distance(edge, x as int, y as int, w, h)
            &&& left is Some <==> crosses
            &&& next == (Switch {
                owning: s.owning && !crosses,
                armed: if s.armed {
                    d > 4
                } else {
                    d > 12
                },
                cursor_x: x,
                cursor_y: y,
                ..s
            })
            &&& left matches Some(out) ==> {
                let (cx, cy, ex, ey) = switch::crossing(
                    edge,
                    x as int,
                    y as int,
                    w,
                    h,
                    pw,
                    ph,
                );
                &&& out.clamp_x == cx && out.clamp_y == cy
                &&& out.transfer.entry_x == ex && out.transfer.entry_y == ey
            }
        }),
{
    lemma_scaled_in_range(x as int, switch::extent(s.my_w), switch::extent(s.peer_w));
    lemma_scaled_in_range(y as int, switch::extent(s.my_h), switch::extent(s.peer_h));
}

proof fn lemma_scaled_in_range(v: int, from: int, to: int)
    requires
        to < 0x8000_0000,
    ensures
        0 <= switch::scaled(v, from, to) < 0x8000_0000,
{
    if 0 < v && 0 < from && 0 < to {
        huge_screens_keep_their_proportion(v, from, to);
    }
}

} // verus!
