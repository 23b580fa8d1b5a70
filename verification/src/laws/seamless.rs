//! The logical cursor of seamless mode.

use vstd::prelude::*;

use crate::binary64;
use crate::input::capture::seamless;
use crate::input::capture::seamless::{CursorCommand, Seamless};
use crate::input::{CaptureMsg, CaptureOptions};

verus! {

/// Both screens have an extent, and their heights are such that scaling stays exact.
pub open spec fn screens_known(opts: CaptureOptions) -> bool {
    &&& 2 <= opts.win_w < 0x8000_0000
    &&& 1 <= opts.win_h < 0x8000_0000
    &&& 1 <= opts.mac_h
    &&& opts.win_h * opts.mac_h < 0x8_0000_0000_0000
}

/// `p` is `v` where that lies in `0..=hi`, and else the nearer end.
pub open spec fn kept_within(p: int, v: int, hi: int) -> bool {
    &&& v < 0 ==> p == 0
    &&& 0 <= v <= hi ==> p == v
    &&& v > hi ==> p == hi
}

/// `m` is the share of `v / from` in `to`, its fraction cut off; one less is possible where there
/// is no fraction.
pub open spec fn matching_share(m: int, v: int, from: int, to: int) -> bool {
    &&& 0 <= m
    &&& m * from <= v * to
    &&& v * to <= m * from + from
    &&& v * to == m * from + from ==> v > 0
}

proof fn lemma_scaled_is_matching(y: int, h: int, m: int)
    requires
        0 <= y,
        0 < h,
        0 < m,
        y * m < 0x8_0000_0000_0000,
    ensures
        matching_share(seamless::scaled_y(y, h, m), y, h, m),
        seamless::scaled_y(-y, h, m) == -seamless::scaled_y(y, h, m),
{
    let s = seamless::scaled_y(y, h, m);
    seamless::heights_are_proportional(y, h, m);
    let e = (y * m) / h;
    let r = (y * m) % h;
    vstd::arithmetic::div_mod::lemma_fundamental_div_mod(y * m, h);
    assert(s * h <= y * m) by (nonlinear_arith)
        requires
            y * m == h * e + r,
            0 <= r < h,
            s <= e,
            0 < h,
    ;
    if r != 0 {
        assert(y * m < s * h + h) by (nonlinear_arith)
            requires
                y * m == h * e + r,
                0 <= r < h,
                s == e,
        ;
    } else {
        assert(y * m <= s * h + h) by (nonlinear_arith)
            requires
                y * m == h * e + r,
                r == 0,
                e - 1 <= s,
                0 < h,
        ;
    }
    if y == 0 {
        assert(y * m == 0) by (nonlinear_arith)
            requires
                y == 0,
        ;
        assert(s * h >= 0) by (nonlinear_arith)
            requires
                0 <= s,
                0 < h,
        ;
    }
}

/// The height from which the cursor leaves this screen: moved along with the mouse, and kept on
/// the screen.
pub open spec fn leaves_at(opts: CaptureOptions, y: int, cursor: (i32, i32), raw: (i64, i64)) -> bool {
    kept_within(y, cursor.1 + raw.1, opts.win_h - 1)
}

/// A cursor that the mouse pushes to the right edge, or beyond it, passes to the Mac in that
/// frame. It enters at the Mac's left edge, at the height that matches the one at which it left,
/// and this place is announced. The local cursor is hidden, and pinned at the height of departure.
pub proof fn the_cursor_enters_at_the_matching_height(
    s: Seamless,
    opts: CaptureOptions,
    cursor: (i32, i32),
    raw: (i64, i64),
    now_ns: u64,
    y: int,
)
    requires
        screens_known(opts),
        !s.on_mac,
        raw.0 > 0,
        cursor.0 + raw.0 >= opts.win_w - 1,
        leaves_at(opts, y, cursor, raw),
    ensures
        ({
            let next = s.next(opts, cursor, raw, now_ns);
            let edge = (opts.win_w - 1) as i32;
            &&& next.on_mac
            &&& next.mac_x == 0
            &&& next.mac_y <= opts.mac_h
            &&& matching_share(next.mac_y as int, y, opts.win_h as int, opts.mac_h as int)
            &&& y == 0 ==> next.mac_y == 0
            &&& next.pin_y == y
            &&& next.last_sent is None
            &&& next.last_stream_ns == now_ns
            &&& s.message(opts, cursor, raw, now_ns) == Some(
                CaptureMsg::CursorState { on_mac: true, x: 0, y: next.mac_y as u32 },
            )
            &&& s.commands(opts, cursor, raw) == seq![
                CursorCommand::MoveTo { x: edge, y: y as i32 },
                CursorCommand::Hide,
                CursorCommand::MoveTo { x: 0, y: y as i32 },
            ]
        }),
{
    let (h, m) = (opts.win_h as int, opts.mac_h as int);
    assert(y * m <= h * m) by (nonlinear_arith)
        requires
            0 <= y < h,
            0 < m,
    ;
    lemma_scaled_is_matching(y, h, m);
    let t = seamless::scaled_y(y, h, m);
    assert(t <= m) by (nonlinear_arith)
        requires
            t * h <= y * m,
            0 <= y < h,
            0 < m,
            0 < h,
    ;
    if y == 0 {
        assert(t == 0) by (nonlinear_arith)
            requires
                t * h <= y * m,
                y == 0,
                0 <= t,
                0 < h,
        ;
    }
    assert(seamless::driven(opts, cursor, raw).1 == y);
    assert(s.commands(opts, cursor, raw) =~= seq![
        CursorCommand::MoveTo { x: (opts.win_w - 1) as i32, y: y as i32 },
        CursorCommand::Hide,
        CursorCommand::MoveTo { x: 0, y: y as i32 },
    ]);
}

/// Of two entries the one from farther down is not announced farther up.
pub proof fn entries_keep_their_order(
    s: Seamless,
    opts: CaptureOptions,
    upper: (i32, i32),
    lower: (i32, i32),
    raw: (i64, i64),
    now_ns: u64,
)
    requires
        screens_known(opts),
        !s.on_mac,
        raw.0 > 0,
        upper.0 + raw.0 >= opts.win_w - 1,
        lower.0 + raw.0 >= opts.win_w - 1,
        0 <= upper.1 + raw.1 <= lower.1 + raw.1 < opts.win_h,
    ensures
        s.next(opts, upper, raw, now_ns).mac_y <= s.next(opts, lower, raw, now_ns).mac_y,
{
    let (a, b) = (upper.1 + raw.1, lower.1 + raw.1);
    let (h, m) = (opts.win_h as int, opts.mac_h as int);
    the_cursor_enters_at_the_matching_height(s, opts, upper, raw, now_ns, a);
    the_cursor_enters_at_the_matching_height(s, opts, lower, raw, now_ns, b);
    let (ma, mb) = (
        s.next(opts, upper, raw, now_ns).mac_y as int,
        s.next(opts, lower, raw, now_ns).mac_y as int,
    );
    if a < b {
        assert(ma <= mb) by (nonlinear_arith)
            requires
                ma * h <= a * m,
                b * m <= mb * h + h,
                a < b,
                0 < m,
                0 < h,
        ;
    } else {
        assert(a == b);
    }
}

/// A cursor that does not reach the right edge, or is not pushed there, stays on this screen:
/// nothing changes and nothing is sent. It moves exactly as the mouse does, and stops at the edges;
/// while the mouse rests it is left alone.
pub proof fn the_cursor_follows_the_mouse_here(
    s: Seamless,
    opts: CaptureOptions,
    cursor: (i32, i32),
    raw: (i64, i64),
    now_ns: u64,
    x: i32,
    y: i32,
)
    requires
        1 <= opts.win_w < 0x8000_0000,
        1 <= opts.win_h < 0x8000_0000,
        !s.on_mac,
        raw.0 <= 0 || opts.win_w >= 2 && cursor.0 + raw.0 < opts.win_w - 1,
        kept_within(x as int, cursor.0 + raw.0, opts.win_w - 1),
        kept_within(y as int, cursor.1 + raw.1, opts.win_h - 1),
    ensures
        s.next(opts, cursor, raw, now_ns) == s,
        s.message(opts, cursor, raw, now_ns) is None,
        raw.0 == 0 && raw.1 == 0 ==> s.commands(opts, cursor, raw) == Seq::<CursorCommand>::empty(),
        raw.0 != 0 || raw.1 != 0 ==> s.commands(opts, cursor, raw) == seq![
            CursorCommand::MoveTo { x, y },
        ],
{
}

/// A cursor at the Mac's left edge that the mouse pushes left comes back in that frame: this is
/// announced, and the local cursor is shown again, at the right edge and the height at which it is
/// found. Otherwise a cursor on the Mac stays there.
pub proof fn the_cursor_comes_back_at_the_left_edge(
    s: Seamless,
    opts: CaptureOptions,
    cursor: (i32, i32),
    raw: (i64, i64),
    now_ns: u64,
)
    requires
        1 <= opts.win_w < 0x8000_0000,
        s.on_mac,
    ensures
        s.next(opts, cursor, raw, now_ns).on_mac == !(s.mac_x <= 0 && raw.0 < 0),
        s.mac_x <= 0 && raw.0 < 0 ==> {
            let commands = s.commands(opts, cursor, raw);
            let next = s.next(opts, cursor, raw, now_ns);
            let n = commands.len();
            &&& s.message(opts, cursor, raw, now_ns) == Some(
                CaptureMsg::CursorState { on_mac: false, x: 0, y: 0 },
            )
            &&& next.last_sent is None && next.last_stream_ns == now_ns
            &&& n >= 2
            &&& commands[n - 2] == CursorCommand::Show
            &&& commands[n - 1] == CursorCommand::MoveTo {
                x: (opts.win_w - 1) as i32,
                y: cursor.1,
            }
        },
{
}

/// While the cursor is on the Mac the local one is hidden in every frame, and brought back to its
/// pin where it is not there.
pub proof fn the_local_cursor_is_held(
    s: Seamless,
    opts: CaptureOptions,
    cursor: (i32, i32),
    raw: (i64, i64),
    now_ns: u64,
)
    requires
        s.on_mac,
        !(s.mac_x <= 0 && raw.0 < 0),
    ensures
        s.next(opts, cursor, raw, now_ns).pin_y == s.pin_y,
        cursor.0 == 0 && cursor.1 == s.pin_y ==> s.commands(opts, cursor, raw) == seq![
            CursorCommand::Hide,
        ],
        cursor.0 != 0 || cursor.1 != s.pin_y ==> s.commands(opts, cursor, raw) == seq![
            CursorCommand::MoveTo { x: 0, y: s.pin_y },
            CursorCommand::Hide,
        ],
{
}

/// `after` is where a cursor at height `before` comes by a movement of `dy` on this screen: it
/// moves by the matching share of the movement, up as well as down, and stops at the edges.
pub open spec fn moved_in_proportion(after: int, before: int, dy: int, opts: CaptureOptions) -> bool {
    exists|share: int|
        #![trigger kept_within(after, before + share, opts.mac_h as int)]
        kept_within(after, before + share, opts.mac_h as int) && if dy >= 0 {
            matching_share(share, dy, opts.win_h as int, opts.mac_h as int)
        } else {
            matching_share(-share, -dy, opts.win_h as int, opts.mac_h as int)
        }
}

/// On the Mac the cursor moves exactly as the mouse does to the left and right, in proportion to
/// the screens up and down, and stops at the edges. The new place is streamed exactly where the
/// mouse moved, the place is not the one last streamed, and 16 milliseconds have passed since the
/// last message; what is streamed is that place.
pub proof fn the_cursor_roams_with_the_mouse(
    s: Seamless,
    opts: CaptureOptions,
    cursor: (i32, i32),
    raw: (i64, i64),
    now_ns: u64,
)
    requires
        s.on_mac,
        !(s.mac_x <= 0 && raw.0 < 0),
        1 <= opts.win_h,
        1 <= opts.mac_h,
        raw.1 * opts.mac_h < 0x8_0000_0000_0000,
        -raw.1 * opts.mac_h < 0x8_0000_0000_0000,
    ensures
        ({
            let next = s.next(opts, cursor, raw, now_ns);
            let msg = s.message(opts, cursor, raw, now_ns);
            let moves = raw.0 != 0 || raw.1 != 0;
            let place = (next.mac_x, next.mac_y);
            &&& next.on_mac
            &&& !moves ==> next == s
            &&& moves ==> kept_within(next.mac_x as int, s.mac_x + raw.0, opts.mac_w as int)
            &&& moves ==> moved_in_proportion(
                next.mac_y as int,
                s.mac_y as int,
                raw.1 as int,
                opts,
            )
            &&& msg is Some <==> moves && s.last_sent != Some(place) && now_ns - s.last_stream_ns
                >= 16_000_000
            &&& msg is Some ==> msg == Some(
                CaptureMsg::CursorState {
                    on_mac: true,
                    x: next.mac_x as u32,
                    y: next.mac_y as u32,
                },
            ) && next.last_sent == Some(place) && next.last_stream_ns == now_ns
            &&& msg is None ==> next.last_sent == s.last_sent && next.last_stream_ns
                == s.last_stream_ns
        }),
{
    if raw.0 != 0 || raw.1 != 0 {
        let (h, m) = (opts.win_h as int, opts.mac_h as int);
        let dy = raw.1 as int;
        let next = s.next(opts, cursor, raw, now_ns);
        if dy >= 0 {
            lemma_scaled_is_matching(dy, h, m);
        } else {
            assert((-dy) * m == -raw.1 * opts.mac_h);
            lemma_scaled_is_matching(-dy, h, m);
            assert(-(-dy) == dy);
        }
        let share = seamless::scaled_y(dy, h, m);
        assert(kept_within(next.mac_y as int, s.mac_y + share, m));
    }
}

/// To the right and back by the same way, with no edge between, the cursor returns to its place.
pub proof fn roaming_back_returns(
    s: Seamless,
    opts: CaptureOptions,
    cursor: (i32, i32),
    way: i64,
    now_ns: u64,
    then_ns: u64,
)
    requires
        s.on_mac,
        0 <= s.mac_x,
        0 < way,
        s.mac_x + way <= opts.mac_w,
        0 <= s.mac_y <= opts.mac_h,
        1 <= opts.win_h,
        1 <= opts.mac_h,
    ensures
        ({
            let there = s.next(opts, cursor, (way, 0), now_ns);
            let back = there.next(opts, cursor, ((-way) as i64, 0), then_ns);
            &&& there.on_mac && there.mac_x == s.mac_x + way && there.mac_y == s.mac_y
            &&& back.on_mac && back.mac_x == s.mac_x && back.mac_y == s.mac_y
        }),
{
    let (h, m) = (opts.win_h as int, opts.mac_h as int);
    assert(0 * m == 0) by (nonlinear_arith);
    lemma_scaled_is_matching(0, h, m);
    let t = seamless::scaled_y(0, h, m);
    assert(t == 0) by (nonlinear_arith)
        requires
            t * h <= 0 * m,
            0 <= t,
            0 < h,
    ;
}

/// A distance on a screen that has no extent, or towards one, is not scaled.
pub proof fn nothing_is_scaled_without_an_extent(y: int, h: int, m: int)
    requires
        h == 0 || m == 0,
    ensures
        seamless::scaled_y(y, h, m) == y,
{
}

/// The height is the matching share, upwards as well as downwards.
pub proof fn heights_are_matching_shares(y: int, h: int, m: int)
    requires
        0 <= y,
        0 < h,
        0 < m,
        y * m < 0x8_0000_0000_0000,
    ensures
        matching_share(seamless::scaled_y(y, h, m), y, h, m),
        seamless::scaled_y(-y, h, m) == -seamless::scaled_y(y, h, m),
{
    lemma_scaled_is_matching(y, h, m);
}

/// Distances of any size keep their proportion: a scaled one is the exact one with its fraction cut
/// off, but for one part in 2^50, unless it is as great as a number of 64 bits can be. Upwards it is
/// the same as downwards.
pub proof fn huge_heights_keep_their_proportion(y: int, h: int, m: int)
    requires
        0 <= y,
        0 < h,
        0 < m,
    ensures
        ({
            let s = seamless::scaled_y(y, h, m);
            let up = seamless::scaled_y(-y, h, m);
            let k = 0x4_0000_0000_0000int;
            &&& 0 <= s <= 0x7fff_ffff_ffff_ffff
            &&& k * (s * h) <= k * (y * m) + y * m
            &&& s == 0x7fff_ffff_ffff_ffff || k * (y * m) <= k * (s * h + h) + y * m
            &&& s < 0x7fff_ffff_ffff_ffff ==> up == -s
            &&& s == 0x7fff_ffff_ffff_ffff ==> -s - 1 <= up <= -s
        }),
{
    binary64::quotients_of_rounded_are_close(y as nat, h as nat);
    let (num, den) = binary64::nearest_quotient_spec(
        binary64::nearest_int_spec(y as nat),
        h as nat,
    );
    binary64::integers_are_close(num * m as nat);
    let p = binary64::nearest_int_spec(num * m as nat);
    let whole = p / den;
    vstd::arithmetic::div_mod::lemma_fundamental_div_mod(p as int, den as int);
    assert(0 <= whole) by (nonlinear_arith)
        requires
            whole == p / den,
            den >= 1,
    ;
    let s = seamless::scaled_y(y, h, m);
    let k = 0x20_0000_0000_0000int;
    let (a, c) = (num * h, (y as nat) * den);
    let (am, cm) = (a * m, c * m);
    assert(k * am <= k * cm + 3 * cm && k * cm <= k * am + 3 * cm && am <= 2 * cm)
        by (nonlinear_arith)
        requires
            k * a <= k * c + 3 * c,
            k * c <= k * a + 3 * c,
            a <= 2 * c,
            am == a * m,
            cm == c * m,
            0 < m,
    {
        assert((k * a) * m == k * (a * m) && (k * c) * m == k * (c * m) && (3 * c) * m == 3 * (c
            * m));
        assert((k * a) * m <= (k * c + 3 * c) * m);
        assert((k * c) * m <= (k * a + 3 * c) * m);
    }
    let b = num * m as nat;
    let ph = p * h;
    assert(k * ph <= k * am + am && k * am <= k * ph + am) by (nonlinear_arith)
        requires
            k * p <= k * b + b,
            k * b <= k * p + b,
            b == num * m,
            am == (num * h) * m,
            ph == p * h,
            0 < h,
    {
        assert((k * p) * h == k * (p * h));
        assert(b * h == (num * h) * m);
        assert((k * b) * h == k * (b * h));
        assert((k * p) * h <= (k * b + b) * h);
        assert((k * b) * h <= (k * p + b) * h);
    }
    let wd = (whole * h) * den;
    let hd = h * den;
    assert(wd <= ph && ph <= wd + hd) by (nonlinear_arith)
        requires
            den * whole <= p,
            p < den * whole + den,
            wd == (whole * h) * den,
            hd == h * den,
            ph == p * h,
            0 < h,
    {
        assert((den * whole) * h == (whole * h) * den);
        assert((den * whole) * h <= p * h);
        assert(p * h <= (den * whole + den) * h);
    }
    let ym = y * m;
    assert(cm == ym * den) by (nonlinear_arith)
        requires
            cm == (y * den) * m,
            ym == y * m,
    ;
    assert(k * wd <= k * cm + 5 * cm);
    assert(k * cm <= k * (wd + hd) + 5 * cm);
    let wh = whole * h;
    assert(k * wh <= k * ym + 5 * ym && k * ym <= k * (wh + h) + 5 * ym) by (nonlinear_arith)
        requires
            k * (wh * den) <= k * (ym * den) + 5 * (ym * den),
            k * (ym * den) <= k * (wh * den + h * den) + 5 * (ym * den),
            den >= 1,
    {
        assert(k * (wh * den) == (k * wh) * den);
        assert(k * (ym * den) + 5 * (ym * den) == (k * ym + 5 * ym) * den);
        assert(k * (ym * den) == (k * ym) * den);
        assert(k * (wh * den + h * den) + 5 * (ym * den) == (k * (wh + h) + 5 * ym) * den);
    }
    assert(0 <= ym) by (nonlinear_arith)
        requires
            ym == y * m,
            0 <= y,
            0 < m,
    ;
    assert(s * h <= whole * h) by (nonlinear_arith)
        requires
            s <= whole,
            0 < h,
    ;
    if y == 0 {
        assert(cm == 0 && whole == 0) by (nonlinear_arith)
            requires
                cm == (y * den) * m,
                y == 0,
                0 <= wd,
                k * wd <= k * cm + 5 * cm,
                wd == (whole * h) * den,
                0 < h,
                den >= 1,
                0 <= whole,
                k == 0x20_0000_0000_0000int,
        ;
    }
}

/// A height is scaled by way of the quotient: this is rounded once, its product with the other
/// height once more, and the fraction is cut off.
pub proof fn heights_are_scaled_by_their_quotient(y: nat, h: nat, m: nat)
    requires
        0 < h,
        0 < m,
    ensures
        ({
            let s = seamless::scaled_y(y as int, h as int, m as int);
            let (num, den) = binary64::nearest_quotient_spec(binary64::nearest_int_spec(y), h);
            let product = binary64::nearest_int_spec(num * m);
            &&& s * den <= product
            &&& s < 0x7fff_ffff_ffff_ffff ==> product < s * den + den
        }),
{
    let (num, den) = binary64::nearest_quotient_spec(binary64::nearest_int_spec(y), h);
    binary64::lemma_scales_positive(binary64::nearest_int_spec(y), h);
    let product = binary64::nearest_int_spec(num * m);
    let whole = product / den;
    vstd::arithmetic::div_mod::lemma_fundamental_div_mod(product as int, den as int);
    assert(den * whole == whole * den) by (nonlinear_arith);
    let s = seamless::scaled_y(y as int, h as int, m as int);
    assert(s * den <= whole * den) by (nonlinear_arith)
        requires
            s <= whole,
            0 < den,
    ;
}

/// Wherever the cursor passes to the Mac, also to one whose size is not known yet, it enters at the
/// left edge, at the scaled height, and what is announced is that height kept on the Mac's screen.
pub proof fn entries_are_announced_on_the_screen(
    s: Seamless,
    opts: CaptureOptions,
    cursor: (i32, i32),
    raw: (i64, i64),
    now_ns: u64,
    y: int,
    at: int,
)
    requires
        1 <= opts.win_w < 0x8000_0000,
        1 <= opts.win_h < 0x8000_0000,
        !s.on_mac,
        raw.0 > 0,
        cursor.0 + raw.0 >= opts.win_w - 1 || opts.win_w == 1,
        leaves_at(opts, y, cursor, raw),
        kept_within(
            at,
            seamless::scaled_y(y, opts.win_h as int, opts.mac_h as int),
            opts.mac_h as int,
        ),
    ensures
        ({
            let next = s.next(opts, cursor, raw, now_ns);
            &&& next.on_mac && next.mac_x == 0 && next.pin_y == y
            &&& next.mac_y == seamless::scaled_y(y, opts.win_h as int, opts.mac_h as int)
            &&& s.message(opts, cursor, raw, now_ns) == Some(
                CaptureMsg::CursorState { on_mac: true, x: 0, y: at as u32 },
            )
        }),
{
    if opts.mac_h > 0 {
        huge_heights_keep_their_proportion(y, opts.win_h as int, opts.mac_h as int);
    }
}

/// On the Mac the cursor moves by the scaled height whatever the sizes, also where the Mac's is not
/// known yet: it is then held at the origin.
pub proof fn roaming_is_by_the_scaled_height(
    s: Seamless,
    opts: CaptureOptions,
    cursor: (i32, i32),
    raw: (i64, i64),
    now_ns: u64,
)
    requires
        s.on_mac,
        !(s.mac_x <= 0 && raw.0 < 0),
        raw.0 != 0 || raw.1 != 0,
    ensures
        ({
            let next = s.next(opts, cursor, raw, now_ns);
            let dy = seamless::scaled_y(raw.1 as int, opts.win_h as int, opts.mac_h as int);
            let place = (next.mac_x, next.mac_y);
            &&& next.on_mac
            &&& kept_within(next.mac_x as int, s.mac_x + raw.0, opts.mac_w as int)
            &&& kept_within(next.mac_y as int, s.mac_y + dy, opts.mac_h as int)
            &&& opts.mac_w == 0 && opts.mac_h == 0 ==> place == (0i64, 0i64)
            &&& s.message(opts, cursor, raw, now_ns) is Some <==> s.last_sent != Some(place)
                && now_ns - s.last_stream_ns >= 16_000_000
            &&& s.message(opts, cursor, raw, now_ns) is Some ==> s.message(
                opts,
                cursor,
                raw,
                now_ns,
            ) == Some(
                CaptureMsg::CursorState {
                    on_mac: true,
                    x: next.mac_x as u32,
                    y: next.mac_y as u32,
                },
            )
        }),
{
}

/// On a screen of whatever size, a cursor whose mouse rests is left alone while it is here, and one
/// that comes back does so at the right edge, and at the height at which it is found.
pub proof fn returns_are_at_the_right_edge(
    s: Seamless,
    opts: CaptureOptions,
    cursor: (i32, i32),
    raw: (i64, i64),
    now_ns: u64,
)
    ensures
        !s.on_mac && raw == (0i64, 0i64) ==> s.commands(opts, cursor, raw) == Seq::<
            CursorCommand,
        >::empty() && s.next(opts, cursor, raw, now_ns) == s && s.message(
            opts,
            cursor,
            raw,
            now_ns,
        ) is None,
        s.on_mac && s.mac_x <= 0 && raw.0 < 0 ==> {
            let back = seq![
                CursorCommand::Hide,
                CursorCommand::Show,
                CursorCommand::MoveTo {
                    x: (crate::switch::extent(opts.win_w) - 1) as i32,
                    y: cursor.1,
                },
            ];
            let next = s.next(opts, cursor, raw, now_ns);
            &&& next == (Seamless {
                on_mac: false,
                last_sent: None,
                last_stream_ns: now_ns,
                mac_x: s.mac_x,
                mac_y: s.mac_y,
                pin_y: s.pin_y,
            })
            &&& s.commands(opts, cursor, raw) == if cursor.0 == 0 && cursor.1 == s.pin_y {
                back
            } else {
                seq![CursorCommand::MoveTo { x: 0, y: s.pin_y }] + back
            }
            &&& s.message(opts, cursor, raw, now_ns) == Some(
                CaptureMsg::CursorState { on_mac: false, x: 0, y: 0 },
            )
        },
{
}

} // verus!
