//! The logical cursor of seamless mode.
//!
//! There is one cursor over both screens, driven by the raw movements of the mouse. While it is
//! on this screen the local cursor is moved along and nothing is sent. At the right edge it passes
//! to the Mac: the local cursor is hidden and pinned at the left edge, and the raw movements drive
//! the cursor there, until it leaves the Mac at its left edge and comes back at the right edge
//! here.

use vstd::prelude::*;

use crate::binary64::{nearest_int, nearest_quotient};
use crate::input::{CaptureMsg, CaptureOptions};
use crate::numeric::wrap_i32;

verus! {

/// A vertical distance `y` of a screen `h` high, scaled to a screen `m` high.
///
/// The quotient `y / h` and its product with `m` are formed in binary64; the result is cut to a
/// whole number towards zero and kept within 64 bits. Where a screen has no extent the distance
/// stays as it is.
pub open spec fn scaled_y(y: int, h: int, m: int) -> int {
    if h == 0 || m == 0 {
        y
    } else {
        let magnitude = if y < 0 {
            (-y) as nat
        } else {
            y as nat
        };
        let (num, den) = crate::binary64::nearest_quotient_spec(
            crate::binary64::nearest_int_spec(magnitude),
            h as nat,
        );
        let whole = (crate::binary64::nearest_int_spec(num * m as nat) / den) as int;
        if y < 0 {
            if whole <= 0x8000_0000_0000_0000 {
                -whole
            } else {
                -0x8000_0000_0000_0000
            }
        } else {
            if whole <= 0x7fff_ffff_ffff_ffff {
                whole
            } else {
                0x7fff_ffff_ffff_ffff
            }
        }
    }
}

/// Scales a vertical distance from this screen to the Mac's.
pub fn map_y(win_y: i64, win_h: u32, mac_h: u32) -> (r: i64)
    ensures
        r == scaled_y(win_y as int, win_h as int, mac_h as int),
{
    if mac_h == 0 || win_h == 0 {
        return win_y;
    }
    let magnitude: u128 = if win_y < 0 {
        (-(win_y as i128)) as u128
    } else {
        win_y as u128
    };
    let q = nearest_quotient(nearest_int(magnitude), win_h as u128);
    proof {
        assert(q.num * mac_h <= 0x4_0000_0000_0000_0000 * 0x1_0000_0000) by (nonlinear_arith)
            requires
                0 <= q.num <= 0x4_0000_0000_0000_0000,
                0 <= mac_h <= 0x1_0000_0000,
        ;
    }
    let whole: u128 = nearest_int(q.num * mac_h as u128) / q.den;
    if win_y < 0 {
        if whole <= 0x8000_0000_0000_0000 {
            (-(whole as i128)) as i64
        } else {
            i64::MIN
        }
    } else {
        if whole <= 0x7fff_ffff_ffff_ffff {
            whole as i64
        } else {
            i64::MAX
        }
    }
}

/// The least time between two cursor positions that are streamed, in nanoseconds.
pub const STREAM_NS: u64 = 16_000_000;

/// Where the logical cursor of seamless mode is.
#[derive(Debug, Clone, Copy, PartialEq, Eq)]
pub struct Seamless {
    /// The cursor is on the Mac.
    pub on_mac: bool,
    /// The cursor's position there.
    pub mac_x: i64,
    pub mac_y: i64,
    /// The height at which the local cursor is pinned meanwhile.
    pub pin_y: i32,
    /// The position last streamed since the cursor changed screens, if any was.
    pub last_sent: Option<(i64, i64)>,
    /// When a cursor state was last sent, on a monotonic clock.
    pub last_stream_ns: u64,
}

/// What is done to the local cursor.
#[derive(Debug, Clone, Copy, PartialEq, Eq, Structural)]
pub enum CursorCommand {
    MoveTo { x: i32, y: i32 },
    Hide,
    Show,
}

/// The outcome of one frame.
#[derive(Debug)]
pub struct Frame {
    /// What to do to the local cursor, in order.
    pub commands: Vec<CursorCommand>,
    /// What to send, after that.
    pub msg: Option<CaptureMsg>,
    /// The cursor changed screens: the next frame follows without a pause.
    pub again: bool,
}

/// What the logical cursor does in one frame.
#[derive(Debug, Clone, Copy, PartialEq, Eq, Structural)]
pub enum Turn {
    /// It stays on this screen.
    Stay,
    /// It passes to the Mac.
    Enter,
    /// It stays on the Mac.
    Roam,
    /// It comes back from the Mac.
    Leave,
}

/// `v`, kept in `0..=hi`.
pub open spec fn clamped(v: int, hi: int) -> int {
    if v < 0 {
        0
    } else if v > hi {
        hi
    } else {
        v
    }
}

/// `v` is a 64-bit number.
pub open spec fn fits(v: int) -> bool {
    i64::MIN <= v <= i64::MAX
}

/// Keeps `v` in `0..=hi`.
fn clamp(v: i64, hi: i64) -> (r: i64)
    requires
        0 <= hi,
    ensures
        r == clamped(v as int, hi as int),
{
    if v < 0 {
        0
    } else if v > hi {
        hi
    } else {
        v
    }
}

/// The sum of a position and a movement is a 64-bit number.
fn sum_fits(a: i64, b: i64) -> (r: bool)
    ensures
        r == fits(a + b),
{
    let sum: i128 = a as i128 + b as i128;
    -0x8000_0000_0000_0000 <= sum && sum <= 0x7fff_ffff_ffff_ffff
}

/// The column of this screen's right edge.
pub open spec fn right_edge(opts: CaptureOptions) -> int {
    crate::switch::extent(opts.win_w) - 1
}

/// Where the local cursor is after it was moved along with the mouse.
pub open spec fn driven(opts: CaptureOptions, cursor: (i32, i32), raw: (i64, i64)) -> (int, int) {
    if raw.0 == 0 && raw.1 == 0 {
        (cursor.0 as int, cursor.1 as int)
    } else {
        (
            clamped(cursor.0 + raw.0, right_edge(opts)),
            clamped(cursor.1 + raw.1, crate::switch::extent(opts.win_h) - 1),
        )
    }
}

impl Seamless {
    /// What the cursor does: it passes to the Mac when it is at the right edge and the mouse moves
    /// right, and comes back when it is at the Mac's left edge and the mouse moves left.
    pub open spec fn turn(
        self,
        opts: CaptureOptions,
        cursor: (i32, i32),
        raw: (i64, i64),
    ) -> Turn {
        if !self.on_mac {
            if driven(opts, cursor, raw).0 >= right_edge(opts) && raw.0 > 0 {
                Turn::Enter
            } else {
                Turn::Stay
            }
        } else {
            if self.mac_x <= 0 && raw.0 < 0 {
                Turn::Leave
            } else {
                Turn::Roam
            }
        }
    }

    /// Where the cursor is on the Mac after it moved along with the mouse.
    pub open spec fn roamed(self, opts: CaptureOptions, raw: (i64, i64)) -> (i64, i64) {
        if raw.0 == 0 && raw.1 == 0 {
            (self.mac_x, self.mac_y)
        } else {
            let dy = scaled_y(raw.1 as int, opts.win_h as int, opts.mac_h as int);
            (
                clamped(self.mac_x + raw.0, opts.mac_w as int) as i64,
                clamped(self.mac_y + dy, opts.mac_h as int) as i64,
            )
        }
    }

    /// The position on the Mac is streamed: the mouse moved, the position is a new one, and enough
    /// time has passed since the last message.
    pub open spec fn streams(self, opts: CaptureOptions, raw: (i64, i64), now_ns: u64) -> bool {
        &&& raw.0 != 0 || raw.1 != 0
        &&& self.last_sent != Some(self.roamed(opts, raw))
        &&& now_ns - self.last_stream_ns >= STREAM_NS
    }

    /// The state after the frame.
    pub open spec fn next(
        self,
        opts: CaptureOptions,
        cursor: (i32, i32),
        raw: (i64, i64),
        now_ns: u64,
    ) -> Seamless {
        match self.turn(opts, cursor, raw) {
            Turn::Stay => self,
            Turn::Enter => {
                let y = driven(opts, cursor, raw).1;
                Seamless {
                    on_mac: true,
                    mac_x: 0,
                    mac_y: scaled_y(y, opts.win_h as int, opts.mac_h as int) as i64,
                    pin_y: y as i32,
                    last_sent: None,
                    last_stream_ns: now_ns,
                }
            },
            Turn::Leave => Seamless {
                on_mac: false,
                last_sent: None,
                last_stream_ns: now_ns,
                ..self
            },
            Turn::Roam => {
                let at = self.roamed(opts, raw);
                let sent = self.streams(opts, raw, now_ns);
                Seamless {
                    mac_x: at.0,
                    mac_y: at.1,
                    last_sent: if sent {
                        Some(at)
                    } else {
                        self.last_sent
                    },
                    last_stream_ns: if sent {
                        now_ns
                    } else {
                        self.last_stream_ns
                    },
                    ..self
                }
            },
        }
    }

    /// What is sent in the frame.
    pub open spec fn message(
        self,
        opts: CaptureOptions,
        cursor: (i32, i32),
        raw: (i64, i64),
        now_ns: u64,
    ) -> Option<CaptureMsg> {
        match self.turn(opts, cursor, raw) {
            Turn::Stay => None,
            Turn::Enter => {
                let y = scaled_y(
                    driven(opts, cursor, raw).1,
                    opts.win_h as int,
                    opts.mac_h as int,
                );
                Some(
                    CaptureMsg::CursorState {
                        on_mac: true,
                        x: 0,
                        y: clamped(y, opts.mac_h as int) as u32,
                    },
                )
            },
            Turn::Leave => Some(CaptureMsg::CursorState { on_mac: false, x: 0, y: 0 }),
            Turn::Roam => if self.streams(opts, raw, now_ns) {
                let at = self.roamed(opts, raw);
                Some(CaptureMsg::CursorState { on_mac: true, x: at.0 as u32, y: at.1 as u32 })
            } else {
                None
            },
        }
    }

    /// What is done to the local cursor in the frame: on this screen it is moved along with the
    /// mouse; while the logical cursor is on the Mac it is brought back to its pin, and hidden.
    pub open spec fn commands(
        self,
        opts: CaptureOptions,
        cursor: (i32, i32),
        raw: (i64, i64),
    ) -> Seq<CursorCommand> {
        let at = driven(opts, cursor, raw);
        let follow = if raw.0 == 0 && raw.1 == 0 {
            Seq::empty()
        } else {
            seq![CursorCommand::MoveTo { x: at.0 as i32, y: at.1 as i32 }]
        };
        let pin = if cursor.0 == 0 && cursor.1 == self.pin_y {
            seq![CursorCommand::Hide]
        } else {
            seq![CursorCommand::MoveTo { x: 0, y: self.pin_y }, CursorCommand::Hide]
        };
        match self.turn(opts, cursor, raw) {
            Turn::Stay => follow,
            Turn::Enter => follow + seq![
                CursorCommand::Hide,
                CursorCommand::MoveTo { x: 0, y: at.1 as i32 },
            ],
            Turn::Roam => pin,
            Turn::Leave => pin + seq![
                CursorCommand::Show,
                CursorCommand::MoveTo { x: right_edge(opts) as i32, y: cursor.1 },
            ],
        }
    }

    /// The frame's arithmetic stays within the machine's integers, and this screen has an extent
    /// where the cursor is to be moved on it.
    pub open spec fn frame_fits(
        self,
        opts: CaptureOptions,
        cursor: (i32, i32),
        raw: (i64, i64),
    ) -> bool {
        let moves = raw.0 != 0 || raw.1 != 0;
        if !self.on_mac {
            &&& right_edge(opts) >= i32::MIN
            &&& moves ==> {
                &&& right_edge(opts) >= 0
                &&& crate::switch::extent(opts.win_h) >= 1
                &&& fits(cursor.0 + raw.0)
                &&& fits(cursor.1 + raw.1)
            }
        } else if self.mac_x <= 0 && raw.0 < 0 {
            right_edge(opts) >= i32::MIN
        } else {
            moves ==> {
                &&& fits(self.mac_x + raw.0)
                &&& fits(
                    self.mac_y + scaled_y(raw.1 as int, opts.win_h as int, opts.mac_h as int),
                )
            }
        }
    }

    /// Tests whether a frame with these readings can be taken.
    pub fn can_step(&self, opts: CaptureOptions, cursor: (i32, i32), raw: (i64, i64)) -> (r: bool)
        ensures
            r == self.frame_fits(opts, cursor, raw),
    {
        let w: i32 = wrap_i32(opts.win_w);
        let h: i32 = wrap_i32(opts.win_h);
        let moves = raw.0 != 0 || raw.1 != 0;
        if !self.on_mac {
            w > i32::MIN && (!moves || (w >= 1 && h >= 1 && sum_fits(cursor.0 as i64, raw.0)
                && sum_fits(cursor.1 as i64, raw.1)))
        } else if self.mac_x <= 0 && raw.0 < 0 {
            w > i32::MIN
        } else {
            !moves || (sum_fits(self.mac_x, raw.0) && sum_fits(
                self.mac_y,
                map_y(raw.1, opts.win_h, opts.mac_h),
            ))
        }
    }

    /// One frame: takes the position of the local cursor, the movement of the mouse since the last
    /// frame and the time.
    pub fn step(
        &mut self,
        opts: CaptureOptions,
        cursor: (i32, i32),
        raw: (i64, i64),
        now_ns: u64,
    ) -> (r: Frame)
        requires
            old(self).frame_fits(opts, cursor, raw),
        ensures
            *final(self) == old(self).next(opts, cursor, raw, now_ns),
            r.commands@ == old(self).commands(opts, cursor, raw),
            r.msg == old(self).message(opts, cursor, raw, now_ns),
            r.again == (old(self).on_mac != final(self).on_mac),
    {
        let mut commands: Vec<CursorCommand> = Vec::new();
        let w: i32 = wrap_i32(opts.win_w);
        let h: i32 = wrap_i32(opts.win_h);
        if !self.on_mac {
            let mut p: (i32, i32) = cursor;
            if raw.0 != 0 || raw.1 != 0 {
                p =
                (
                    clamp(cursor.0 as i64 + raw.0, w as i64 - 1) as i32,
                    clamp(cursor.1 as i64 + raw.1, h as i64 - 1) as i32,
                );
                commands.push(CursorCommand::MoveTo { x: p.0, y: p.1 });
            }
            if p.0 >= w - 1 && raw.0 > 0 {
                commands.push(CursorCommand::Hide);
                commands.push(CursorCommand::MoveTo { x: 0, y: p.1 });
                let mac_y: i64 = map_y(p.1 as i64, opts.win_h, opts.mac_h);
                let y: u32 = clamp(mac_y, opts.mac_h as i64) as u32;
                self.on_mac = true;
                self.mac_x = 0;
                self.mac_y = mac_y;
                self.pin_y = p.1;
                self.last_sent = None;
                self.last_stream_ns = now_ns;
                Frame {
                    commands,
                    msg: Some(CaptureMsg::CursorState { on_mac: true, x: 0, y }),
                    again: true,
                }
            } else {
                Frame { commands, msg: None, again: false }
            }
        } else {
            if cursor.0 != 0 || cursor.1 != self.pin_y {
                commands.push(CursorCommand::MoveTo { x: 0, y: self.pin_y });
            }
            commands.push(CursorCommand::Hide);
            if self.mac_x <= 0 && raw.0 < 0 {
                commands.push(CursorCommand::Show);
                commands.push(CursorCommand::MoveTo { x: w - 1, y: cursor.1 });
                self.on_mac = false;
                self.last_sent = None;
                self.last_stream_ns = now_ns;
                Frame {
                    commands,
                    msg: Some(CaptureMsg::CursorState { on_mac: false, x: 0, y: 0 }),
                    again: true,
                }
            } else {
                let mut msg: Option<CaptureMsg> = None;
                if raw.0 != 0 || raw.1 != 0 {
                    let x: i64 = clamp(self.mac_x + raw.0, opts.mac_w as i64);
                    let y: i64 = clamp(
                        self.mac_y + map_y(raw.1, opts.win_h, opts.mac_h),
                        opts.mac_h as i64,
                    );
                    self.mac_x = x;
                    self.mac_y = y;
                    let is_new = match self.last_sent {
                        Some(sent) => x != sent.0 || y != sent.1,
                        None => true,
                    };
                    let due = now_ns >= self.last_stream_ns && now_ns - self.last_stream_ns
                        >= STREAM_NS;
                    if is_new && due {
                        msg =
                        Some(CaptureMsg::CursorState { on_mac: true, x: x as u32, y: y as u32 });
                        self.last_sent = Some((x, y));
                        self.last_stream_ns = now_ns;
                    }
                }
                Frame { commands, msg, again: false }
            }
        }
    }
}

/// What is read at the start of a frame, and what is known by then.
pub struct Readings {
    pub opts: CaptureOptions,
    pub cursor: (i32, i32),
    pub raw: (i64, i64),
    pub now_ns: u64,
}

impl Seamless {
    /// The state after a run of frames.
    pub open spec fn after(self, frames: Seq<Readings>) -> Seamless
        decreases frames.len(),
    {
        if frames.len() == 0 {
            self
        } else {
            let f = frames.last();
            self.after(frames.drop_last()).next(f.opts, f.cursor, f.raw, f.now_ns)
        }
    }

    /// How many messages a run of frames sends.
    pub open spec fn messages(self, frames: Seq<Readings>) -> nat
        decreases frames.len(),
    {
        if frames.len() == 0 {
            0
        } else {
            let f = frames.last();
            let before = self.after(frames.drop_last());
            self.messages(frames.drop_last()) + if before.message(
                f.opts,
                f.cursor,
                f.raw,
                f.now_ns,
            ) is Some {
                1nat
            } else {
                0
            }
        }
    }

    /// The cursor stays on the Mac through a run of frames.
    pub open spec fn roams(self, frames: Seq<Readings>) -> bool {
        &&& self.on_mac
        &&& forall|i: int| 0 <= i <= frames.len() ==> (#[trigger] self.after(frames.take(i))).on_mac
    }
}

/// While the mouse rests, the logical cursor rests: no message is sent and the state stays as it
/// is, wherever the local cursor is found. In particular no change of screens sets off another.
pub proof fn resting_mouse_changes_nothing(
    s: Seamless,
    opts: CaptureOptions,
    cursor: (i32, i32),
    now_ns: u64,
)
    ensures
        s.next(opts, cursor, (0, 0), now_ns) == s,
        s.message(opts, cursor, (0, 0), now_ns) is None,
{
}

/// The cursor changes screens only at the shared edge and towards the other screen, and each
/// change is announced in the same frame.
pub proof fn screens_change_at_the_shared_edge(
    s: Seamless,
    opts: CaptureOptions,
    cursor: (i32, i32),
    raw: (i64, i64),
    now_ns: u64,
)
    requires
        s.frame_fits(opts, cursor, raw),
        s.next(opts, cursor, raw, now_ns).on_mac != s.on_mac,
    ensures
        !s.on_mac ==> raw.0 > 0 && driven(opts, cursor, raw).0 == right_edge(opts),
        s.on_mac ==> raw.0 < 0 && s.mac_x <= 0,
        s.message(opts, cursor, raw, now_ns) matches Some(
            CaptureMsg::CursorState { on_mac, x, .. },
        ) && on_mac != s.on_mac && x == 0,
{
}

/// Every position that is sent lies on the Mac's screen, its far edges counted in.
pub proof fn positions_are_on_the_mac(
    s: Seamless,
    opts: CaptureOptions,
    cursor: (i32, i32),
    raw: (i64, i64),
    now_ns: u64,
)
    ensures
        s.message(opts, cursor, raw, now_ns) matches Some(
            CaptureMsg::CursorState { x, y, .. },
        ) ==> x <= opts.mac_w && y <= opts.mac_h,
{
}

/// Movement beyond an edge of the Mac's screen is not saved up: pushed against the right edge, the
/// cursor follows the first movement back at once.
pub proof fn edge_does_not_save_up_movement(
    s: Seamless,
    opts: CaptureOptions,
    cursor: (i32, i32),
    out: i64,
    back: i64,
    now_ns: u64,
    then_ns: u64,
)
    requires
        s.on_mac,
        s.mac_x == opts.mac_w,
        0 < out,
        fits(s.mac_x + out),
        0 < back <= opts.mac_w,
    ensures
        ({
            let back_left = (-back) as i64;
            let pushed = s.next(opts, cursor, (out, 0), now_ns);
            &&& pushed.mac_x == opts.mac_w
            &&& pushed.next(opts, cursor, (back_left, 0), then_ns).mac_x == opts.mac_w - back
        }),
{
}

/// Positions are streamed at a bounded rate: through a run of frames on the Mac, the messages are
/// at least 16 milliseconds apart.
pub proof fn stream_is_throttled(s: Seamless, frames: Seq<Readings>)
    requires
        s.roams(frames),
    ensures
        s.messages(frames) * STREAM_NS <= s.after(frames).last_stream_ns - s.last_stream_ns,
        s.messages(frames) == 0 ==> s.after(frames).last_stream_ns == s.last_stream_ns,
    decreases frames.len(),
{
    if frames.len() > 0 {
        let init = frames.drop_last();
        assert forall|i: int| 0 <= i <= init.len() implies (#[trigger] s.after(
            init.take(i),
        )).on_mac by {
            assert(init.take(i) =~= frames.take(i));
        }
        stream_is_throttled(s, init);
        assert(frames.take(init.len() as int) =~= init);
        assert(frames.take(frames.len() as int) =~= frames);
    }
}

/// Heights keep their proportion: as long as the product of the height and the Mac's extent stays
/// below 2^51, the scaled height is the exact one with its fraction cut off. Where the exact one is
/// whole it may be one less, the quotient having been rounded down on the way. Upwards it is the
/// same as downwards.
pub proof fn heights_are_proportional(y: int, h: int, m: int)
    requires
        0 <= y,
        0 < h,
        0 < m,
        y * m < 0x8_0000_0000_0000,
    ensures
        (y * m) % h != 0 ==> scaled_y(y, h, m) == (y * m) / h,
        (y * m) / h - 1 <= scaled_y(y, h, m) <= (y * m) / h,
        0 <= scaled_y(y, h, m),
        scaled_y(-y, h, m) == -scaled_y(y, h, m),
{
    assert(y <= y * m) by (nonlinear_arith)
        requires
            0 <= y,
            0 < m,
    ;
    crate::binary64::small_integers_are_exact(y as nat);
    crate::binary64::product_truncates_near_exact(y as nat, h as nat, m as nat);
    assert((y * m) / h <= y * m) by (nonlinear_arith)
        requires
            0 <= y * m,
            0 < h,
    ;
    if y == 0 {
        assert((y * m) / h == 0) by (nonlinear_arith)
            requires
                y == 0,
                0 < h,
        ;
    }
}

/// The cursor enters the Mac's screen on the screen: at a height of at most the Mac's extent.
pub proof fn entry_is_on_the_mac(y: int, h: int, m: int)
    requires
        0 <= y <= h,
        0 < h,
        0 < m,
        y * m < 0x8_0000_0000_0000,
    ensures
        0 <= scaled_y(y, h, m) <= m,
{
    heights_are_proportional(y, h, m);
    assert((y * m) / h <= m) by (nonlinear_arith)
        requires
            0 <= y <= h,
            0 < h,
            0 < m,
    ;
}

/// Whether the local cursor is visible after a run of commands.
pub open spec fn visible(commands: Seq<CursorCommand>, before: bool) -> bool
    decreases commands.len(),
{
    if commands.len() == 0 {
        before
    } else {
        match commands.last() {
            CursorCommand::Hide => false,
            CursorCommand::Show => true,
            CursorCommand::MoveTo { .. } => visible(commands.drop_last(), before),
        }
    }
}

/// One cursor is visible: the local one exactly while the logical cursor is here, and the Mac's,
/// which follows the messages, exactly while it is there.
pub proof fn one_cursor_is_visible(
    s: Seamless,
    mac: crate::input::inject::macos::MacPointer,
    opts: CaptureOptions,
    cursor: (i32, i32),
    raw: (i64, i64),
    now_ns: u64,
)
    requires
        mac.shown == s.on_mac,
    ensures
        ({
            let next = s.next(opts, cursor, raw, now_ns);
            let mac = match s.message(opts, cursor, raw, now_ns) {
                Some(CaptureMsg::CursorState { on_mac, x, y }) => mac.placed(on_mac, x, y),
                _ => mac,
            };
            &&& visible(s.commands(opts, cursor, raw), !s.on_mac) == !next.on_mac
            &&& mac.shown == next.on_mac
        }),
{
    reveal_with_fuel(visible, 4);
    let commands = s.commands(opts, cursor, raw);
    match s.turn(opts, cursor, raw) {
        Turn::Enter => {
            assert(commands.drop_last().last() == CursorCommand::Hide);
        },
        Turn::Leave => {
            assert(commands.drop_last().last() == CursorCommand::Show);
        },
        _ => {},
    }
}

} // verus!
