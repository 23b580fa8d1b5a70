use crosslink::net::protocol::Transfer;
use crosslink::switch::{
    compute_transfer, dist_to_seam, seam_park_pos, Edge, Handover, MonitorPoll, Side, Switch,
};

#[test]
fn seam_mapping_right() {
    let (cx, _cy, ex, ey) =
        compute_transfer(Edge::Right, 1919, 540, 1920, 1080, 1440, 900).unwrap();
    assert_eq!(cx, 1919);
    assert_eq!(ex, 0);
    assert_eq!(ey, 450);
}

#[test]
fn seam_mapping_left() {
    let (cx, _cy, ex, ey) = compute_transfer(Edge::Left, 0, 450, 1440, 900, 1920, 1080).unwrap();
    assert_eq!(cx, 0);
    assert_eq!(ex, 1919);
    assert_eq!(ey, 540);
}

#[test]
fn dist_to_seam_right() {
    assert_eq!(dist_to_seam(Edge::Right, 1919, 0, 1920, 1080), 0);
    assert_eq!(dist_to_seam(Edge::Right, 1000, 0, 1920, 1080), 919);
}

#[test]
fn map_clamps() {
    assert_eq!(crosslink::switch::map(0, 1920, 1440), 0);
    assert_eq!(crosslink::switch::map(1919, 1920, 1440), 1439);
    assert_eq!(crosslink::switch::map(100, 0, 100), 0);
}

#[test]
fn map_agrees_with_double_precision() {
    let sizes = [1, 2, 3, 7, 720, 900, 1080, 1440, 1920, 3840, 65537, 1 << 30, i32::MAX];
    let values = [
        i32::MIN, -7, -1, 0, 1, 2, 5, 39, 541, 1079, 1919, 4000, 123_457, 1 << 29, i32::MAX,
    ];
    for from in sizes {
        for to in sizes {
            for v in values {
                let r = (v as f64 * to as f64 / from as f64).round() as i32;
                assert_eq!(crosslink::switch::map(v, from, to), r.clamp(0, to - 1), "{} {} {}", v, from, to);
            }
            for v in 0..500 {
                let r = (v as f64 * to as f64 / from as f64).round() as i32;
                assert_eq!(crosslink::switch::map(v, from, to), r.clamp(0, to - 1), "{} {} {}", v, from, to);
            }
        }
    }
}

#[test]
fn scaling_is_proportional_on_values() {
    assert_eq!(crosslink::switch::map(540, 1080, 900), 450);
    assert_eq!(crosslink::switch::map(1, 4, 2), 1);
    assert_eq!(crosslink::switch::map(1, 3, 2), 1);
    assert_eq!(crosslink::switch::map(1, 5, 2), 0);
    assert_eq!(crosslink::switch::map(1079, 1080, 1080), 1079);
}

#[test]
fn distances_of_the_other_edges() {
    assert_eq!(dist_to_seam(Edge::Right, 5000, 0, 1920, 1080), 0);
    assert_eq!(dist_to_seam(Edge::Left, -3, 0, 1920, 1080), 0);
    assert_eq!(dist_to_seam(Edge::Left, 17, 0, 1920, 1080), 17);
    assert_eq!(dist_to_seam(Edge::Top, 9, 40, 1920, 1080), 40);
    assert_eq!(dist_to_seam(Edge::Bottom, 9, 1000, 1920, 1080), 79);
}

#[test]
fn parks_in_the_middle_of_the_seam() {
    assert_eq!(seam_park_pos(Side::Right, 1920, 1080), (1919, 540));
    assert_eq!(seam_park_pos(Side::Left, 1920, 1080), (0, 540));
    assert_eq!(seam_park_pos(Side::Top, 1920, 1080), (960, 0));
    assert_eq!(seam_park_pos(Side::Bottom, 1921, 1081), (960, 1080));
    assert_eq!(seam_park_pos(Side::Left, 1, u32::MAX - 4), (0, -2));
}

#[test]
fn vertical_crossings() {
    assert_eq!(
        compute_transfer(Edge::Top, 960, 2, 1920, 1080, 1440, 900),
        Some((960, 0, 720, 899))
    );
    assert_eq!(
        compute_transfer(Edge::Bottom, 960, 1079, 1920, 1080, 1440, 900),
        Some((960, 1079, 720, 0))
    );
}

#[test]
fn client_parks_and_server_does_not() {
    let server = Switch::new(Side::Right, true, 1920, 1080);
    assert_eq!(server.park(), None);
    assert!(server.owning && server.armed);
    let client = Switch::new(Side::Left, false, 1440, 900);
    assert_eq!(client.park(), Some((0, 450)));
    assert!(!client.owning && !client.armed);
}

#[test]
fn unknown_geometry_idles() {
    let mut s = Switch::new(Side::Right, true, 1920, 1080);
    assert_eq!(s.monitor_poll(), MonitorPoll::Sleep { ms: 50 });
    s.set_peer_geom(1440, 0);
    assert_eq!(s.monitor_poll(), MonitorPoll::Sleep { ms: 50 });
    s.set_peer_geom(1440, 900);
    assert_eq!(s.monitor_poll(), MonitorPoll::ReadCursor);
    let t = Switch::new(Side::Left, false, 1440, 900);
    assert_eq!(t.monitor_poll(), MonitorPoll::Sleep { ms: 5 });
    let (w, h) = crosslink::input::screen::screen_size();
    let mut blank = Switch::new(Side::Right, true, w, h);
    blank.set_peer_geom(1440, 900);
    assert_eq!(blank.monitor_poll(), MonitorPoll::Sleep { ms: 50 });
}

#[test]
fn the_pointer_roams_there_and_back() {
    let mut a = Switch::new(Side::Right, true, 1920, 1080);
    let mut b = Switch::new(Side::Left, false, 1440, 900);
    a.set_peer_geom(1440, 900);
    b.set_peer_geom(1920, 1080);

    assert!(a.can_step(1000, 300));
    assert_eq!(a.monitor_step(1000, 300), None);
    assert_eq!(a.monitor_step(1914, 300), None);
    let left = a.monitor_step(1915, 540);
    assert_eq!(
        left,
        Some(Handover {
            clamp_x: 1919,
            clamp_y: 540,
            transfer: Transfer { entry_x: 0, entry_y: 450 },
        })
    );
    assert!(!a.owning && !a.armed);
    let t = left.unwrap().transfer;
    assert_eq!(b.on_receive(t.entry_x, t.entry_y), (0, 450));
    assert!(b.owning && !b.armed);

    // at the seam and near it nothing happens until the cursor has been away
    assert_eq!(b.monitor_step(0, 450), None);
    assert_eq!(b.monitor_step(12, 450), None);
    assert!(!b.armed);
    assert_eq!(b.monitor_step(2, 450), None);
    assert_eq!(b.monitor_step(13, 450), None);
    assert!(b.armed);
    assert_eq!(b.monitor_step(5, 450), None);
    let back = b.monitor_step(4, 450).expect("crosses");
    assert_eq!(back.clamp_x, 0);
    assert_eq!(back.transfer, Transfer { entry_x: 1919, entry_y: 540 });
    assert_eq!(a.on_receive(1919, 540), (1919, 540));
    assert!(a.owning && !b.owning);
}

#[test]
fn extreme_cursors_are_told_apart() {
    let mut s = Switch::new(Side::Right, true, 1920, 1080);
    s.set_peer_geom(1440, 900);
    assert!(!s.can_step(i32::MIN, 0));
    assert!(s.can_step(i32::MAX, 0));
    assert!(s.can_step(0, i32::MIN));
}

#[test]
fn a_peer_too_wide_to_cross_to_stops_crossings_only() {
    let mut s = Switch::new(Side::Left, false, 1440, 900);
    s.set_peer_geom(0x8000_0000, 1080);
    s.on_receive(0, 450);
    assert!(s.can_step(0, 450));
    assert_eq!(s.monitor_step(0, 450), None);
    assert!(s.can_step(13, 450));
    assert_eq!(s.monitor_step(13, 450), None);
    assert!(s.armed);
    assert!(s.can_step(5, 450));
    assert_eq!(s.monitor_step(5, 450), None);
    assert!(!s.can_step(4, 450));
    assert!(!s.can_step(-9, 450));
}

#[test]
fn entry_beyond_the_signed_range_wraps() {
    let mut s = Switch::new(Side::Left, false, 1440, 900);
    assert_eq!(s.on_receive(u32::MAX, 5), (-1, 5));
    assert_eq!((s.cursor_x, s.cursor_y), (-1, 5));
}

#[test]
fn a_crossing_lands_on_the_peer_seam() {
    for (seam, back) in [
        (Edge::Right, Edge::Left),
        (Edge::Left, Edge::Right),
        (Edge::Top, Edge::Bottom),
        (Edge::Bottom, Edge::Top),
    ] {
        for (x, y) in [(0, 0), (1919, 1079), (-50, 4000), (700, 1)] {
            let (cx, cy, ex, ey) =
                compute_transfer(seam, x, y, 1920, 1080, 1440, 900).unwrap();
            assert!(ex < 1440 && ey < 900);
            assert_eq!(dist_to_seam(back, ex as i32, ey as i32, 1440, 900), 0);
            assert_eq!(dist_to_seam(seam, cx, cy, 1920, 1080), 0);
        }
    }
}

#[test]
fn the_pointer_does_not_drift() {
    for (from, to) in [(900, 1080), (1080, 1080), (1440, 1920), (768, 2160)] {
        for v in 0..from {
            let there = crosslink::switch::map(v, from, to);
            assert_eq!(crosslink::switch::map(there, to, from), v, "{} of {} to {}", v, from, to);
        }
    }
}

#[test]
fn parking_needs_a_last_pixel() {
    assert!(crosslink::switch::can_park(Side::Right, 1920, 1080));
    assert!(crosslink::switch::can_park(Side::Right, 0, 0));
    assert!(!crosslink::switch::can_park(Side::Right, 0x8000_0000, 1080));
    assert!(crosslink::switch::can_park(Side::Left, 0x8000_0000, 1080));
    assert!(!crosslink::switch::can_park(Side::Bottom, 1920, 0x8000_0000));
}

#[test]
fn transfers_follow_arrivals_and_distance() {
    let mut s = Switch::new(Side::Left, false, 1440, 900);
    s.set_peer_geom(1920, 1080);
    let mut seed: u32 = 12345;
    let (mut held, mut away) = (false, false);
    let mut sent = 0;
    for _ in 0..20_000 {
        seed = seed.wrapping_mul(1664525).wrapping_add(1013904223);
        let pick = seed >> 16;
        if pick % 11 == 0 {
            s.on_receive(0, 450);
            held = true;
            away = false;
        } else if s.monitor_poll() == MonitorPoll::ReadCursor {
            // at most two pixels beyond the distance that arms the crossing
            let x = (pick % 15) as i32;
            if s.monitor_step(x, 450).is_some() {
                assert!(held && away && x <= 4);
                held = false;
                sent += 1;
            }
            away = away || x > 12;
        } else {
            assert!(!s.owning && !held);
        }
    }
    assert!(sent > 100);
}
