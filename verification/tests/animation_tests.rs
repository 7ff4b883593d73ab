use augenblick::animation::{
    color_channels, fill_lid_pixels, lid_buffer, lid_thickness, place_lids, pool_len, Blink,
    BlinkStep, LidSurfaces, FRAME_MS, HOLD_MS, SETTLE_MS,
};
use augenblick::backend::{detect, DisplayServer};

fn steps(frames: u32) -> Vec<BlinkStep> {
    let mut b = Blink::new(frames);
    let mut out = Vec::new();
    loop {
        let s = b.next_step();
        if s == BlinkStep::Done {
            break;
        }
        out.push(s);
    }
    out
}

#[test]
fn blink_schedule_two_frames() {
    let s = steps(2);
    let f = |closing: bool, frame: u32| BlinkStep::Frame { closing, frame, frames: 2 };
    assert_eq!(
        s,
        vec![f(true, 0), f(true, 1), f(true, 2), BlinkStep::Hold, f(false, 0), f(false, 1), f(false, 2)]
    );
}

#[test]
fn blink_schedule_length() {
    for frames in [0u32, 1, 20, 100].iter() {
        assert_eq!(steps(*frames).len() as u64, 2 * (*frames as u64) + 3);
    }
    assert_eq!(steps(0), vec![
        BlinkStep::Frame { closing: true, frame: 0, frames: 0 },
        BlinkStep::Hold,
        BlinkStep::Frame { closing: false, frame: 0, frames: 0 },
    ]);
}

#[test]
fn blink_stays_done() {
    let mut b = Blink::new(1);
    for _ in 0..5 {
        b.next_step();
    }
    assert_eq!(b.next_step(), BlinkStep::Done);
    assert_eq!(b.next_step(), BlinkStep::Done);
}

#[test]
fn timing_constants() {
    assert_eq!(FRAME_MS, 16);
    assert_eq!(HOLD_MS, 150);
    assert_eq!(SETTLE_MS, 50);
}

#[test]
fn lids_are_placed() {
    let p = place_lids(1080, 540);
    assert_eq!(p.height, 540);
    assert_eq!(p.bottom_y, 540);
    let p = place_lids(1080, 0);
    assert_eq!(p.height, 1);
    assert_eq!(p.bottom_y, 1079);
    let p = place_lids(1, 0);
    assert_eq!(p.height, 1);
    assert_eq!(p.bottom_y, 0);
    assert_eq!(lid_thickness(0), 1);
    assert_eq!(lid_thickness(7), 7);
}

#[test]
fn lids_stay_apart() {
    for h in 2u16..50 {
        for raw in 0..=h / 2 {
            let p = place_lids(h, raw);
            assert!(p.height as i32 <= p.bottom_y);
            assert_eq!(p.bottom_y + p.height as i32, h as i32);
        }
    }
}

#[test]
fn channels_of_a_color() {
    assert_eq!(color_channels(0x123456), (0x12, 0x34, 0x56));
    assert_eq!(color_channels(0xFF0000), (0xFF, 0, 0));
    assert_eq!(color_channels(0), (0, 0, 0));
    let (r, g, b) = color_channels(0xabcdef);
    assert_eq!((r as u32) << 16 | (g as u32) << 8 | b as u32, 0xabcdef);
}

#[test]
fn pixels_are_filled() {
    let mut canvas = vec![7u8; 10];
    fill_lid_pixels(&mut canvas, 0x112233);
    assert_eq!(canvas, vec![0x33, 0x22, 0x11, 0xFF, 0x33, 0x22, 0x11, 0xFF, 7, 7]);
    let mut empty: Vec<u8> = Vec::new();
    fill_lid_pixels(&mut empty, 0xFFFFFF);
    assert!(empty.is_empty());
}

#[test]
fn buffers_for_lids() {
    assert!(lid_buffer(0, 10).is_none());
    assert!(lid_buffer(10, 0).is_none());
    assert!(lid_buffer(0, u32::MAX).is_none());
    assert!(lid_buffer(u32::MAX, 0).is_none());
    let b = lid_buffer(1920, 540).unwrap();
    assert_eq!((b.width, b.height, b.stride), (1920, 540, 7680));
    assert_eq!(pool_len(1920, 1080), 1920 * 1080 * 4);
}

#[test]
fn surfaces_become_ready() {
    let mut s = LidSurfaces::new();
    assert!(!s.ready());
    s.configure(false, false, 5, 5);
    assert!(!s.ready());
    s.configure(true, false, 1920, 1080);
    assert_eq!((s.screen_width, s.screen_height), (1920, 1080));
    assert!(!s.ready());
    s.configure(false, true, 1920, 1);
    assert!(s.ready());
    assert_eq!((s.screen_width, s.screen_height), (1920, 1080));
    s.configure(true, false, 1280, 720);
    assert!(s.ready());
    assert_eq!((s.screen_width, s.screen_height), (1280, 720));
}

#[test]
fn display_server_detection() {
    assert_eq!(detect(true, true), Ok(DisplayServer::Wayland));
    assert_eq!(detect(true, false), Ok(DisplayServer::Wayland));
    assert_eq!(detect(false, true), Ok(DisplayServer::X11));
    assert_eq!(
        detect(false, false),
        Err("no display found: neither WAYLAND_DISPLAY nor DISPLAY is set".to_string())
    );
}
