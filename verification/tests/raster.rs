use thinkbook_eink::clock::{seconds_to_next_minute, BacksideConfig, Config as ClockConfig};
use thinkbook_eink::raster::{corner_box, dashed_hline, dashed_hline_fits, rotate180, scanlines, Segment};
use thinkbook_eink::server::Theme;

#[test]
fn rotate_by_half_a_turn() {
    let img: Vec<u8> = vec![1, 2, 3, 4, 5, 6];
    let r = rotate180(&img, 3, 2);
    assert_eq!(r, vec![6, 5, 4, 3, 2, 1]);
    assert_eq!(r[(2 - 1 - 0) * 3 + (3 - 1 - 0)], img[0]);
    assert_eq!(rotate180(&r, 3, 2), img);
    assert!(rotate180(&vec![], 0, 5).is_empty());
}

#[test]
fn scanlines_cover_the_dashboard_region_only() {
    let (w, h) = (1921usize, 1079usize);
    let mut px = vec![100u8; w * h];
    px[0] = 5;
    px[2 * w + 3] = 250;
    scanlines(&mut px, w as u32, h as u32, true);
    assert_eq!(px[0], 0);
    assert_eq!(px[1], 90);
    assert_eq!(px[1919], 90);
    assert_eq!(px[1920], 100);
    assert_eq!(px[w + 5], 100);
    assert_eq!(px[2 * w + 3], 240);
    assert_eq!(px[1078 * w + 7], 90);
    let mut px = vec![250u8; w * h];
    scanlines(&mut px, w as u32, h as u32, false);
    assert_eq!(px[0], 255);
    assert_eq!(px[w], 250);
    assert_eq!(px[1920], 250);
}

#[test]
fn corner_brackets() {
    let s = corner_box(40, 198, 100, 50, 18);
    assert_eq!(s.len(), 8);
    assert_eq!(s[0], Segment { x1: 40, y1: 198, x2: 58, y2: 198 });
    assert_eq!(s[3], Segment { x1: 140, y1: 198, x2: 140, y2: 216 });
    assert_eq!(s[7], Segment { x1: 140, y1: 230, x2: 140, y2: 248 });
}

#[test]
fn dashed_rules() {
    let d = dashed_hline(0, 40, 7);
    assert_eq!(
        d,
        vec![
            Segment { x1: 0, y1: 7, x2: 12, y2: 7 },
            Segment { x1: 18, y1: 7, x2: 30, y2: 7 },
            Segment { x1: 36, y1: 7, x2: 40, y2: 7 },
        ]
    );
    assert!(dashed_hline(10, 10, 0).is_empty());
    assert!(dashed_hline(20, 10, 0).is_empty());
    assert_eq!(dashed_hline(0, 18, 0).len(), 1);
    assert_eq!(dashed_hline(0, 19, 0).len(), 2);
    assert!(dashed_hline(i32::MAX, 5, 0).is_empty());
    assert!(dashed_hline_fits(i32::MAX, i32::MIN));
    assert!(dashed_hline_fits(i32::MAX - 18, i32::MAX - 17));
    assert!(!dashed_hline_fits(i32::MAX - 17, i32::MAX - 16));
    assert!(!dashed_hline_fits(0, i32::MAX));
    let near_top = dashed_hline(i32::MAX - 30, i32::MAX - 20, 3);
    assert_eq!(near_top, vec![Segment { x1: i32::MAX - 30, y1: 3, x2: i32::MAX - 20, y2: 3 }]);
}

#[test]
fn clock_settings() {
    let mut c = ClockConfig { flip: None, theme: None };
    assert_eq!(c.colors(), (10, 245));
    assert!(!c.is_flipped());
    c.theme = Some(Theme::Light);
    assert_eq!(c.colors(), (230, 0));
    c.flip = Some(true);
    assert!(c.is_flipped());
    assert_eq!(seconds_to_next_minute(0), 60);
    assert_eq!(seconds_to_next_minute(59), 1);
    assert!(!BacksideConfig { flip: None }.is_flipped());
    assert!(BacksideConfig { flip: Some(true) }.is_flipped());
    assert!(!BacksideConfig { flip: Some(false) }.is_flipped());
}
