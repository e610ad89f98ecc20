use smart_led_effects::fire::heat_to_colour;
use smart_led_effects::effect::Scripted;
use smart_led_effects::{BitSource, EffectIterator, Fire, RGB8};

/// A linear congruential generator: a fixed, replayable bit source.
struct Lcg(u32);

impl BitSource for Lcg {
    fn next_u32(&mut self) -> u32 {
        self.0 = self.0.wrapping_mul(1664525).wrapping_add(1013904223);
        self.0
    }
}

fn black() -> RGB8 {
    RGB8 { r: 0, g: 0, b: 0 }
}

#[test]
fn heat_colour_ramps() {
    assert_eq!(heat_to_colour(0), black());
    assert_eq!(heat_to_colour(10), RGB8 { r: 30, g: 0, b: 0 });
    assert_eq!(heat_to_colour(0x3f), RGB8 { r: 189, g: 0, b: 0 });
    assert_eq!(heat_to_colour(0x40), RGB8 { r: 255, g: 0, b: 0 });
    assert_eq!(heat_to_colour(0x50), RGB8 { r: 255, g: 48, b: 0 });
    assert_eq!(heat_to_colour(0x84), RGB8 { r: 255, g: 204, b: 0 });
    assert_eq!(heat_to_colour(0x85), RGB8 { r: 255, g: 255, b: 0 });
    assert_eq!(heat_to_colour(160), RGB8 { r: 255, g: 255, b: 81 });
    assert_eq!(heat_to_colour(255), RGB8 { r: 255, g: 255, b: 255 });
}

#[test]
fn cooling_scales_with_length() {
    let f: Fire<50, Lcg> = Fire::new(Lcg(1), None, None);
    assert_eq!(f.cooling(), 10);
    assert_eq!(f.sparking(), 120);
    let f: Fire<10, Lcg> = Fire::new(Lcg(1), Some(100), Some(3));
    assert_eq!(f.cooling(), 102);
    assert_eq!(f.sparking(), 3);
    let f: Fire<1, Lcg> = Fire::new(Lcg(1), Some(255), None);
    assert_eq!(f.cooling(), 255);
    let f: Fire<0, Lcg> = Fire::new(Lcg(1), None, None);
    assert_eq!(f.cooling(), 255);
    assert_eq!(f.heat().len(), 0);
}

#[test]
fn spark_from_zero_draws() {
    let mut f: Fire<10, Scripted> = Fire::new(Scripted::new(vec![]), None, None);
    let mut buf = vec![black(); 10];
    assert_eq!(f.next_line(&mut buf, 0), Some(10));
    assert_eq!(f.heat()[0], 160);
    assert_eq!(buf[0], RGB8 { r: 255, g: 255, b: 81 });
    for i in 1..10 {
        assert_eq!(f.heat()[i], 0);
        assert_eq!(buf[i], black());
    }
}

#[test]
fn scripted_frame_cools_diffuses_and_sparks() {
    // Four cells, cooling 40 * 10 / 4 + 2 = 102: draws 0..3 cool, 4 tests
    // the spark (5 % 255 < 120), 5 places it (9 % 1 = 0), 6 sizes it.
    let mut f: Fire<4, Scripted> = Fire::new(Scripted::new(vec![1, 2, 3, 4, 5, 9, 94]), None, None);
    assert_eq!(f.cooling(), 102);
    let mut buf = vec![black(); 4];
    assert_eq!(f.next_line(&mut buf, 0), Some(4));
    assert_eq!(f.heat().clone(), vec![254, 0, 0, 0]);
    // Second frame: cooling takes 0 from every cell, cell 2 gets
    // (0 + 2 * 254) / 3 = 169, the spark test draws 0 and lands on cell 0.
    let mut f2: Fire<4, Scripted> = Fire::new(Scripted::new(vec![1, 2, 3, 4, 5, 9, 94, 0, 0, 0, 0, 300, 0, 0]), None, None);
    f2.next_line(&mut buf, 0);
    f2.next_line(&mut buf, 0);
    assert_eq!(f2.heat().clone(), vec![255, 0, 169, 0]);
}

#[test]
fn one_frame_fixture() {
    let mut f: Fire<50, Lcg> = Fire::new(Lcg(2), Some(40), Some(120));
    let mut buf = vec![black(); 50];
    assert_eq!(f.next_line(&mut buf, 16), Some(50));
    let mut expected = vec![0u8; 50];
    expected[6] = 200;
    assert_eq!(f.heat().clone(), expected);
    assert_eq!(buf[6], heat_to_colour(200));
}

#[test]
fn six_frame_fixture() {
    let mut f: Fire<50, Lcg> = Fire::new(Lcg(7), Some(40), Some(120));
    let mut buf = vec![black(); 50];
    for _ in 0..6 {
        f.next_line(&mut buf, 16);
    }
    let mut expected = vec![0u8; 50];
    expected[..8].copy_from_slice(&[255, 195, 187, 192, 174, 126, 85, 58]);
    assert_eq!(f.heat().clone(), expected);
    for i in 0..50 {
        assert_eq!(buf[i], heat_to_colour(expected[i]));
    }
}

#[test]
fn count_is_min_of_length_and_buffer() {
    let mut f: Fire<8, Lcg> = Fire::new(Lcg(3), None, None);
    let marker = RGB8 { r: 1, g: 2, b: 3 };
    let mut short = vec![marker; 5];
    assert_eq!(f.next_line(&mut short, 0), Some(5));
    assert_eq!(short.len(), 5);
    let mut long = vec![marker; 12];
    assert_eq!(f.next_line(&mut long, 0), Some(8));
    for i in 8..12 {
        assert_eq!(long[i], marker);
    }
    let mut empty: Vec<RGB8> = vec![];
    assert_eq!(f.next_line(&mut empty, 0), Some(0));
    assert_eq!(f.pixel_count(), 8);
    assert_eq!(f.name(), "Fire");
}

#[test]
fn heat_stays_in_range_over_many_frames() {
    let mut f: Fire<30, Lcg> = Fire::new(Lcg(99), Some(0), Some(255));
    let mut buf = vec![black(); 30];
    for _ in 0..200 {
        assert_eq!(f.next_line(&mut buf, 10), Some(30));
        assert_eq!(f.heat().len(), 30);
    }
    // With sparking at 255 nearly every frame sparks: the base stays hot.
    assert!(f.heat()[0] > 0 || f.heat()[1] > 0 || f.heat()[2] > 0 || f.heat()[3] > 0 || f.heat()[4] > 0);
}

#[test]
fn same_draws_same_frames() {
    let mut a: Fire<40, Lcg> = Fire::new(Lcg(5), None, None);
    let mut b: Fire<40, Lcg> = Fire::new(Lcg(5), None, None);
    let mut ba = vec![black(); 40];
    let mut bb = vec![black(); 40];
    for k in 0..50u32 {
        a.next_line(&mut ba, k);
        b.next_line(&mut bb, k);
        assert_eq!(ba, bb);
        assert_eq!(a.heat(), b.heat());
    }
}

#[test]
fn next_allocates_a_full_frame() {
    let mut f: Fire<10, Scripted> = Fire::new(Scripted::new(vec![]), None, None);
    let frame = f.next(0).unwrap();
    assert_eq!(frame.len(), 10);
    assert_eq!(frame[0], RGB8 { r: 255, g: 255, b: 81 });
    assert_eq!(frame[1], black());
}

#[test]
fn zero_source_recorded_frame() {
    let mut f: Fire<50, Scripted> = Fire::new(Scripted::new(vec![]), Some(40), Some(120));
    let mut buf = vec![black(); 50];
    assert_eq!(f.next_line(&mut buf, 0), Some(50));
    let mut expected = vec![0u8; 50];
    expected[0] = 160;
    assert_eq!(f.heat().clone(), expected);
    assert_eq!(buf[0], RGB8 { r: 255, g: 255, b: 81 });
    for i in 1..50 {
        assert_eq!(buf[i], black());
    }
}

#[test]
fn frame_takes_its_draws_in_order() {
    // Two cells (cooling 202): the two cooling words, then the spark test
    // 200 % 255 = 200, which does not fire with sparking 120; so the next
    // frame starts at word 3, whose cooling words 50 and 60 act on cold cells
    // and whose test word 0 fires, placing 160 + 5 on cell 1 % 1 = 0.
    let words = vec![7, 9, 200, 50, 60, 0, 1, 5];
    let mut f: Fire<2, Scripted> = Fire::new(Scripted::new(words), None, None);
    assert_eq!(f.cooling(), 202);
    let mut buf = vec![black(); 2];
    f.next_line(&mut buf, 0);
    assert_eq!(f.heat().clone(), vec![0, 0]);
    f.next_line(&mut buf, 0);
    assert_eq!(f.heat().clone(), vec![165, 0]);
}
