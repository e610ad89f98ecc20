use smart_led_effects::collision::{Collision, Particle};
use smart_led_effects::cylon::{Direction, Sweep};
use smart_led_effects::morse::Morse;
use smart_led_effects::registry::{get_all_default_effects, get_default_effect, list};
use smart_led_effects::wipe::Wipe;
use smart_led_effects::{EffectIterator, RGB8};

fn black() -> RGB8 {
    RGB8 { r: 0, g: 0, b: 0 }
}

#[test]
fn particle_sizes_and_steps() {
    let p = Particle::new(3, false, 7);
    assert_eq!(p.size, 2);
    assert_eq!(p.speed, 1);
    let mut q = p;
    q.step();
    assert_eq!(q.position, 4);
    let mut r = Particle::new(0, true, 0);
    r.step();
    assert_eq!(r.position, -1);
    let mut top = Particle::new(i32::MAX, false, 0);
    top.step();
    assert_eq!(top.position, i32::MAX);
}

#[test]
fn collide_within_one_unit() {
    let a = Particle::new(4, false, 0);
    let b = Particle::new(5, true, 1);
    let (l, r) = a.collide(&b).unwrap();
    assert!(l.reverse);
    assert!(!r.reverse);
    assert_eq!(l.position, 4);
    assert_eq!(r.size, 2);
    assert!(b.collide(&a).is_some());
    assert!(a.collide(&a).is_some());
    let far = Particle::new(6, true, 1);
    assert!(a.collide(&far).is_none());
    assert!(far.collide(&a).is_none());
}

#[test]
fn collision_meets_and_shatters() {
    let mut c: Collision<10> = Collision::new(None, 0, 1);
    assert_eq!(c.particle(0), Particle::new(0, false, 0));
    assert_eq!(c.particle(1), Particle::new(9, true, 1));
    for _ in 0..3 {
        assert!(!c.advance());
    }
    assert_eq!(c.particle(0).position, 3);
    assert_eq!(c.particle(1).position, 6);
    let mut plan = vec![None; 10];
    c.move_particles(&mut plan);
    let mut expected = vec![None; 10];
    expected[3] = Some(0);
    expected[6] = Some(1);
    expected[7] = Some(1);
    assert_eq!(plan, expected);
    assert!(c.advance());
    assert!(c.is_shattered());
    assert!(c.particle(0).reverse);
    assert!(!c.particle(1).reverse);
    // Motion stops during the explosion.
    assert!(!c.advance());
    assert_eq!(c.particle(0).position, 4);
    assert_eq!(c.particle(1).position, 5);
    c.reset(2, 0);
    assert!(!c.is_shattered());
    assert_eq!(c.particle(0), Particle::new(0, false, 2));
    assert_eq!(c.particle(1), Particle::new(9, true, 0));
}

#[test]
fn collision_without_shatter_exits() {
    let mut c: Collision<10> = Collision::new(Some(false), 0, 0);
    let mut hits = 0;
    let mut frames = 0;
    while !c.exited() {
        if c.advance() {
            hits += 1;
        }
        frames += 1;
        assert!(frames < 100);
    }
    assert_eq!(hits, 1);
    assert_eq!(frames, 9);
    assert!(!c.is_shattered());
    assert_eq!(c.particle(0).position, -1);
    assert_eq!(c.particle(1).position, 10);
}

#[test]
fn collision_plan_clips_to_strip() {
    let mut c: Collision<4> = Collision::new(Some(true), 2, 2);
    // Both particles are three long; only their on-strip pixels count, and
    // entries past the strip's length are left alone.
    let marker = Some(7usize);
    let mut plan = vec![marker; 6];
    c.move_particles(&mut plan);
    assert_eq!(plan, vec![Some(0), None, None, Some(1), marker, marker]);
    assert!(c.advance());
    let mut short = vec![None; 2];
    c.move_particles(&mut short);
    assert_eq!(short, vec![Some(1), Some(1)]);
    let mut full = vec![None; 4];
    c.move_particles(&mut full);
    assert_eq!(full, vec![Some(1), Some(1), Some(1), Some(0)]);
}

#[test]
fn direction_turns() {
    let mut d = Direction::Forward;
    d.next();
    assert_eq!(d, Direction::Backward);
    d.next();
    assert_eq!(d, Direction::Forward);
}

#[test]
fn sweep_bounces_between_ends() {
    let mut s: Sweep<6> = Sweep::new(None);
    assert!(s.in_eye(0) && s.in_eye(3) && !s.in_eye(4));
    assert_eq!(s.trail_distance(0), None);
    s.advance();
    s.advance();
    assert!(s.in_eye(5) && !s.in_eye(1));
    assert_eq!(s.trail_distance(0), Some(2));
    assert_eq!(s.trail_distance(2), Some(0));
    assert_eq!(s.trail_distance(3), None);
    s.advance();
    assert!(s.in_eye(5));
    assert_eq!(s.trail_distance(5), Some(0));
    assert_eq!(s.trail_distance(1), None);
    s.advance();
    assert!(s.in_eye(1) && !s.in_eye(5));
    let tiny: Sweep<0> = Sweep::new(Some(9));
    assert!(tiny.in_eye(0));
    let big: Sweep<3> = Sweep::new(Some(9));
    assert!(big.in_eye(0) && big.in_eye(2));
}

#[test]
fn morse_slides_message() {
    let data = [1u8, 0, 1];
    let mut m: Morse<3> = Morse::new_bits(&data, None, false);
    let red = RGB8 { r: 255, g: 0, b: 0 };
    let mut buf = vec![black(); 3];
    let mut frames = Vec::new();
    for _ in 0..8 {
        assert_eq!(m.next_line(&mut buf, 0), Some(3));
        frames.push(buf.clone());
    }
    assert_eq!(frames[0], vec![black(), black(), black()]);
    assert_eq!(frames[1], vec![black(), black(), red]);
    assert_eq!(frames[3], vec![red, black(), red]);
    assert_eq!(frames[6], vec![black(), black(), black()]);
    // After position 6 comes 0 again.
    assert_eq!(frames[7], frames[0]);
    assert_eq!(m.name(), "Morse");
    assert_eq!(m.pixel_count(), 3);
}

#[test]
fn morse_in_reverse() {
    let data = [1u8, 1];
    let green = RGB8 { r: 0, g: 255, b: 0 };
    let mut m: Morse<2> = Morse::new_bits(&data, Some(green), true);
    let mut buf = vec![black(); 2];
    m.next_line(&mut buf, 0);
    assert_eq!(buf, vec![black(), black()]);
    m.next_line(&mut buf, 0);
    assert_eq!(buf, vec![green, black()]);
    m.next_line(&mut buf, 0);
    assert_eq!(buf, vec![green, green]);
}

#[test]
fn wipe_slides_data() {
    let a = RGB8 { r: 1, g: 0, b: 0 };
    let b = RGB8 { r: 0, g: 2, b: 0 };
    let data = [a, b];
    let mut w: Wipe<2> = Wipe::new(&data, false);
    let mut buf = vec![black(); 2];
    let mut frames = Vec::new();
    for _ in 0..5 {
        assert_eq!(w.next_line(&mut buf, 0), Some(2));
        frames.push(buf.clone());
    }
    assert_eq!(frames[0], vec![black(), black()]);
    assert_eq!(frames[1], vec![black(), a]);
    assert_eq!(frames[2], vec![a, b]);
    assert_eq!(frames[3], vec![b, black()]);
    assert_eq!(frames[4], frames[0]);
    assert!(w.just_wrapped() == false);
}

#[test]
fn colour_wipe_fills_block() {
    let c = RGB8 { r: 9, g: 9, b: 9 };
    let mut w: Wipe<3> = Wipe::colour_wipe(Some(c), false);
    assert!(!w.is_random());
    let mut buf = vec![black(); 3];
    for _ in 0..4 {
        w.next_line(&mut buf, 0);
    }
    assert_eq!(buf, vec![c, c, c]);
    w.next_line(&mut buf, 0);
    w.next_line(&mut buf, 0);
    assert!(w.just_wrapped());
    let mut r: Wipe<3> = Wipe::colour_wipe(None, true);
    assert!(r.is_random());
    r.set_fill_colour(c);
    r.next_line(&mut buf, 0);
    assert_eq!(buf, vec![c, c, c]);
}

#[test]
fn registry_lists_names() {
    assert_eq!(list(), vec!["Breathe".to_string(), "Rainbow".to_string(), "SnowSparkle".to_string()]);
    assert!(get_default_effect(10, "Fire").is_none());
    assert!(get_all_default_effects(10).is_empty());
}
