use wipedicks::dicks::{
    draw_args, fill_run, generate, is_dick_byte, new_rng, push_dick, push_one, DickBuf,
    DickConfig, BALLS_SCALE,
};

fn test_cfg() -> DickConfig {
    DickConfig { shaft_min: 3, shaft_max: 8, jizz_min: 0, jizz_max: 3, balls_chance: 1 << 23 }
}

#[test]
fn fill_yields_exact_capacity() {
    let mut buf = DickBuf::new(test_cfg(), 4096).unwrap();
    buf.fill();
    assert_eq!(buf.as_bytes().len(), 4096);
}

#[test]
fn output_starts_with_eight() {
    let mut buf = DickBuf::new(test_cfg(), 64).unwrap();
    buf.fill();
    assert_eq!(buf.as_bytes()[0], b'8');
}

#[test]
fn fill_run_vectorized_matches_scalar() {
    let mut a = Vec::new();
    fill_run(&mut a, b'=', 100);
    assert_eq!(a.len(), 100);
    assert!(a.iter().all(|&b| b == b'='));
}

#[test]
fn fill_run_appends_after_existing_bytes() {
    let mut a = vec![b'x'];
    fill_run(&mut a, b'~', 33);
    assert_eq!(a.len(), 34);
    assert_eq!(a[0], b'x');
    assert!(a[1..].iter().all(|&b| b == b'~'));
    let mut e = vec![b'y'];
    fill_run(&mut e, b'~', 0);
    assert_eq!(e, vec![b'y']);
}

#[test]
fn alphabet_is_exactly_the_six_bytes() {
    let good: Vec<u8> = b"8=#D~ ".to_vec();
    for b in 0u8..=255 {
        assert_eq!(is_dick_byte(b), good.contains(&b), "byte {b}");
    }
}

#[test]
fn max_dick_len_formula() {
    assert_eq!(test_cfg().max_dick_len(), 1 + 1 + 8 + 1 + 3 + 1);
}

#[test]
fn fixed_shape_without_balls() {
    let cfg = DickConfig { shaft_min: 3, shaft_max: 3, jizz_min: 1, jizz_max: 1, balls_chance: 0 };
    let mut rng = new_rng().unwrap();
    let mut out = Vec::new();
    for _ in 0..20 {
        push_one(&mut rng, &cfg, &mut out);
    }
    assert_eq!(out, b"8===D~ ".repeat(20));
}

#[test]
fn fixed_shape_with_balls_always() {
    let cfg = DickConfig {
        shaft_min: 2,
        shaft_max: 2,
        jizz_min: 0,
        jizz_max: 0,
        balls_chance: BALLS_SCALE,
    };
    let mut rng = new_rng().unwrap();
    let mut out = Vec::new();
    for _ in 0..20 {
        push_one(&mut rng, &cfg, &mut out);
    }
    assert_eq!(out, b"8#==D ".repeat(20));
}

fn parse_dick(d: &[u8]) -> (bool, usize, usize) {
    assert_eq!(d[0], b'8');
    let mut i = 1;
    let balls = d[i] == b'#';
    if balls {
        i += 1;
    }
    let mut shaft = 0;
    while d[i] == b'=' {
        shaft += 1;
        i += 1;
    }
    assert_eq!(d[i], b'D');
    i += 1;
    let mut jizz = 0;
    while d[i] == b'~' {
        jizz += 1;
        i += 1;
    }
    assert_eq!(d[i], b' ');
    assert_eq!(i + 1, d.len());
    (balls, shaft, jizz)
}

#[test]
fn drawn_lengths_stay_in_their_ranges_and_vary() {
    let cfg = DickConfig { shaft_min: 1, shaft_max: 12, jizz_min: 0, jizz_max: 3, balls_chance: 1 << 23 };
    let mut rng = new_rng().unwrap();
    let mut shafts = std::collections::BTreeSet::new();
    let mut jizzes = std::collections::BTreeSet::new();
    let mut balls_seen = (false, false);
    for _ in 0..500 {
        let mut out = Vec::new();
        push_one(&mut rng, &cfg, &mut out);
        assert!(out.len() <= cfg.max_dick_len());
        let (b, s, j) = parse_dick(&out);
        assert!((1..=12).contains(&s));
        assert!(j <= 3);
        shafts.insert(s);
        jizzes.insert(j);
        if b {
            balls_seen.0 = true;
        } else {
            balls_seen.1 = true;
        }
    }
    assert!(shafts.len() > 1);
    assert!(jizzes.len() > 1);
    assert!(balls_seen.0 && balls_seen.1);
}

#[test]
fn generated_stream_is_all_dick_bytes() {
    let mut rng = new_rng().unwrap();
    let out = generate(&mut rng, &test_cfg(), 1000);
    assert_eq!(out.len(), 1000);
    assert_eq!(out[0], b'8');
    assert!(out.iter().all(|&b| is_dick_byte(b)));
    let empty = generate(&mut rng, &test_cfg(), 0);
    assert!(empty.is_empty());
}

#[test]
fn refill_keeps_capacity() {
    let mut buf = DickBuf::new(test_cfg(), 7).unwrap();
    buf.fill();
    buf.fill();
    assert_eq!(buf.as_bytes().len(), 7);
    assert!(buf.as_bytes().iter().all(|&b| is_dick_byte(b)));
}

#[test]
fn drawn_shape_is_assembled_exactly() {
    let mut out = b"x".to_vec();
    push_dick(&mut out, true, 3, 2);
    assert_eq!(out, b"x8#===D~~ ".to_vec());
    let mut out = Vec::new();
    push_dick(&mut out, false, 0, 0);
    assert_eq!(out, b"8D ".to_vec());
}

#[test]
fn chance_above_one_is_certain() {
    let cfg = DickConfig { shaft_min: 1, shaft_max: 1, jizz_min: 0, jizz_max: 0, balls_chance: u32::MAX };
    let mut rng = new_rng().unwrap();
    let mut out = Vec::new();
    for _ in 0..10 {
        push_one(&mut rng, &cfg, &mut out);
    }
    assert_eq!(out, b"8#=D ".repeat(10));
}

#[test]
fn buffer_with_a_given_generator() {
    let mut buf = DickBuf::with_rng(test_cfg(), 100, new_rng().unwrap());
    assert!(buf.as_bytes().is_empty());
    buf.fill();
    assert_eq!(buf.as_bytes().len(), 100);
}

#[test]
fn draws_get_the_configured_arguments() {
    let cfg = test_cfg();
    assert_eq!(draw_args(&cfg), (1 << 23, 3, 8, 0, 3));
    let certain = DickConfig { shaft_min: 1, shaft_max: 1, jizz_min: 2, jizz_max: 5, balls_chance: u32::MAX };
    assert_eq!(draw_args(&certain), (BALLS_SCALE, 1, 1, 2, 5));
    let never = DickConfig { balls_chance: 0, ..cfg };
    assert_eq!(draw_args(&never).0, 0);
}
