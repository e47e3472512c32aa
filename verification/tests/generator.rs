use minesweeper::random::XORShift;

#[test]
fn first_outputs_are_the_known_ones() {
    let mut rng = XORShift::new();
    let expected: [u32; 10] = [
        3701687786, 458299110, 2500872618, 3633119408, 516391518, 2377269574, 2599949379,
        717229868, 137866584, 395339113,
    ];
    for value in expected {
        assert_eq!(rng.next(), value);
    }
}

#[test]
fn fresh_generators_agree() {
    let mut first = XORShift::new();
    let mut second = XORShift::new();
    for _ in 0..10 {
        assert_eq!(first.next(), second.next());
    }
}

#[test]
fn a_generator_that_is_ahead_disagrees() {
    let mut first = XORShift::new();
    let mut second = XORShift::new();
    first.next();
    assert_ne!(first.next(), second.next());
}

#[test]
fn one_step_mixes_the_seed() {
    // t = x ^ (x << 11), then w ^ (w >> 19) ^ t ^ (t >> 8), on the seed words.
    let x: u32 = 123456789;
    let w: u32 = 88675123;
    let t = x ^ (x << 11);
    let expected = w ^ (w >> 19) ^ (t ^ (t >> 8));
    assert_eq!(XORShift::new().next(), expected);
}
