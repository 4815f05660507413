use froklog::chat::relationship::{
    RelDynamic, Relationship, GAIN, LEVEL_10, LEVEL_45, LEVEL_60, LEVEL_65, LEVEL_72, LOSS,
};
use froklog::single::{minus, over, plus, times, ONE, THREE_TENTHS, TOO_LARGE};

// Bits that are spread over all sizes of numbers.
fn spread(count: usize) -> Vec<u32> {
    let mut x: u64 = 0x1234_5678_9abc_def1;
    let mut out = vec![0, 1, 2, 0x7f_ffff, 0x80_0000, 0xff_ffff, 0x100_0000, ONE, ONE - 1, ONE + 1];
    for i in 0..count {
        x ^= x << 13;
        x ^= x >> 7;
        x ^= x << 17;
        // half of them near one another
        let bits = if i % 2 == 0 {
            (x >> 20) as u32 % TOO_LARGE
        } else {
            0x3e00_0000 + (x >> 20) as u32 % 0x0300_0000
        };
        out.push(bits);
    }
    out
}

#[test]
fn sums_are_those_of_floats() {
    let all = spread(400);
    for &x in &all {
        for &y in &all {
            let (a, b) = (f32::from_bits(x), f32::from_bits(y));
            assert_eq!(plus(x, y), (a + b).to_bits(), "{x:x} {y:x}");
            if y <= x {
                assert_eq!(minus(x, y), (a - b).to_bits(), "{x:x} {y:x}");
            }
        }
    }
}

#[test]
fn products_are_those_of_floats() {
    let all = spread(400);
    for &x in &all {
        for &y in &all {
            if y <= ONE {
                let (a, b) = (f32::from_bits(x), f32::from_bits(y));
                assert_eq!(times(x, y), (a * b).to_bits(), "{x:x} {y:x}");
            }
        }
        for n in [1u32, 2, 3, 7, 10, 1000, 0xff_fffd, 0x100_0000] {
            assert_eq!(over(x, n), (f32::from_bits(x) / n as f32).to_bits(), "{x:x} {n}");
        }
    }
}

#[test]
fn levels_are_floats() {
    assert_eq!((ONE, THREE_TENTHS), (1.0f32.to_bits(), 0.30f32.to_bits()));
    assert_eq!((GAIN, LOSS), (0.05f32.to_bits(), 0.08f32.to_bits()));
    assert_eq!((LEVEL_10, LEVEL_45), (0.10f32.to_bits(), 0.45f32.to_bits()));
    assert_eq!((LEVEL_60, LEVEL_65), (0.60f32.to_bits(), 0.65f32.to_bits()));
    assert_eq!(LEVEL_72, 0.72f32.to_bits());
    let duo = Relationship::new(RelDynamic::EstablishedDuo);
    assert_eq!((duo.trust, duo.rapport), (0.90f32.to_bits(), 0.70f32.to_bits()));
    let mates = Relationship::new(RelDynamic::Teammates);
    assert_eq!((mates.trust, mates.familiarity), (0.55f32.to_bits(), 0.50f32.to_bits()));
    let rivals = Relationship::new(RelDynamic::Rivals);
    assert_eq!((rivals.trust, rivals.familiarity), (0.40f32.to_bits(), 0.72f32.to_bits()));
}

#[test]
fn rapport_moves_as_floats_do() {
    for &start in &spread(300) {
        if start > ONE {
            continue;
        }
        for trust in [0u32, 1, LEVEL_10, LEVEL_60, ONE] {
            let mut r = Relationship::new(RelDynamic::Teammates);
            r.rapport = start;
            r.trust = trust;
            let mut f = f32::from_bits(start);
            let t = f32::from_bits(trust);
            for step in 0..12 {
                if step % 4 == 1 {
                    r.on_positive_interaction();
                    f = (f + 0.05).min(1.0);
                } else if step % 4 == 3 {
                    r.on_friction();
                    f = (f - 0.08).max(0.0);
                } else {
                    r.session_decay();
                    f += (t - f) * 0.30;
                }
                assert_eq!(r.rapport, f.to_bits(), "{start:x} {trust:x} {step}");
            }
        }
    }
}
