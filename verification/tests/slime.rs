use mc_utils::rand::is_slimechunk;
use mc_utils::rand::is_slimechunk_inline;
use mc_utils::slime;

const SEED: i64 = -763922862008843532;

#[test]
fn test_slimechunk_1() {
    assert!(is_slimechunk(1, 2, -1))
}

#[test]
fn test_slimechunk_2() {
    assert!(is_slimechunk(1, -3, 0))
}

#[test]
fn test_slimechunk_3() {
    assert!(is_slimechunk(-763922862008843532, 0, -1))
}

#[test]
fn test_slimechunk_4() {
    assert!(is_slimechunk(-763922862008843532, 0, -2))
}

#[test]
fn test_slimechunk_5() {
    assert!(is_slimechunk(-763922862008843532, 1, 1))
}

#[test]
fn test_slimechunk_6() {
    assert!(is_slimechunk(-763922862008843532, -1, -1))
}

#[test]
fn test_slimechunk_7() {
    assert!(is_slimechunk(-763922862008843532, -2, -1))
}

#[test]
fn test_not_slimechunk() {
    assert!(!is_slimechunk(-763922862008843532, 0, 0));
    assert!(!is_slimechunk(-763922862008843532, -1, 0));
    assert!(!is_slimechunk(-763922862008843532, -2, 0));
    assert!(!is_slimechunk(-763922862008843532, -3, 0));
    assert!(!is_slimechunk(-763922862008843532, -4, 0));
}

#[test]
fn slime_test_slimechunk_1() {
    assert!(slime::is_slimechunk(1, 2, -1))
}

#[test]
fn slime_test_slimechunk_2() {
    assert!(slime::is_slimechunk(1, -3, 0))
}

#[test]
fn slime_test_slimechunk_3() {
    assert!(slime::is_slimechunk(-763922862008843532, 0, -1))
}

#[test]
fn slime_test_slimechunk_4() {
    assert!(slime::is_slimechunk(-763922862008843532, 0, -2))
}

#[test]
fn slime_test_slimechunk_5() {
    assert!(slime::is_slimechunk(-763922862008843532, 1, 1))
}

#[test]
fn slime_test_slimechunk_6() {
    assert!(slime::is_slimechunk(-763922862008843532, -1, -1))
}

#[test]
fn slime_test_slimechunk_7() {
    assert!(slime::is_slimechunk(-763922862008843532, -2, -1))
}

#[test]
fn slime_test_not_slimechunk() {
    assert!(!slime::is_slimechunk(-763922862008843532, 0, 0));
    assert!(!slime::is_slimechunk(-763922862008843532, -1, 0));
    assert!(!slime::is_slimechunk(-763922862008843532, -2, 0));
    assert!(!slime::is_slimechunk(-763922862008843532, -3, 0));
    assert!(!slime::is_slimechunk(-763922862008843532, -4, 0));
}

/// The reference formulation: one step of the engine, then the 31-bit draw
/// reduced modulo ten.
fn by_division(seed: i64, x: i32, z: i32) -> bool {
    let a = x.wrapping_mul(x).wrapping_mul(0x4c1906);
    let b = x.wrapping_mul(0x5ac0db);
    let c = z.wrapping_mul(z).wrapping_mul(0x4307a7);
    let d = z.wrapping_mul(0x5f24f);
    let mixed = seed
        .wrapping_add(a as i64)
        .wrapping_add(b as i64)
        .wrapping_add(c as i64)
        .wrapping_add(d as i64)
        ^ 0x3ad8025f;
    let start = ((mixed as u64) ^ 0x5DEECE66D) & 0xFFFF_FFFF_FFFF;
    let state = (start.wrapping_mul(0x5DEECE66D).wrapping_add(0xB)) & 0xFFFF_FFFF_FFFF;
    (state >> 17) % 10 == 0
}

#[test]
fn formulations_agree_on_a_grid() {
    for seed in [0i64, 1, -1, SEED, i64::MAX, i64::MIN] {
        for x in -40..40 {
            for z in -40..40 {
                let expected = by_division(seed, x, z);
                assert_eq!(is_slimechunk(seed, x, z), expected);
                assert_eq!(is_slimechunk_inline(seed, x, z), expected);
            }
        }
    }
}

#[test]
fn formulations_agree_at_the_edges_of_the_coordinates() {
    for seed in [0i64, SEED, i64::MAX, i64::MIN] {
        for x in [i32::MIN, i32::MIN + 1, -3_750_000, 3_750_000, i32::MAX - 1, i32::MAX] {
            for z in [i32::MIN, -46341, 46341, i32::MAX] {
                let expected = by_division(seed, x, z);
                assert_eq!(is_slimechunk(seed, x, z), expected);
                assert_eq!(is_slimechunk_inline(seed, x, z), expected);
            }
        }
    }
}

#[test]
fn about_a_tenth_of_the_chunks_are_slime_chunks() {
    let mut count = 0;
    for x in 0..100 {
        for z in 0..100 {
            if is_slimechunk(SEED, x, z) {
                count += 1;
            }
        }
    }
    assert!(900 < count && count < 1100, "{count}");
}

#[test]
fn bounded_draw_agrees_where_it_keeps_its_first_draw() {
    for x in -30..30 {
        for z in -30..30 {
            assert_eq!(slime::is_slimechunk(SEED, x, z), is_slimechunk(SEED, x, z));
        }
    }
}

#[test]
fn bounded_draw_differs_where_it_rejects_its_first_draw() {
    // the first draw of this seed is 2147483640, a multiple of ten among the
    // eight draws that the bounded draw rejects
    let seed = 157027223767060;
    assert!(is_slimechunk(seed, 0, 0));
    assert!(is_slimechunk_inline(seed, 0, 0));
    assert!(!slime::is_slimechunk(seed, 0, 0));
    // rejected first draws that are no multiple of ten
    assert!(!is_slimechunk(77439983061012, 0, 0));
    assert!(!slime::is_slimechunk(77439983061012, 0, 0));
    assert!(!is_slimechunk(162682881869844, 0, 0));
    assert!(!slime::is_slimechunk(162682881869844, 0, 0));
}

#[test]
fn every_product_wraps_around_in_32_bits() {
    // z * z * 0x4307a7 goes beyond 32 bits from |z| = 23 on
    assert!(!is_slimechunk(2, 1, 23));
    assert!(!is_slimechunk_inline(2, 1, 23));
    assert!(!by_division(2, 1, 23));
}
