use mc_utils::rand::bedrock::legacy::{init_hash, java_string_hash, Legacy};
use mc_utils::rand::bedrock::util::position_seed_of;
use mc_utils::util::Point3D;

const SEED: i64 = -763922862008843532;

#[test]
fn draws_of_seed_42() {
    let mut r = Legacy::new(42);
    assert_eq!(r.next(32), -1170105035);
    assert_eq!(r.next(24), 917130);
    assert_eq!(r.next(48), -1142848144);
    assert_eq!(r.next(0), 0);
    assert_eq!(r.next64(), 5694868678511409995);
}

#[test]
fn next64_wraps_around() {
    let mut r = Legacy::new(-1);
    assert_eq!(r.next64(), 4961115982468162243);
    assert_eq!(r.next64(), 226341162490527646);
}

#[test]
fn next64_is_two_draws_of_32_bits() {
    for seed in [0i64, 1, 2345, SEED, i64::MIN, i64::MAX] {
        let mut a = Legacy::new(seed);
        let mut b = Legacy::new(seed);
        for _ in 0..50 {
            let top = b.next(32) as i64;
            let bot = b.next(32) as i64;
            assert_eq!(a.next64(), (top << 32).wrapping_add(bot));
        }
    }
}

#[test]
fn string_hash() {
    assert_eq!(java_string_hash(b""), 0);
    assert_eq!(java_string_hash(b"a"), 97);
    assert_eq!(java_string_hash(b"octave_0"), 1261148513);
    assert_eq!(java_string_hash(b"minecraft:bedrock_floor"), 2042456806);
}

#[test]
fn init_hash_xors_the_first_draw_with_the_hash() {
    let mut e = init_hash(SEED, b"minecraft:bedrock_floor");
    assert_eq!(e.next(24), 4664807);

    let mut seeder = Legacy::new(SEED);
    let mut same = Legacy::new(seeder.next64() ^ 2042456806);
    let mut again = init_hash(SEED, b"minecraft:bedrock_floor");
    assert_eq!(same.next64(), again.next64());
}

#[test]
fn position_seed_values() {
    assert_eq!(position_seed_of(Point3D { x: 0, y: 0, z: 0 }), 0);
    assert_eq!(position_seed_of(Point3D { x: 1, y: 2, z: 3 }), -33674130277896);
    assert_eq!(position_seed_of(Point3D { x: -1, y: 4, z: 1 }), 61045006758181);
    assert_eq!(
        position_seed_of(Point3D { x: 30000000, y: -64, z: -30000000 }),
        -24471499170916
    );
    assert_eq!(
        position_seed_of(Point3D { x: i32::MIN, y: i32::MAX, z: i32::MIN }),
        67595401200261
    );
    // z * 116129781 goes beyond 32 bits from |z| = 19 on, and wraps around
    assert_eq!(position_seed_of(Point3D { x: 0, y: 0, z: 19 }), -80395387804571);
}

#[test]
fn positional_reseed() {
    let r = Legacy::new(7);
    let mut e = r.at(Point3D { x: 1, y: 2, z: 3 });
    assert_eq!(e.next(24), 9156470);
}

#[test]
fn init_forks_from_the_next_draw() {
    let mut r = Legacy::new(7);
    let mut f = Legacy::init(&mut r);
    let mut r2 = Legacy::new(7);
    let mut f2 = Legacy::new(r2.next64());
    assert_eq!(f.next64(), f2.next64());
    assert_eq!(r.next64(), r2.next64());
}
