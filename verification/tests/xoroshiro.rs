use mc_utils::rand::bedrock::xoroshiro::{
    init, init_from_digest, init_hash, mix, PosRandom, Xoroshiro, X_CONST_1, X_CONST_2,
};
use mc_utils::util::Point3D;

const SEED: i64 = -763922862008843532;

#[test]
fn test_xoroshiro_zero() {
    let mut xoroshiro = Xoroshiro::new([0, 0]);

    assert_eq!(xoroshiro.next64(), 0);
    assert_eq!(xoroshiro.next64(), 0);
    assert_eq!(xoroshiro.next64(), 0);
}

#[test]
fn test_xoroshiro_one() {
    let mut xoroshiro = Xoroshiro::new([1, 1]);

    assert_eq!(xoroshiro.next64(), 262145);
    assert_eq!(xoroshiro.next64(), 562949953421316);
    assert_eq!(xoroshiro.next64(), 2814768020717572);
}

#[test]
fn test_xoroshiro() {
    let mut xoroshiro = Xoroshiro::new([0xdeadface, 0xbabecafe]);

    assert_eq!(xoroshiro.next64(), 900338597362382);
    assert_eq!(xoroshiro.next64(), 6945472615245579534);
    assert_eq!(xoroshiro.next64(), 5153013030208307428);
}

#[test]
fn xoroshiro_test_xoroshiro_zero() {
    let mut xoroshiro = Xoroshiro::new([0, 0]);

    assert_eq!(xoroshiro.next64(), 0);
    assert_eq!(xoroshiro.next64(), 0);
    assert_eq!(xoroshiro.next64(), 0);
}

#[test]
fn xoroshiro_test_xoroshiro_one() {
    let mut xoroshiro = Xoroshiro::new([1, 1]);

    assert_eq!(xoroshiro.next64(), 262145);
    assert_eq!(xoroshiro.next64(), 562949953421316);
    assert_eq!(xoroshiro.next64(), 2814768020717572);
}

#[test]
fn xoroshiro_test_xoroshiro() {
    let mut xoroshiro = Xoroshiro::new([0xdeadface, 0xbabecafe]);

    assert_eq!(xoroshiro.next64(), 900338597362382);
    assert_eq!(xoroshiro.next64(), 6945472615245579534);
    assert_eq!(xoroshiro.next64(), 5153013030208307428);
}

#[test]
fn init_replaces_the_zero_state() {
    let mut e = init([0, 0]);
    let mut same = Xoroshiro::new([X_CONST_1, X_CONST_2]);
    assert_eq!(X_CONST_1, 7640891576956012809);
    assert_eq!(X_CONST_2, 11400714819323198485);
    assert_eq!(e.next64(), 3048035857114651019);
    assert_eq!(same.next64(), 3048035857114651019);
}

#[test]
fn init_keeps_every_other_state() {
    let mut a = init([0, 1]);
    let mut b = Xoroshiro::new([0, 1]);
    assert_eq!(a.next64(), b.next64());
    let mut c = init([1, 0]);
    let mut d = Xoroshiro::new([1, 0]);
    assert_eq!(c.next64(), d.next64());
}

#[test]
fn mix_values() {
    assert_eq!(mix(0), 0);
    assert_eq!(mix(1), 6238072747940578789);
    assert_eq!(mix(0xdeadbeef), 5622224078331092714);
}

#[test]
fn next_takes_the_top_bits() {
    let mut x = Xoroshiro::new([5, 9]);
    assert_eq!(x.next(24), 0);
    assert_eq!(x.next(32), 754432);
    assert_eq!(x.next(1), 0);
    // three steps were made
    let mut y = Xoroshiro::new([615357161574834956, 4611697222935978753]);
    assert_eq!(x.next64(), y.next64());
}

#[test]
fn next24_is_the_top_of_next64() {
    let mut a = Xoroshiro::new([0xdeadface, 0xbabecafe]);
    let mut b = Xoroshiro::new([0xdeadface, 0xbabecafe]);
    for _ in 0..100 {
        let n = a.next24();
        assert!(n < (1 << 24));
        assert_eq!(n as u64, b.next64() >> 40);
    }
}

#[test]
fn init_hash_depends_on_the_digest_of_the_label() {
    let mut e = init_hash(SEED, "minecraft:bedrock_floor".as_bytes());
    let mut expected = Xoroshiro::new([16269810474004531208, 8555040623213574285]);
    assert_eq!(e.next64(), expected.next64());
    assert_eq!(e.next64(), expected.next64());

    let mut e = init_hash(0, b"");
    let mut expected = Xoroshiro::new([18316465489887355770, 2683067099570471180]);
    assert_eq!(e.next64(), expected.next64());
    assert_eq!(e.next64(), expected.next64());
}

#[test]
fn init_hash_is_init_from_the_md5_digest() {
    let digest: [u8; 16] =
        [142, 189, 74, 29, 19, 29, 113, 204, 201, 132, 207, 187, 104, 74, 38, 196];
    let mut a = init_hash(SEED, b"minecraft:bedrock_roof");
    let mut b = init_from_digest(SEED, &digest);
    assert_eq!(a.next64(), b.next64());
    assert_eq!(a.next64(), b.next64());
}

#[test]
fn init_from_digest_reads_the_digest_most_significant_byte_first() {
    let digest: [u8; 16] = [0, 1, 2, 3, 4, 5, 6, 7, 8, 9, 10, 11, 12, 13, 14, 15];
    let mut e = init_from_digest(99, &digest);
    let mut expected = Xoroshiro::new([1454168355954329101, 3678710749965958184]);
    assert_eq!(e.next64(), expected.next64());
    assert_eq!(e.next64(), expected.next64());
}

#[test]
fn positional_engine() {
    let mut rand = init_hash(SEED, b"minecraft:bedrock_roof");
    let pos = PosRandom::new(&mut rand);
    let mut e = pos.at(Point3D { x: 0, y: 123, z: 0 });
    let mut expected = Xoroshiro::new([8732977907699588214, 3645453872102451411]);
    let mut copy = expected;
    assert_eq!(e.next64(), expected.next64());
    assert_eq!(copy.next24(), 8744756);
}

#[test]
fn init_and_at_agree_with_the_positional_seed() {
    let mut a = init_hash(SEED, b"minecraft:bedrock_roof");
    let mut b = init_hash(SEED, b"minecraft:bedrock_roof");
    let forked = Xoroshiro::init(&mut a);
    let pos = PosRandom::new(&mut b);
    let p = Point3D { x: -17, y: 5, z: 1234 };
    let mut e = forked.at(p);
    let mut f = pos.at(p);
    assert_eq!(e.next64(), f.next64());
    assert_eq!(a.next64(), b.next64());
}

#[test]
fn next_of_more_than_32_bits_keeps_the_low_32() {
    let mut a = Xoroshiro::new([0xdeadface, 0xbabecafe]);
    let mut b = Xoroshiro::new([0xdeadface, 0xbabecafe]);
    for bits in [33u8, 40, 48, 63, 64] {
        let out = b.next64();
        assert_eq!(a.next(bits), (out >> (64 - bits)) as i32);
    }
}
