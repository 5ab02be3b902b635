use karcc::bitvec::{full_adder, full_subtractor};
use karcc::{
    Bit, BitCount, BitwiseReverse, BitwiseRotate, Bool, Byte, Either, Nibble, NumError, Word, N16,
    N32, N64, N8, R32, R64, Z16, Z32, Z64, Z8,
};

fn bit(x: u8) -> Bit {
    if x == 1 {
        Bit::One
    } else {
        Bit::Zero
    }
}

#[test]
fn bit_truth_tables() {
    for a in 0..2u8 {
        for b in 0..2u8 {
            let (x, y) = (bit(a), bit(b));
            assert_eq!(x.and(&y), bit(a & b));
            assert_eq!(x.or(&y), bit(a | b));
            assert_eq!(x.xor(&y), bit(a ^ b));
            assert_eq!(x.nand(&y), bit(1 - (a & b)));
            assert_eq!(x.nor(&y), bit(1 - (a | b)));
            assert_eq!(x.xnor(&y), bit(1 - (a ^ b)));
            assert_eq!(x.is(&y), Bool::new(a == b));
        }
    }
    assert_eq!(Bit::One.xor(&Bit::One), Bit::Zero);
    assert_eq!(Bit::Zero.not(), Bit::One);
    assert!(Bit::Zero < Bit::One);
}

#[test]
fn bit_and_bool_conversions() {
    assert_eq!(Bit::One.as_bool(), Bool::True);
    assert_eq!(Bit::Zero.as_bool(), Bool::False);
    assert_eq!(Bit::from_bool(Bool::True), Bit::One);
    assert_eq!(Bit::from_bool(Bool::False), Bit::Zero);
    assert_eq!(Bit::Zero.is_zero(), Bool::True);
    assert_eq!(Bit::One.is_zero(), Bool::False);
    assert_eq!(Bit::One.is_one(), Bool::True);
    assert_eq!(u8::from(Bit::One), 1);
    assert_eq!(u8::from(Bit::Zero), 0);
    assert_eq!(Bit::One.to_string(), "1");
    assert_eq!(Bit::Zero.to_string(), "0");
}

#[test]
fn bool_logic() {
    let t = Bool::True;
    let f = Bool::False;
    assert_eq!(t.not(), f);
    assert_eq!(t.and(&f), f);
    assert_eq!(t.and(&t), t);
    assert_eq!(t.or(&f), t);
    assert_eq!(f.or(&f), f);
    assert_eq!(t.xor(&t), f);
    assert_eq!(t.xor(&f), t);
    assert!(t.to_bool());
    assert_eq!(t.to_string(), "true");
    assert_eq!(f.to_string(), "false");
}

#[test]
fn full_adder_table() {
    for a in 0..2u8 {
        for b in 0..2u8 {
            for c in 0..2u8 {
                let (s, carry) = full_adder(bit(a), bit(b), bit(c));
                let total = a + b + c;
                assert_eq!(s, bit(total % 2));
                assert_eq!(carry, bit(total / 2));
            }
        }
    }
}

#[test]
fn full_subtractor_table() {
    for a in 0..2i8 {
        for b in 0..2i8 {
            for c in 0..2i8 {
                let (d, borrow) = full_subtractor(bit(a as u8), bit(b as u8), bit(c as u8));
                let diff = a - b - c;
                let borrow_out: i8 = if diff < 0 { 1 } else { 0 };
                assert_eq!(d, bit((diff + 2 * borrow_out) as u8));
                assert_eq!(borrow, bit(borrow_out as u8));
            }
        }
    }
}

#[test]
fn round_trip_each_family() {
    for v in [0u32, 1, 0x8000_0000, u32::MAX, 123456789] {
        assert_eq!(N32::from(v).to_u32(), v);
    }
    for v in [0u64, 1, u64::MAX, 1 << 63] {
        assert_eq!(u64::from(N64::from(v)), v);
    }
    for v in [i32::MIN, -1, 0, 1, i32::MAX] {
        assert_eq!(i32::from(Z32::from(v)), v);
    }
    for v in [i64::MIN, -1, 0, 1, i64::MAX] {
        assert_eq!(Z64::from(v).to_i64(), v);
    }
    for v in [0u32, 1, 0x7f80_0001, u32::MAX] {
        assert_eq!(R32::from_bits(v).to_bits(), v);
    }
}

#[test]
fn unsigned_wraparound() {
    assert_eq!(N8::from(255).add(&N8::from(1)).to_u8(), 0);
    assert_eq!(N8::from(0).sub(&N8::from(1)).to_u8(), 255);
    assert_eq!(N16::from(u16::MAX).add(&N16::from(2)).to_u16(), 1);
    assert_eq!(N32::from(0).sub(&N32::from(5)).to_u32(), u32::MAX - 4);
    assert_eq!(N64::from(u64::MAX).add(&N64::from(u64::MAX)).to_u64(), u64::MAX - 1);
    assert_eq!(N8::from(16).mul(&N8::from(17)).to_u8(), 16);
    assert_eq!(N64::from(1 << 40).mul(&N64::from(1 << 30)).to_u64(), 0);
}

#[test]
fn u8_add_sub_match_native_everywhere() {
    for a in 0..=255u8 {
        for b in 0..=255u8 {
            let (x, y) = (N8::from(a), N8::from(b));
            assert_eq!(x.add(&y).to_u8(), a.wrapping_add(b));
            assert_eq!(x.sub(&y).to_u8(), a.wrapping_sub(b));
        }
    }
}

#[test]
fn i8_add_sub_match_native_everywhere() {
    for a in i8::MIN..=i8::MAX {
        for b in i8::MIN..=i8::MAX {
            let (x, y) = (Z8::from(a), Z8::from(b));
            assert_eq!(x.add(&y).to_i8(), a.wrapping_add(b));
            assert_eq!(x.sub(&y).to_i8(), a.wrapping_sub(b));
            assert_eq!(x.mul(&y).to_i8(), a.wrapping_mul(b));
        }
    }
}

#[test]
fn wide_add_sub_match_native() {
    let samples: [u64; 6] = [0, 1, 0xdead_beef, 1 << 63, u64::MAX, 0x0123_4567_89ab_cdef];
    for &a in &samples {
        for &b in &samples {
            assert_eq!(N64::from(a).add(&N64::from(b)).to_u64(), a.wrapping_add(b));
            assert_eq!(N64::from(a).sub(&N64::from(b)).to_u64(), a.wrapping_sub(b));
            assert_eq!(N64::from(a).mul(&N64::from(b)).to_u64(), a.wrapping_mul(b));
            let (sa, sb) = (a as i64, b as i64);
            assert_eq!(Z64::from(sa).add(&Z64::from(sb)).to_i64(), sa.wrapping_add(sb));
            assert_eq!(Z64::from(sa).sub(&Z64::from(sb)).to_i64(), sa.wrapping_sub(sb));
            assert_eq!(Z64::from(sa).mul(&Z64::from(sb)).to_i64(), sa.wrapping_mul(sb));
            let (ua, ub) = (a as u32, b as u32);
            assert_eq!(N32::from(ua).add(&N32::from(ub)).to_u32(), ua.wrapping_add(ub));
            let (ia, ib) = (a as i16, b as i16);
            assert_eq!(Z16::from(ia).sub(&Z16::from(ib)).to_i16(), ia.wrapping_sub(ib));
        }
    }
}

#[test]
fn signed_wraparound() {
    assert_eq!(Z8::from(127).add(&Z8::from(1)).to_i8(), -128);
    assert_eq!(Z8::from(-128).sub(&Z8::from(1)).to_i8(), 127);
    assert_eq!(Z16::from(i16::MAX).add(&Z16::from(1)).to_i16(), i16::MIN);
    assert_eq!(Z32::from(i32::MIN).sub(&Z32::from(1)).to_i32(), i32::MAX);
}

#[test]
fn signed_division_truncates() {
    assert_eq!(Z8::from(-7).div(&Z8::from(2)).unwrap().to_i8(), -3);
    assert_eq!(Z8::from(-7).rem(&Z8::from(2)).unwrap().to_i8(), -1);
    assert_eq!(Z8::from(7).div(&Z8::from(-2)).unwrap().to_i8(), -3);
    assert_eq!(Z8::from(7).rem(&Z8::from(-2)).unwrap().to_i8(), 1);
    assert_eq!(Z8::from(-7).div(&Z8::from(-2)).unwrap().to_i8(), 3);
    assert_eq!(Z8::from(-128).div(&Z8::from(-1)).unwrap().to_i8(), -128);
    assert_eq!(Z8::from(-128).rem(&Z8::from(-1)).unwrap().to_i8(), 0);
    assert_eq!(Z64::from(i64::MIN).div(&Z64::from(-1)).unwrap().to_i64(), i64::MIN);
    assert_eq!(Z64::from(i64::MIN).rem(&Z64::from(-1)).unwrap().to_i64(), 0);
    assert_eq!(Z32::from(-2000).div(&Z32::from(300)).unwrap().to_i32(), -6);
    assert_eq!(Z32::from(-2000).rem(&Z32::from(300)).unwrap().to_i32(), -200);
}

#[test]
fn unsigned_division_and_remainder() {
    assert_eq!(N8::from(200).div(&N8::from(7)).unwrap().to_u8(), 28);
    assert_eq!(N8::from(200).rem(&N8::from(7)).unwrap().to_u8(), 4);
    assert_eq!(N32::from(2000).rem(&N32::from(300)).unwrap().to_u32(), 200);
    assert_eq!(N64::from(u64::MAX).div(&N64::from(2)).unwrap().to_u64(), u64::MAX / 2);
}

#[test]
fn division_by_zero_fails_for_every_integer_type() {
    let e = NumError::DivisionByZero;
    assert_eq!(N8::from(1).div(&N8::from(0)).unwrap_err(), e);
    assert_eq!(N16::from(1).div(&N16::from(0)).unwrap_err(), e);
    assert_eq!(N32::from(1).div(&N32::from(0)).unwrap_err(), e);
    assert_eq!(N64::from(1).div(&N64::from(0)).unwrap_err(), e);
    assert_eq!(Z8::from(1).div(&Z8::from(0)).unwrap_err(), e);
    assert_eq!(Z16::from(1).div(&Z16::from(0)).unwrap_err(), e);
    assert_eq!(Z32::from(1).div(&Z32::from(0)).unwrap_err(), e);
    assert_eq!(Z64::from(1).div(&Z64::from(0)).unwrap_err(), e);
    assert_eq!(N8::from(1).rem(&N8::from(0)).unwrap_err(), e);
    assert_eq!(N64::from(1).rem(&N64::from(0)).unwrap_err(), e);
    assert_eq!(Z8::from(1).rem(&Z8::from(0)).unwrap_err(), e);
    assert_eq!(Z64::from(1).rem(&Z64::from(0)).unwrap_err(), e);
}

#[test]
fn rotation_identity() {
    for v in [0u8, 1, 0b1100_1010, 0x80, 0xff, 0x5a] {
        for k in 0..40u32 {
            let mut n = N8::from(v);
            n.rotate_left(k);
            n.rotate_right(k);
            assert_eq!(n.to_u8(), v);
            let mut p = N8::from(v);
            p.rotate_left(k);
            let mut q = N8::from(v);
            q.rotate_left(k % 8);
            assert_eq!(p, q);
            assert_eq!(p.to_u8(), v.rotate_left(k));
        }
    }
    for k in 0..70u32 {
        let mut n = N64::from(0x0123_4567_89ab_cdefu64);
        n.rotate_right(k);
        assert_eq!(n.to_u64(), 0x0123_4567_89ab_cdefu64.rotate_right(k));
    }
    let b = Byte::new(N8::from(0b1100_1010).bits);
    assert_eq!(b.rotate_left(10).rotate_right(10), b);
    assert_eq!(b.rotate_left(3), b.rotate_left(11));
}

#[test]
fn shift_saturation() {
    assert_eq!(N8::from(0xff).shift_left(8).to_u8(), 0);
    assert_eq!(N8::from(0xff).shift_right(8).to_u8(), 0);
    assert_eq!(N16::from(0xffff).shift_left(16).to_u16(), 0);
    assert_eq!(N32::from(u32::MAX).shift_right(32).to_u32(), 0);
    assert_eq!(N64::from(u64::MAX).shift_left(64).to_u64(), 0);
    assert_eq!(N64::from(u64::MAX).shift_right(200).to_u64(), 0);
    assert_eq!(N8::from(0b0000_0011).shift_left(3).to_u8(), 0b0001_1000);
    assert_eq!(N8::from(0b1100_0000).shift_right(6).to_u8(), 0b0000_0011);
    assert_eq!(N16::from(0x1234).shift_left(4).to_u16(), 0x2340);
    let all = Byte::new([Bit::One; 8]);
    assert_eq!(all.shift_left(8), Byte::new([Bit::Zero; 8]));
    assert_eq!(all.shift_right(9), Byte::new([Bit::Zero; 8]));
    assert_eq!(Nibble::new([Bit::One; 4]).shift_left(1).to_string(), "1110");
    assert_eq!(Word::new([Bit::One; 16]).shift_right(12).to_string(), "0000000000001111");
}

#[test]
fn population_count() {
    for v in [0u8, 1, 0b1101_0101, 0xff, 0x80] {
        let n = N8::from(v);
        assert_eq!(n.count_ones(), v.count_ones());
        assert_eq!(n.count_ones() + n.count_zeros(), 8);
    }
    let n = N64::from(0xf0f0_0000_0000_0001u64);
    assert_eq!(n.count_ones(), 9);
    assert_eq!(n.count_zeros(), 55);
    let w = N32::from(0);
    assert_eq!(w.count_ones() + w.count_zeros(), 32);
}

#[test]
fn bit_reversal_involution() {
    for v in [0u16, 1, 0xcaca, 0x8001, 0xffff, 0x1234] {
        let mut n = N16::from(v);
        n.reverse_bits();
        assert_eq!(n.to_u16(), v.reverse_bits());
        n.reverse_bits();
        assert_eq!(n.to_u16(), v);
    }
    let mut n = N64::from(1u64);
    n.reverse_bits();
    assert_eq!(n.to_u64(), 1u64 << 63);
}

#[test]
fn float_bit_fidelity() {
    let values = [
        123.456789_f64,
        f64::INFINITY,
        f64::NEG_INFINITY,
        -0.0,
        f64::MIN_POSITIVE / 4.0,
        f64::from_bits(0x7ff8_0000_0000_1234),
        f64::from_bits(0xfff0_0000_0000_0001),
    ];
    for v in values {
        let r = R64::from_bits(v.to_bits());
        assert_eq!(f64::from_bits(r.to_bits()).to_bits(), v.to_bits());
    }
    let nan = f32::from_bits(0x7fc0_0abc);
    assert_eq!(R32::from_bits(nan.to_bits()).to_bits(), 0x7fc0_0abc);
    let neg_zero = R32::from_bits((-0.0f32).to_bits());
    assert_eq!(neg_zero.bits[31], Bit::One);
}

#[test]
fn parsing_binary_text() {
    assert_eq!(N8::parse("101").unwrap().to_u8(), 5);
    assert_eq!("101".parse::<N8>().unwrap().to_u8(), 5);
    assert_eq!(N8::parse("11111111").unwrap().to_u8(), 255);
    assert_eq!(N8::parse("").unwrap().to_u8(), 0);
    assert_eq!(N8::parse("111111111"), Err(NumError::ParseError));
    assert_eq!(N8::parse("102"), Err(NumError::ParseError));
    assert_eq!(N8::parse("1 1"), Err(NumError::ParseError));
    assert_eq!(N16::parse("1000000000000000").unwrap().to_u16(), 0x8000);
    assert_eq!(N32::parse("2"), Err(NumError::ParseError));
    assert_eq!(N64::parse(&"1".repeat(64)).unwrap().to_u64(), u64::MAX);
    assert_eq!(N64::parse(&"1".repeat(65)), Err(NumError::ParseError));
}

#[test]
fn reverse_and_rotate_scenario() {
    let mut n = N8::from(0b1100_1010);
    n.reverse_bits();
    assert_eq!(n.to_u8(), 0b0101_0011);
    let mut m = N8::from(0b1100_1010);
    m.rotate_left(2);
    assert_eq!(m.to_u8(), 0b0010_1011);
}

#[test]
fn container_bits() {
    let mut b = Byte::new([Bit::Zero; 8]);
    assert_eq!(b.set_bit(0, Bit::One), Ok(()));
    assert_eq!(b.set_bit(7, Bit::One), Ok(()));
    assert_eq!(b.set_bit(8, Bit::One), Err(NumError::IndexOutOfRange));
    assert_eq!(b.get_bit(0), Ok(Bit::One));
    assert_eq!(b.get_bit(1), Ok(Bit::Zero));
    assert_eq!(b.get_bit(8), Err(NumError::IndexOutOfRange));
    assert_eq!(b.to_string(), "10000001");
    assert_eq!(b.get_bits()[7], Bit::One);
    b.invert();
    assert_eq!(b.to_string(), "01111110");
    let mut n = Nibble::new([Bit::Zero; 4]);
    assert_eq!(n.set_bit(4, Bit::One), Err(NumError::IndexOutOfRange));
    assert_eq!(n.get_bit(3), Ok(Bit::Zero));
    let w = Word::new([Bit::Zero; 16]);
    assert_eq!(w.get_bit(16), Err(NumError::IndexOutOfRange));
}

#[test]
fn container_logic() {
    let a = Byte::new(N8::from(0b1100_1010).bits);
    let b = Byte::new(N8::from(0b1010_0110).bits);
    assert_eq!(a.and(&b).to_string(), "10000010");
    assert_eq!(a.or(&b).to_string(), "11101110");
    assert_eq!(a.xor(&b).to_string(), "01101100");
    assert_eq!(a.not().to_string(), "00110101");
    let n = Nibble::from_bit_slice(&[Bit::One, Bit::One]);
    assert_eq!(n.to_string(), "0011");
    let m = Nibble::from_bit_slice(&[Bit::Zero, Bit::One, Bit::Zero, Bit::One, Bit::One]);
    assert_eq!(m.to_string(), "1010");
    assert_eq!(Byte::from_bit_slice(&[]).to_string(), "00000000");
    assert_eq!(N8::from(0b1100_1010).as_byte(), a);
}

#[test]
fn decimal_rendering() {
    assert_eq!(N8::from(255).to_string(), "255");
    assert_eq!(N8::from(0).to_string(), "0");
    assert_eq!(N64::from(u64::MAX).to_string(), "18446744073709551615");
    assert_eq!(Z8::from(-128).to_string(), "-128");
    assert_eq!(Z16::from(-1001).to_string(), "-1001");
    assert_eq!(Z64::from(i64::MIN).to_string(), "-9223372036854775808");
    assert_eq!(Z32::from(100000).to_string(), "100000");
}

#[test]
fn ordering_by_magnitude() {
    assert!(N8::from(200) > N8::from(100));
    assert!(N8::from(1) < N8::from(128));
    assert!(N16::from(256) > N16::from(255));
    assert!(N64::from(u64::MAX) > N64::from(0));
    assert_eq!(N32::from(7).partial_cmp(&N32::from(7)), Some(std::cmp::Ordering::Equal));
}

#[test]
fn signed_not_and_zero() {
    assert_eq!(Z8::from(-1).not().to_i8(), 0);
    assert_eq!(Z8::from(i8::MIN).not().to_i8(), i8::MAX);
    assert_eq!(Z64::from(0).not().to_i64(), -1);
    assert_eq!(N16::zero().to_u16(), 0);
    assert_eq!(N32::zero().to_u32(), 0);
    assert_eq!(N8::new_from_bits([Bit::One; 8]).to_u8(), 255);
    assert_eq!(N8::new([Bit::One; 8]), N8::from(255));
    assert_eq!(Z8::new([Bit::One; 8]).to_i8(), -1);
}

#[test]
fn either_maps_one_side() {
    let l: Either<u8, bool> = Either::Left(3);
    match l.map_left(|x| x + 1) {
        Either::Left(v) => assert_eq!(v, 4),
        Either::Right(_) => panic!("left became right"),
    }
    let r: Either<u8, bool> = Either::Right(true);
    match r.map_left(|x| x + 1) {
        Either::Right(v) => assert!(v),
        Either::Left(_) => panic!("right became left"),
    }
    let r2: Either<u8, bool> = Either::Right(true);
    match r2.map_right(|b| !b) {
        Either::Right(v) => assert!(!v),
        Either::Left(_) => panic!("right became left"),
    }
}
