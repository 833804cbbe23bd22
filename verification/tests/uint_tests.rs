use masked_uint::Uint;

#[test]
fn it_works() {
    let mut a = Uint::<5, u8>::new(23);
    let b = Uint::<5, u8>::new(27);
    println!("{}", (a + b).render());
    assert_eq!(28u8, a - b);
    a.sub_assign(b);
    println!("{}", a.render());
}

#[test]
fn normalization_masks_high_bits() {
    assert_eq!(Uint::<5, u8>::new(255).stored_value(), 31u8);
    assert_eq!(Uint::<5, u8>::new(32).stored_value(), 0u8);
    assert_eq!(Uint::<12, u16>::new(0xFFFF).stored_value(), 0x0FFFu16);
    assert_eq!(Uint::<20, u32>::new(0xFFFF_FFFF).stored_value(), 0xF_FFFFu32);
    assert_eq!(Uint::<40, u64>::new(u64::MAX).stored_value(), (1u64 << 40) - 1);
    assert_eq!(Uint::<100, u128>::new(u128::MAX).stored_value(), (1u128 << 100) - 1);
}

#[test]
fn full_width_mask_is_identity() {
    assert_eq!(Uint::<8, u8>::new(200).stored_value(), 200u8);
    assert_eq!(Uint::<16, u16>::new(65535).stored_value(), 65535u16);
    assert_eq!(Uint::<32, u32>::new(u32::MAX).stored_value(), u32::MAX);
    assert_eq!(Uint::<64, u64>::new(u64::MAX).stored_value(), u64::MAX);
    assert_eq!(Uint::<128, u128>::new(u128::MAX).stored_value(), u128::MAX);
}

#[test]
fn addition_wraps_modulo() {
    let a = Uint::<5, u8>::new(23);
    let b = Uint::<5, u8>::new(27);
    assert_eq!(18u8, a + b);
    let mut c = a;
    c.add_assign(b);
    assert_eq!(18u8, c);
}

#[test]
fn addition_at_full_native_width() {
    let x = Uint::<8, u8>::new(200);
    let y = Uint::<8, u8>::new(100);
    assert_eq!(44u8, x + y);
    let w = Uint::<128, u128>::new(u128::MAX);
    let one = Uint::<128, u128>::new(1);
    assert_eq!(0u128, w + one);
}

#[test]
fn subtraction_wraps_on_underflow() {
    let a = Uint::<5, u8>::new(23);
    let b = Uint::<5, u8>::new(27);
    assert_eq!(28u8, a - b);
    let mut c = a;
    c.sub_assign(b);
    assert_eq!(28u8, c);
    assert_eq!(0u8, a - a);
}

#[test]
fn multiplication_wraps_modulo() {
    let a = Uint::<4, u8>::new(5);
    let b = Uint::<4, u8>::new(6);
    assert_eq!(14u8, a * b);
    let mut c = a;
    c.mul_assign(b);
    assert_eq!(14u8, c);
}

#[test]
fn division_is_floor() {
    let a = Uint::<5, u8>::new(23);
    let b = Uint::<5, u8>::new(7);
    assert_eq!(3u8, a / b);
    let mut c = a;
    c.div_assign(b);
    assert_eq!(3u8, c);
    assert_eq!(0u8, Uint::<5, u8>::new(0) / b);
    let one = Uint::<5, u8>::new(1);
    assert_eq!(23u8, a / one);
}

#[test]
fn equality_both_orders() {
    for v in 0u8..32 {
        let u = Uint::<5, u8>::new(v);
        assert!(u == v);
        assert!(v == u);
    }
}

#[test]
fn equality_rejects_unmasked_scalar() {
    let big = Uint::<5, u8>::new(50);
    assert!(!(big == 50u8));
    assert!(!(50u8 == big));
    assert!(big == 18u8);
    assert!(18u8 == big);
}

#[test]
fn same_type_equality() {
    assert_eq!(Uint::<5, u8>::new(18), Uint::<5, u8>::new(50));
    assert!(Uint::<5, u8>::new(1) != Uint::<5, u8>::new(2));
}

#[test]
fn construction_idempotent() {
    for raw in [0u8, 5, 31, 32, 100, 255] {
        let u = Uint::<5, u8>::new(raw);
        assert_eq!(Uint::<5, u8>::new(u.stored_value()), u);
    }
    let wide = Uint::<100, u128>::new(u128::MAX);
    assert_eq!(Uint::<100, u128>::new(wide.stored_value()), wide);
}

#[test]
fn renders_width_and_value() {
    assert_eq!(Uint::<5, u8>::new(18).render(), "u5(18)");
    assert_eq!(Uint::<5, u8>::new(0).render(), "u5(0)");
    assert_eq!(Uint::<12, u16>::new(4095).render(), "u12(4095)");
    assert_eq!(Uint::<100, u128>::new(1_000_000_000_000).render(), "u100(1000000000000)");
}

#[test]
fn wider_kinds_arithmetic() {
    let a = Uint::<12, u16>::new(4000);
    let b = Uint::<12, u16>::new(200);
    assert_eq!(104u16, a + b);
    let c = Uint::<20, u32>::new(1_000_000);
    let d = Uint::<20, u32>::new(500_000);
    assert_eq!(451_424u32, c + d);
    let e = Uint::<40, u64>::new(1u64 << 39);
    assert_eq!(0u64, e + e);
    let g = Uint::<100, u128>::new(1u128 << 99);
    assert_eq!(0u128, g + g);
    let h = Uint::<40, u64>::new(1_000_000);
    assert_eq!(1_000_000_000_000u64, (h * h).stored_value());
    assert_eq!(1u64, h / h);
}

#[test]
fn one_bit_width() {
    let one = Uint::<1, u8>::new(1);
    assert_eq!(1u8, one);
    assert_eq!(0u8, one + one);
    assert_eq!(1u8, Uint::<1, u8>::new(3).stored_value());
    assert_eq!("u1(1)", one.render());
}
