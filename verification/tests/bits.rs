use intercal::bits::{
    and_16, and_32, check_ovf, mingle, or_16, or_32, select, xor_16, xor_32,
};
use intercal::err::ErrCode;

#[test]
fn mingle_interleaves_the_operands() {
    assert_eq!(mingle(65535, 0).unwrap(), 0xAAAA_AAAA);
    assert_eq!(mingle(0, 65535).unwrap(), 0x5555_5555);
    assert_eq!(mingle(0x1234, 0xABCD).unwrap(), 0x464D_5A71);
    assert_eq!(mingle(1, 0).unwrap(), 2);
    assert_eq!(mingle(0, 1).unwrap(), 1);
    assert_eq!(mingle(3, 5).unwrap(), 27);
    assert_eq!(mingle(0, 0).unwrap(), 0);
    assert_eq!(mingle(65535, 65535).unwrap(), 0xFFFF_FFFF);
}

#[test]
fn mingle_rejects_wide_operands() {
    let e = mingle(65536, 0).unwrap_err();
    assert_eq!(e.code, ErrCode::IE533);
    assert_eq!(e.line, None);
    assert_eq!(e.text, None);
    assert_eq!(mingle(0, 65536).unwrap_err().code, ErrCode::IE533);
    assert_eq!(mingle(0xFFFF_FFFF, 0xFFFF_FFFF).unwrap_err().code, ErrCode::IE533);
}

#[test]
fn select_packs_the_chosen_bits() {
    assert_eq!(select(179, 201), 9);
    assert_eq!(select(0x1234_5678, 0xFF00), 0x56);
    assert_eq!(select(0xFFFF_FFFF, 0x0F0F_0F0F), 0xFFFF);
    assert_eq!(select(0xDEAD_BEEF, 0xAAAA_AAAA), 0xBEFF);
    assert_eq!(select(0xDEAD_BEEF, 0x5555_5555), 0xE36B);
    assert_eq!(select(0xDEAD_BEEF, 0x2AAA_AAAB), 0x7DFF);
    assert_eq!(select(0xDEAD_BEEF, 0), 0);
    assert_eq!(select(0, 0xFFFF_FFFF), 0);
    assert_eq!(select(0xDEAD_BEEF, 0xFFFF_FFFF), 0xDEAD_BEEF);
    assert_eq!(select(0x8000_0000, 0x8000_0000), 1);
}

#[test]
fn select_takes_a_mingle_apart() {
    let samples: [u16; 9] = [0, 1, 2, 0x00FF, 0x0F0F, 0x1234, 0x8000, 0xABCD, 0xFFFF];
    for &a in samples.iter() {
        for &b in samples.iter() {
            let m = mingle(a as u32, b as u32).unwrap();
            assert_eq!(select(m, 0xAAAA_AAAA), a as u32);
            assert_eq!(select(m, 0x5555_5555), b as u32);
        }
    }
}

#[test]
fn unary_operators_at_16_bits() {
    assert_eq!((and_16(0), or_16(0), xor_16(0)), (0, 0, 0));
    assert_eq!((and_16(1), or_16(1), xor_16(1)), (0, 32769, 32769));
    assert_eq!((and_16(3), or_16(3), xor_16(3)), (1, 32771, 32770));
    assert_eq!((and_16(0x8001), or_16(0x8001), xor_16(0x8001)), (32768, 49153, 16385));
    assert_eq!((and_16(0xFFFF), or_16(0xFFFF), xor_16(0xFFFF)), (65535, 65535, 0));
    assert_eq!((and_16(0x1234), or_16(0x1234), xor_16(0x1234)), (16, 6974, 6958));
    assert_eq!((and_16(77), or_16(77), xor_16(77)), (4, 32879, 32875));
}

#[test]
fn unary_operators_at_32_bits() {
    assert_eq!((and_32(0), or_32(0), xor_32(0)), (0, 0, 0));
    assert_eq!((and_32(1), or_32(1), xor_32(1)), (0, 2147483649, 2147483649));
    assert_eq!((and_32(3), or_32(3), xor_32(3)), (1, 2147483651, 2147483650));
    assert_eq!(
        (and_32(0x8000_0001), or_32(0x8000_0001), xor_32(0x8000_0001)),
        (2147483648, 3221225473, 1073741825)
    );
    assert_eq!(
        (and_32(0xFFFF_FFFF), or_32(0xFFFF_FFFF), xor_32(0xFFFF_FFFF)),
        (4294967295, 4294967295, 0)
    );
    assert_eq!(
        (and_32(0x1234_5678), or_32(0x1234_5678), xor_32(0x1234_5678)),
        (1049144, 457080700, 456031556)
    );
    assert_eq!((and_32(77), or_32(77), xor_32(77)), (4, 2147483759, 2147483755));
}

#[test]
fn unary_operators_are_and_or_xor_of_one_rotation() {
    let samples: [u32; 8] = [0, 1, 2, 77, 0x8000_0001, 0x1234_5678, 0xDEAD_BEEF, 0xFFFF_FFFF];
    for &v in samples.iter() {
        let (a, o, x) = (and_32(v), or_32(v), xor_32(v));
        assert_eq!(a & !o, 0);
        assert_eq!(a ^ o, x);
        let h = v as u16;
        let (a, o, x) = (and_16(h), or_16(h), xor_16(h));
        assert_eq!(a & !o, 0);
        assert_eq!(a ^ o, x);
    }
}

#[test]
fn check_ovf_guards_16_bits() {
    assert_eq!(check_ovf(0).unwrap(), 0);
    assert_eq!(check_ovf(65535).unwrap(), 65535);
    let e = check_ovf(65536).unwrap_err();
    assert_eq!(e.code, ErrCode::IE275);
    assert_eq!(e.line, None);
    assert_eq!(check_ovf(0xFFFF_FFFF).unwrap_err().code, ErrCode::IE275);
}
