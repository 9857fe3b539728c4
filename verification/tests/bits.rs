use zeckendorf::bits::{check, unset, Bits, Fiddle};
use zeckendorf::fib_u64::Fib64;

#[test]
fn set_works() {
    let test_cases: &[(Vec<u64>, u64, u64)] =
        &[(vec![0], 1, 0), (vec![1], 2, 0), (vec![0, 1], 3, 0), (vec![0, 1], 3, 3)];

    for &(ref set_these, expected_result, initial_value) in test_cases {
        let mut test_val = initial_value;

        for &bit in set_these {
            test_val = test_val.set(bit);
        }

        println!("{}", test_val);
        assert_eq!(test_val, expected_result);
    }
}

#[test]
fn unset_works() {
    let test_cases: &[(Vec<u64>, u64)] =
        &[(vec![0], 1), (vec![1], 2), (vec![0, 1], 3), (vec![0, 1], 0)];

    for &(ref unset_these, initial_value) in test_cases {
        let mut test_val = initial_value;

        for &bit in unset_these {
            test_val = test_val.unset(bit);
        }

        println!("{}", test_val);
        assert_eq!(test_val, 0, "initial value: {}", initial_value);
    }
}

#[test]
fn bit_iterator_works() {
    let mut ones = u64::MAX.bits();
    let mut seen = 0;
    while let Some(bit) = ones.next() {
        assert!(bit == true);
        seen += 1;
    }
    assert_eq!(seen, 64);

    let mut zeros = u64::MIN.bits();
    let mut seen = 0;
    while let Some(bit) = zeros.next() {
        assert!(bit == false);
        seen += 1;
    }
    assert_eq!(seen, 64);
}

#[test]
fn bits_end_after_sixty_four() {
    let mut bits = Bits::new(7);
    for _ in 0..64 {
        assert!(bits.next().is_some());
    }
    assert_eq!(bits.next(), None);
    assert_eq!(bits.next(), None);
}

#[test]
fn bits_come_most_significant_first() {
    let mut top = Bits::new(1u64 << 63);
    assert_eq!(top.next(), Some(true));
    for _ in 0..63 {
        assert_eq!(top.next(), Some(false));
    }
    assert_eq!(top.next(), None);

    let mut low = Bits::new(1);
    for _ in 0..63 {
        assert_eq!(low.next(), Some(false));
    }
    assert_eq!(low.next(), Some(true));
    assert_eq!(low.next(), None);
}

#[test]
fn bits_follow_the_word() {
    let word: u64 = 0xA5A5_0000_FFFF_1234;
    let mut bits = word.bits();
    for place in (0..64u64).rev() {
        assert_eq!(bits.next(), Some(check(word, place)));
    }
    assert_eq!(bits.next(), None);
}

#[test]
fn each_walk_starts_afresh() {
    let word: u64 = 1u64 << 63;
    let mut first = word.bits();
    assert_eq!(first.next(), Some(true));
    assert_eq!(first.next(), Some(false));
    let mut second = word.bits();
    assert_eq!(second.next(), Some(true));
}

#[test]
fn set_touches_one_bit_only() {
    for bit in 0..64u64 {
        let word = zeckendorf::bits::set(0, bit);
        assert_eq!(word, 1u64 << bit);
        for other in 0..64u64 {
            assert_eq!(check(word, other), other == bit);
        }
        assert_eq!(zeckendorf::bits::set(word, bit), word);
        assert_eq!(zeckendorf::bits::set(u64::MAX, bit), u64::MAX);
    }
}

#[test]
fn unset_touches_one_bit_only() {
    for bit in 0..64u64 {
        let word = unset(u64::MAX, bit);
        assert_eq!(word, u64::MAX ^ (1u64 << bit));
        for other in 0..64u64 {
            assert_eq!(check(word, other), other != bit);
        }
        assert_eq!(unset(word, bit), word);
        assert_eq!(unset(0, bit), 0);
    }
}

#[test]
fn unset_undoes_set() {
    assert_eq!(unset(zeckendorf::bits::set(0b1010, 2), 2), 0b1010);
    assert_eq!(zeckendorf::bits::set(unset(0b1010, 1), 1), 0b1010);
    assert_eq!(zeckendorf::bits::set(0b1000, 63), 0x8000_0000_0000_0008);
    assert_eq!(unset(0x8000_0000_0000_0008, 63), 0b1000);
}

#[test]
fn check_reads_single_bits() {
    assert!(check(1, 0));
    assert!(!check(1, 1));
    assert!(check(0b100, 2));
    assert!(check(u64::MAX, 63));
    assert!(!check(u64::MAX >> 1, 63));
}

#[test]
fn numerals_share_the_bit_operations() {
    let numeral = Fib64(0b1001000);
    assert_eq!(numeral.set(0), 0b1001001);
    assert_eq!(numeral.set(6), 0b1001000);
    assert_eq!(numeral.unset(6), 0b0001000);
    assert_eq!(numeral.unset(0), 0b1001000);

    let mut bits = numeral.bits();
    let mut word = 0b1001000u64.bits();
    for _ in 0..64 {
        assert_eq!(bits.next(), word.next());
    }
    assert_eq!(bits.next(), None);
}

#[test]
fn a_cloned_walk_goes_on_from_the_same_place() {
    let mut bits = Bits::new(0b101);
    for _ in 0..61 {
        assert_eq!(bits.next(), Some(false));
    }
    let mut copy = bits.clone();
    assert_eq!(bits.next(), Some(true));
    assert_eq!(bits.next(), Some(false));
    assert_eq!(copy.next(), Some(true));
    assert_eq!(copy.next(), Some(false));
    assert_eq!(copy.next(), Some(true));
    assert_eq!(copy.next(), None);
    assert_eq!(bits.next(), Some(true));
}
