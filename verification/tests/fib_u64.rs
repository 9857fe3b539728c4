use std::str::FromStr;
use zeckendorf::fib_u64::{Fib64, ParseFib64Error};
use zeckendorf::sequence::SEQ;
use zeckendorf::zeckendorf::{MAX_VALUE, SPARSE_LIMIT};

#[test]
fn from_u64_works() {
    let test_cases: &[(u64, &str)] = &[
        (16, "1001000"),
        (19, "1010010"),
        (32, "10101000"),
        (9024720, "1010100101010100000010001000010010"),
    ];

    for &(input, conversion) in test_cases {
        let result: Fib64 = input.into();
        assert_eq!(conversion, result.to_string());
    }
}

#[test]
fn from_str_works() {
    let test_cases: &[(u64, &str)] = &[
        (16, "1001000"),
        (19, "1010010"),
        (32, "10101000"),
        (9024720, "1010100101010100000010001000010010"),
    ];

    for &(conversion, input) in test_cases {
        let result = input
            .parse::<Fib64>()
            .expect(&format!("unable to parse Fib64: {:?}", input));

        assert_eq!(conversion, result.into(), "failed to convert: {}", input);
    }
}

#[test]
fn sixteen_round_trip() {
    let numeral = Fib64::from(16);
    assert_eq!(numeral.0, 0b1001000);
    assert_eq!(numeral.to_string(), "1001000");
    assert_eq!(u64::from(Fib64(0b1001000)), 16);
    assert_eq!(u64::from(numeral), 16);
}

#[test]
fn nineteen_encodes() {
    assert_eq!(Fib64::from(19).to_string(), "1010010");
}

#[test]
fn large_number_encodes() {
    assert_eq!(
        Fib64::from(9024720).to_string(),
        "1010100101010100000010001000010010"
    );
}

#[test]
fn nineteen_parses_and_decodes() {
    let numeral = Fib64::from_str("1010010").unwrap();
    assert_eq!(numeral.0, 0b1010010);
    assert_eq!(u64::from(numeral), 19);
}

#[test]
fn empty_string_is_rejected() {
    assert!(matches!(Fib64::from_str(""), Err(ParseFib64Error::Empty)));
    assert!(matches!("".parse::<Fib64>(), Err(ParseFib64Error::Empty)));
}

#[test]
fn other_characters_are_rejected() {
    for text in ["2", "102", "201", "1 0", " 10", "10 ", "1a", "-1", "+1", "1_0", "0b1", "１"] {
        assert!(
            matches!(Fib64::from_str(text), Err(ParseFib64Error::InvalidDigit)),
            "{:?}",
            text
        );
        assert!(matches!(text.parse::<Fib64>(), Err(ParseFib64Error::InvalidDigit)));
    }
    let long = format!("2{}", "0".repeat(100));
    assert!(matches!(Fib64::from_str(&long), Err(ParseFib64Error::InvalidDigit)));
}

#[test]
fn zero_round_trip() {
    let zero = Fib64::from(0);
    assert_eq!(zero.0, 0);
    assert_eq!(u64::from(zero), 0);
}

#[test]
fn zero_is_written_as_empty_string() {
    assert_eq!(Fib64::from(0).to_string(), "");
    assert_eq!(Fib64(0).to_string(), "");
}

#[test]
fn small_numbers_encode() {
    let expected: &[(u64, &str)] = &[
        (1, "10"),
        (2, "100"),
        (3, "1000"),
        (4, "1010"),
        (5, "10000"),
        (6, "10010"),
        (7, "10100"),
        (8, "100000"),
        (12, "101010"),
        (13, "1000000"),
    ];
    for &(n, text) in expected {
        assert_eq!(Fib64::from(n).to_string(), text, "{}", n);
    }
}

#[test]
fn decoding_adds_fibonacci_numbers() {
    assert_eq!(u64::from(Fib64(0b1)), 1);
    assert_eq!(u64::from(Fib64(0b10)), 1);
    assert_eq!(u64::from(Fib64(0b11)), 2);
    assert_eq!(u64::from(Fib64(0b100)), 2);
    assert_eq!(u64::from(Fib64(0b1000)), 3);
    assert_eq!(u64::from(Fib64(0b1111)), 7);
    assert_eq!(u64::from(Fib64(1u64 << 63)), 10610209857723);
    assert_eq!(u64::from(Fib64(u64::MAX)), MAX_VALUE);
    assert_eq!(MAX_VALUE, 27777890035287);
}

#[test]
fn decoding_undoes_encoding() {
    for n in 0..5000u64 {
        assert_eq!(u64::from(Fib64::from(n)), n);
    }
    let mut n: u64 = 1;
    while n <= MAX_VALUE {
        assert_eq!(u64::from(Fib64::from(n)), n);
        assert_eq!(u64::from(Fib64::from(n - 1)), n - 1);
        n = n * 3 + 1;
    }
    assert_eq!(u64::from(Fib64::from(MAX_VALUE)), MAX_VALUE);
    assert_eq!(Fib64::from(MAX_VALUE).0, u64::MAX);
}

#[test]
fn numbers_beyond_the_largest_value_saturate() {
    for n in [MAX_VALUE + 1, MAX_VALUE + 2, 1u64 << 62, (1u64 << 63) - 1, u64::MAX] {
        assert_eq!(Fib64::from(n).0, u64::MAX);
        assert_eq!(u64::from(Fib64::from(n)), MAX_VALUE);
    }
}

#[test]
fn encodings_have_no_neighbouring_ones() {
    let mut samples: Vec<u64> = (0..5000).collect();
    samples.extend([SPARSE_LIMIT - 1, SPARSE_LIMIT - 2, 10610209857723, 9024720]);
    for n in samples {
        let numeral = Fib64::from(n);
        assert_eq!(numeral.0 & (numeral.0 >> 1), 0, "{}", n);
        assert_eq!(numeral.0 & 1, 0, "{}", n);
        assert!(!numeral.to_string().contains("11"), "{}", n);
    }
}

#[test]
fn first_encoding_with_neighbouring_ones() {
    assert_eq!(SPARSE_LIMIT, 17167680177565);
    let numeral = Fib64::from(SPARSE_LIMIT);
    assert_eq!(numeral.0, 0b11u64 << 62);
    assert!(numeral.to_string().starts_with("11"));
    assert_eq!(u64::from(numeral), SPARSE_LIMIT);
}

#[test]
fn writing_undoes_parsing() {
    let all_ones = "1".repeat(64);
    let one_and_zeros = format!("1{}", "0".repeat(63));
    for text in ["1", "10", "11", "111", "1001000", "1010010", "110011", &all_ones, &one_and_zeros] {
        let numeral = Fib64::from_str(text).unwrap();
        assert_eq!(numeral.to_string(), text);
    }
}

#[test]
fn parsing_undoes_writing() {
    for pattern in [1u64, 2, 3, 0b1001000, 0xDEAD_BEEF, 1u64 << 63, u64::MAX] {
        let text = Fib64(pattern).to_string();
        assert_eq!(Fib64::from_str(&text).unwrap().0, pattern);
    }
    assert!(matches!(
        Fib64::from_str(&Fib64(0).to_string()),
        Err(ParseFib64Error::Empty)
    ));
}

#[test]
fn encoding_undoes_decoding_of_sparse_patterns() {
    for pattern in [0u64, 0b10, 0b100, 0b1010, 0b1001000, 0b1010010, 0xAAAA_AAAA_AAAA_AAAA] {
        assert_eq!(Fib64::from(u64::from(Fib64(pattern))).0, pattern);
    }
}

#[test]
fn parsing_takes_the_string_as_it_is() {
    assert_eq!(Fib64::from_str("0").unwrap().0, 0);
    assert_eq!(Fib64::from_str("0000").unwrap().0, 0);
    assert_eq!(Fib64::from_str("0011").unwrap().0, 0b11);
    assert_eq!(Fib64::from_str("11").unwrap().0, 0b11);
    assert_eq!(Fib64::from_str("0001001000").unwrap().0, 0b1001000);
    assert_eq!(Fib64::from_str(&"1".repeat(64)).unwrap().0, u64::MAX);
    assert_eq!(Fib64::from_str("0011").unwrap().to_string(), "11");
}

#[test]
fn digits_past_sixty_four_places_wrap_around() {
    let sixty_five = format!("1{}", "0".repeat(64));
    assert_eq!(Fib64::from_str(&sixty_five).unwrap().0, 1);
    let with_zeros_in_front = format!("{}101", "0".repeat(100));
    assert_eq!(Fib64::from_str(&with_zeros_in_front).unwrap().0, 0b101);
    let two_rounds = format!("1{}1{}", "0".repeat(62), "0".repeat(67));
    assert_eq!(Fib64::from_str(&two_rounds).unwrap().0, 0b1100);
}

#[test]
fn writing_shows_the_bits_from_the_highest_set_one() {
    assert_eq!(Fib64(1).to_string(), "1");
    assert_eq!(Fib64(0b10).to_string(), "10");
    assert_eq!(Fib64(0b1011).to_string(), "1011");
    assert_eq!(Fib64(u64::MAX).to_string(), "1".repeat(64));
    assert_eq!(Fib64(1u64 << 63).to_string(), format!("1{}", "0".repeat(63)));
}

#[test]
fn table_runs_down_the_fibonacci_numbers() {
    assert_eq!(SEQ.len(), 64);
    assert_eq!(SEQ[0], 10610209857723);
    assert_eq!(SEQ[1], 6557470319842);
    assert_eq!(SEQ[57], 13);
    assert_eq!(SEQ[61], 2);
    assert_eq!(SEQ[62], 1);
    assert_eq!(SEQ[63], 1);
    for idx in 0..62 {
        assert_eq!(SEQ[idx], SEQ[idx + 1] + SEQ[idx + 2]);
        assert!(SEQ[idx] > SEQ[idx + 1]);
    }
    assert_eq!(SEQ.iter().sum::<u64>(), MAX_VALUE);
}

#[test]
fn numerals_can_be_copied_and_shown() {
    let numeral = Fib64(5);
    let copy = numeral;
    assert_eq!(numeral.0, copy.0);
    assert_eq!(format!("{:?}", numeral), "Fib64(5)");
    assert_eq!(format!("{:?}", ParseFib64Error::Empty), "Empty");
    assert_eq!(format!("{:?}", ParseFib64Error::InvalidDigit), "InvalidDigit");
}
