use cairo_vm_hints::error::HintError;
use cairo_vm_hints::hint_processor::{falls_back, Processor};
use cairo_vm_hints::hints::bit_length_mmr::bit_length_mmr;
use cairo_vm_hints::hints::bit_length_x::bit_length_x;
use cairo_vm_hints::hints::lib::bit_length::{hint_bit_length, HINT_BIT_LENGTH};
use cairo_vm_hints::hints::lib::block_header::hint_rlp_bigint_size;
use cairo_vm_hints::hints::lib::mmr::bit_length::mmr_bit_length;
use cairo_vm_hints::hints::lib::mmr::left_child::{mmr_left_child, MMR_LEFT_CHILD};
use cairo_vm_hints::hints::lib::mmr::peak_values::hint_is_position_in_mmr_array;
use cairo_vm_hints::hints::lib::mpt::{
    hint_first_item_type, hint_item_type, hint_long_short_list, hint_second_item_type,
    is_long_list, is_long_string, is_short_list, is_short_string, is_single_byte,
    HINT_ITEM_TYPE, INVALID_LIST_PREFIX, UNSUPPORTED_FIRST_ITEM_PREFIX, UNSUPPORTED_ITEM_PREFIX,
    UNSUPPORTED_SECOND_ITEM_PREFIX,
};
use cairo_vm_hints::hints::lib::rlp_little::asserts;
use cairo_vm_hints::hints::lib::rlp_little::divmod::hint_pow_cut;
use cairo_vm_hints::hints::lib::rlp_little::leading_zeros;
use cairo_vm_hints::hints::lib::rlp_little::nibbles::{
    hint_is_zero, hint_needs_next_word, hint_needs_next_word_ending, hint_nibble_from_low,
    hint_words_loop,
};
use cairo_vm_hints::hints::lib::utils::asserts::{
    hint_assert_integer_div, hint_assert_integer_div32,
};
use cairo_vm_hints::hints::lib::utils::carry::{hint_carry, sum_reaches};
use cairo_vm_hints::hints::lib::utils::divmod::{hint_value_8, hint_value_div, hint_value_div32};
use cairo_vm_hints::hints::lib::utils::trailing_zeroes::hint_trailing_zeroes_bytes;
use cairo_vm_hints::hints::lib::utils::write::{
    hint_write_2, hint_write_3, hint_write_4, hint_write_5, hint_write_6, hint_write_7,
    write_word, HINT_WRITE_7,
};
use cairo_vm_hints::hints::test_is_valid_mmr_size_generate_random::{
    is_valid_mmr_size, test_is_valid_mmr_size_generate_random,
    TEST_IS_VALID_MMR_SIZE_GENERATE_RANDOM,
};
use cairo_vm_hints::hints::test_is_valid_mmr_size_generate_sequential::test_is_valid_mmr_size_generate_sequential;
use cairo_vm_hints::hints::tests::dw_hack::{
    hint_bit_length_assign_140, hint_bit_length_assign_2500, hint_bit_length_assign_negative_one,
};
use cairo_vm_hints::hints::tests::encode_packed_256::{
    generate_test_vector, hint_generate_test_vector,
};
use cairo_vm_hints::hints::tests::mmr_size_generate::{
    hint_generate_random, hint_generate_sequential,
};
use cairo_vm_hints::hints::tests::print::HINT_PRINT_PASS;
use cairo_vm_hints::hints::lib;
use cairo_vm_hints::hints::tests;
use cairo_vm_hints::hints::{same_text, Hint};
use cairo_vm_hints::mmr::{Hasher, Keccak};
use cairo_vm_hints::uint256::U256;
use cairo_vm_hints::{run_hint, CustomHintProcessor};
use sha3::Digest;

fn word(value: u128) -> U256 {
    U256::from_u128(value)
}

fn invalid(message: &'static str, value: u128) -> HintError {
    HintError::InvalidValue(message, word(value), word(0))
}

#[test]
fn encode_packed_256_test() {
    let x_list: Vec<U256> =
        (0..16u128).map(|i| U256 { high: i * 0x1_0000_0001, low: u128::MAX - i }).collect();
    let y_list: Vec<U256> = (0..16u128).map(|i| U256 { high: i, low: i * i }).collect();
    let written = generate_test_vector(&x_list, &y_list);
    assert_eq!(written.len, 16);
    assert_eq!(written.x_array.len(), 32);
    assert_eq!(written.y_array.len(), 32);
    assert_eq!(written.keccak_result_array.len(), 32);
    for i in 0..16 {
        assert_eq!(written.x_array[2 * i], word(x_list[i].low));
        assert_eq!(written.x_array[2 * i + 1], word(x_list[i].high));
        assert_eq!(written.y_array[2 * i], word(y_list[i].low));
        assert_eq!(written.y_array[2 * i + 1], word(y_list[i].high));
        let mut hasher = sha3::Keccak256::new();
        hasher.update(x_list[i].to_be_bytes());
        hasher.update(y_list[i].to_be_bytes());
        let digest: [u8; 32] = hasher.finalize().into();
        let expected = U256::from_be_bytes(&digest);
        assert_eq!(written.keccak_result_array[2 * i], word(expected.low));
        assert_eq!(written.keccak_result_array[2 * i + 1], word(expected.high));
        assert_eq!(Keccak::new().hash(&x_list[i], &y_list[i]), expected);
    }
}

#[test]
fn bit_length_hints() {
    for hint in [bit_length_x, bit_length_mmr, hint_bit_length, mmr_bit_length] {
        assert_eq!(hint(&word(0)), word(0));
        assert_eq!(hint(&word(1)), word(1));
        assert_eq!(hint(&word(0xff)), word(8));
        assert_eq!(hint(&word(0x100)), word(9));
        assert_eq!(hint(&U256 { high: 1, low: 0 }), word(129));
    }
}

#[test]
fn flags_of_the_range_hints() {
    assert_eq!(hint_rlp_bigint_size(&word(127)), word(1));
    assert_eq!(hint_rlp_bigint_size(&word(128)), word(0));
    assert_eq!(hint_rlp_bigint_size(&word(0)), word(1));
    assert_eq!(hint_rlp_bigint_size(&U256 { high: 1, low: 0 }), word(0));
    assert_eq!(mmr_left_child(&word(5), &word(5)), word(1));
    assert_eq!(mmr_left_child(&word(6), &word(5)), word(0));
    assert_eq!(mmr_left_child(&word(4), &word(5)), word(1));
    assert_eq!(hint_is_position_in_mmr_array(&word(5), &word(5)), word(0));
    assert_eq!(hint_is_position_in_mmr_array(&word(6), &word(5)), word(1));
}

#[test]
fn class_boundaries_belong_to_the_lower_range() {
    assert!(is_single_byte(&word(0x00)));
    assert!(is_single_byte(&word(0x7f)));
    assert!(!is_single_byte(&word(0x80)));
    assert!(!is_short_string(&word(0x7f)));
    assert!(is_short_string(&word(0x80)));
    assert!(is_short_string(&word(0xb7)));
    assert!(!is_short_string(&word(0xb8)));
    assert!(is_long_string(&word(0xb8)));
    assert!(is_long_string(&word(0xbf)));
    assert!(!is_long_string(&word(0xc0)));
    assert!(is_short_list(&word(0xc0)));
    assert!(is_short_list(&word(0xf7)));
    assert!(!is_short_list(&word(0xf8)));
    assert!(is_long_list(&word(0xf8)));
    assert!(is_long_list(&word(0xff)));
    assert!(!is_long_list(&word(0x100)));
    assert!(!is_single_byte(&U256 { high: 1, low: 0x10 }));
    assert!(!is_long_list(&U256 { high: 1, low: 0xff }));
}

#[test]
fn every_byte_has_exactly_one_class() {
    for value in 0..=0x1ffu128 {
        let v = word(value);
        let classes = [
            is_single_byte(&v),
            is_short_string(&v),
            is_long_string(&v),
            is_short_list(&v),
            is_long_list(&v),
        ];
        let count = classes.iter().filter(|c| **c).count();
        assert_eq!(count, if value <= 0xff { 1 } else { 0 });
    }
}

#[test]
fn item_type_hints() {
    assert_eq!(hint_long_short_list(&word(0xc0)), Ok(word(0)));
    assert_eq!(hint_long_short_list(&word(0xf7)), Ok(word(0)));
    assert_eq!(hint_long_short_list(&word(0xf8)), Ok(word(1)));
    assert_eq!(hint_long_short_list(&word(0xff)), Ok(word(1)));
    assert_eq!(hint_long_short_list(&word(0xbf)), Err(invalid(INVALID_LIST_PREFIX, 0xbf)));
    assert_eq!(hint_long_short_list(&word(0x100)), Err(invalid(INVALID_LIST_PREFIX, 0x100)));

    assert_eq!(hint_first_item_type(&word(0x7f)), Ok(word(0)));
    assert_eq!(hint_first_item_type(&word(0x80)), Ok(word(1)));
    assert_eq!(hint_first_item_type(&word(0xb7)), Ok(word(1)));
    assert_eq!(
        hint_first_item_type(&word(0xb8)),
        Err(invalid(UNSUPPORTED_FIRST_ITEM_PREFIX, 0xb8))
    );

    assert_eq!(hint_second_item_type(&word(0x00)), Ok(word(0)));
    assert_eq!(hint_second_item_type(&word(0x7f)), Ok(word(0)));
    assert_eq!(hint_second_item_type(&word(0x80)), Ok(word(1)));
    assert_eq!(hint_second_item_type(&word(0xb7)), Ok(word(1)));
    assert_eq!(hint_second_item_type(&word(0xb8)), Ok(word(2)));
    assert_eq!(hint_second_item_type(&word(0xbf)), Ok(word(2)));
    assert_eq!(
        hint_second_item_type(&word(0xc0)),
        Err(invalid(UNSUPPORTED_SECOND_ITEM_PREFIX, 0xc0))
    );

    assert_eq!(hint_item_type(&word(0x7f)), Ok(word(0)));
    assert_eq!(hint_item_type(&word(0x80)), Ok(word(1)));
    assert_eq!(hint_item_type(&word(0xb8)), Err(invalid(UNSUPPORTED_ITEM_PREFIX, 0xb8)));
}

#[test]
fn checks_of_expected_values() {
    assert_eq!(asserts::hint_expected_leading_zeroes(&word(3), &word(3)), Ok(()));
    assert_eq!(
        asserts::hint_expected_leading_zeroes(&word(2), &word(3)),
        Err(HintError::AssertNotEqualFail(word(3), word(2)))
    );
    assert_eq!(asserts::hint_expected_nibble(&word(0xa), &word(0xa)), Ok(()));
    assert_eq!(
        asserts::hint_expected_nibble(&word(0xa), &word(0xb)),
        Err(HintError::AssertNotEqualFail(word(0xa), word(0xb)))
    );
}

#[test]
fn leading_zero_nibbles_of_the_reversed_bytes() {
    let count = |x: U256, cut: u128| leading_zeros::hint_expected_leading_zeroes(&x, &word(cut));
    assert_eq!(count(word(0), 0), word(2));
    assert_eq!(count(word(0), 1), word(1));
    assert_eq!(count(word(0x12), 0), word(0));
    assert_eq!(count(word(0x12), 1), word(0));
    assert_eq!(count(word(0x02), 0), word(1));
    assert_eq!(count(word(0x02), 1), word(0));
    assert_eq!(count(word(0x0100), 0), word(1));
    assert_eq!(count(word(0x0100), 1), word(0));
    assert_eq!(count(word(0x0001_00a0), 0), word(0));
    assert_eq!(count(word(0x0001_00a0), 1), word(4));
    assert_eq!(count(word(0x0001_00a0), 2), word(0));
    assert_eq!(count(U256 { high: 0x30, low: 0 }, 1), word(31));
}

#[test]
fn expected_nibble_of_a_key() {
    let key = U256 { high: 0xab, low: 0x0123_4567_89ab_cdef_0123_4567_89ab_cdef };
    assert_eq!(leading_zeros::hint_expected_nibble(&key, 0, 0), 0xa);
    assert_eq!(leading_zeros::hint_expected_nibble(&key, 3, 1), 0xb);
    assert_eq!(leading_zeros::hint_expected_nibble(&key, 0, 2), 0x0);
    assert_eq!(leading_zeros::hint_expected_nibble(&key, 5, 3), 0x1);
    assert_eq!(leading_zeros::hint_expected_nibble(&key, 0, 33), 0xf);
    assert_eq!(leading_zeros::hint_expected_nibble(&word(0x9c4), 0, 0), 9);
    assert_eq!(leading_zeros::hint_expected_nibble(&word(0x9c4), 0, 1), 0xc);
    assert_eq!(leading_zeros::hint_expected_nibble(&word(0x9c4), 0, 2), 4);
    assert_eq!(leading_zeros::key_nibbles(&key), 34);
    assert_eq!(leading_zeros::key_nibbles(&word(0x9c4)), 3);
    assert_eq!(leading_zeros::key_nibbles(&word(0)), 0);
    assert_eq!(leading_zeros::key_nibbles(&U256 { high: u128::MAX, low: 0 }), 64);
}

#[test]
fn nibble_hints() {
    assert_eq!(hint_is_zero(0, 1), word(1));
    assert_eq!(hint_is_zero(1, 1), word(0));
    assert_eq!(hint_is_zero(0, 0), word(0));
    assert_eq!(hint_is_zero(-1, 0), word(1));
    assert_eq!(hint_nibble_from_low(&word(0), &word(32)), word(1));
    assert_eq!(hint_nibble_from_low(&word(31), &word(32)), word(1));
    assert_eq!(hint_nibble_from_low(&word(32), &word(32)), word(0));
    assert_eq!(hint_nibble_from_low(&word(31), &word(33)), word(0));
    assert_eq!(hint_nibble_from_low(&word(32), &word(33)), word(1));
    assert_eq!(hint_nibble_from_low(&word(63), &word(33)), word(1));
    assert_eq!(hint_nibble_from_low(&word(64), &word(33)), word(0));
    assert_eq!(hint_needs_next_word(&word(5), &word(4)), word(1));
    assert_eq!(hint_needs_next_word(&word(4), &word(4)), word(0));
    assert_eq!(hint_needs_next_word_ending(&word(5), &word(4)), word(1));
    assert_eq!(hint_needs_next_word_ending(&word(3), &word(4)), word(0));
    assert_eq!(hint_words_loop(&word(9), &word(9)), word(1));
    assert_eq!(hint_words_loop(&word(9), &word(8)), word(0));
}

#[test]
fn divisor_checks() {
    let prime = U256 { high: 0x800_0000_0000_0011_0000_0000_0000_0000, low: 1 };
    let out_of_range = Err(HintError::AssertNNValueOutOfRange(prime));
    assert_eq!(hint_assert_integer_div32(&word(32), &prime), Ok(()));
    assert_eq!(hint_assert_integer_div32(&prime, &prime), Ok(()));
    assert_eq!(hint_assert_integer_div32(&word(0), &prime), out_of_range);
    assert_eq!(hint_assert_integer_div(&word(1), &prime), Ok(()));
    assert_eq!(hint_assert_integer_div(&word(0), &prime), out_of_range);
    assert_eq!(hint_assert_integer_div(&U256 { high: prime.high, low: 2 }, &prime), out_of_range);
}

#[test]
fn carries_of_the_halves() {
    let shift = U256 { high: 1, low: 0 };
    let max = word(u128::MAX);
    assert_eq!(hint_carry(&max, &word(0), &word(1), &word(0), &shift), (word(1), word(0)));
    assert_eq!(hint_carry(&max, &max, &word(0), &word(1), &shift), (word(0), word(1)));
    assert_eq!(hint_carry(&word(1), &max, &word(2), &word(0), &shift), (word(0), word(0)));
    assert!(sum_reaches(&word(2), &word(3), &word(5)));
    assert!(!sum_reaches(&word(2), &word(3), &word(6)));
    let top = U256 { high: u128::MAX, low: u128::MAX };
    assert!(sum_reaches(&top, &word(1), &top));
    assert!(sum_reaches(&top, &top, &top));
    assert!(!sum_reaches(&word(0), &word(0), &word(1)));
}

#[test]
fn quotients_and_remainders() {
    assert_eq!(hint_value_8(&word(29)), (word(3), word(5)));
    assert_eq!(hint_value_div(&word(29), &word(10)), (word(2), word(9)));
    assert_eq!(hint_value_div32(&word(0x1_0000_0005), &word(0x1_0000_0000)), (word(1), word(5)));
    assert_eq!(hint_pow_cut(&word(0x0102_0304), &word(0x1_0000)), (word(0x0102), word(0x0304)));
}

#[test]
fn trailing_zero_bytes() {
    assert_eq!(hint_trailing_zeroes_bytes(&word(0)), word(32));
    assert_eq!(hint_trailing_zeroes_bytes(&word(1)), word(0));
    assert_eq!(hint_trailing_zeroes_bytes(&word(0x100)), word(1));
    assert_eq!(hint_trailing_zeroes_bytes(&word(0x0012_0000)), word(2));
    assert_eq!(hint_trailing_zeroes_bytes(&U256 { high: 1, low: 0 }), word(16));
}

#[test]
fn low_bytes_of_a_word() {
    let value = word(0x0011_2233_4455_6677_8899);
    assert_eq!(hint_write_2(&value), vec![0x88, 0x99]);
    assert_eq!(hint_write_3(&value), vec![0x77, 0x88, 0x99]);
    assert_eq!(hint_write_4(&value), vec![0x66, 0x77, 0x88, 0x99]);
    assert_eq!(hint_write_5(&value), vec![0x55, 0x66, 0x77, 0x88, 0x99]);
    assert_eq!(hint_write_6(&value), vec![0x44, 0x55, 0x66, 0x77, 0x88, 0x99]);
    assert_eq!(hint_write_7(&value), vec![0x33, 0x44, 0x55, 0x66, 0x77, 0x88, 0x99]);
    assert_eq!(write_word(&value, 0), Vec::<u8>::new());
    assert_eq!(write_word(&value, 32), value.to_be_bytes().to_vec());
    assert_eq!(hint_write_2(&word(1)), vec![0, 1]);
}

#[test]
fn fixed_bit_lengths() {
    assert_eq!(hint_bit_length_assign_140(), word(140));
    assert_eq!(hint_bit_length_assign_2500(), word(2500));
    let minus_one = hint_bit_length_assign_negative_one();
    assert!(minus_one.is_felt());
    assert_eq!(minus_one, U256 { high: 0x800_0000_0000_0011_0000_0000_0000_0000, low: 0 });
}

#[test]
fn sequential_vectors_mark_the_sizes_of_one_to_n_leaves() {
    let (input, expected) = test_is_valid_mmr_size_generate_sequential(5);
    assert_eq!(input, vec![0, 1, 2, 3, 4, 5, 6, 7, 8]);
    assert_eq!(expected, vec![false, true, false, true, true, false, false, true, true]);
    let (input, expected) = test_is_valid_mmr_size_generate_sequential(0);
    assert_eq!(input, vec![0]);
    assert_eq!(expected, vec![false]);
    assert_eq!(hint_generate_sequential(5), test_is_valid_mmr_size_generate_sequential(5));
    let (input, expected) = hint_generate_sequential(100);
    assert!(!expected[0]);
    for (size, valid) in input.iter().zip(expected.iter()).skip(1) {
        assert_eq!(*valid, is_valid_mmr_size(*size));
    }
}

#[test]
fn random_vectors_hold_sizes_below_the_bound_with_their_validity() {
    for generate in [test_is_valid_mmr_size_generate_random, hint_generate_random] {
        let (input, expected) = generate(300);
        assert_eq!(input.len(), 300);
        assert_eq!(expected.len(), 300);
        for (size, valid) in input.iter().zip(expected.iter()) {
            assert!(*size < 20_000_000);
            assert_eq!(*valid, is_valid_mmr_size(*size));
        }
        assert!(input.iter().any(|size| *size != input[0]));
    }
    let (input, expected) = test_is_valid_mmr_size_generate_random(0);
    assert!(input.is_empty() && expected.is_empty());
}

#[test]
fn no_nodes_are_a_valid_mmr_size() {
    assert!(is_valid_mmr_size(0));
    assert!(is_valid_mmr_size(1));
    assert!(!is_valid_mmr_size(2));
    assert!(is_valid_mmr_size(3));
    assert!(is_valid_mmr_size(4));
    assert!(!is_valid_mmr_size(5));
}

#[test]
fn texts_are_matched_exactly() {
    assert!(same_text("ids.x", "ids.x"));
    assert!(!same_text("ids.x", "ids.x "));
    assert!(!same_text("ids.x", "ids.X"));
    assert_eq!(run_hint(HINT_BIT_LENGTH), Ok(Hint::BitLength));
    assert_eq!(run_hint(MMR_LEFT_CHILD), Ok(Hint::MmrLeftChild));
    assert_eq!(run_hint(HINT_ITEM_TYPE), Ok(Hint::ItemType));
    assert_eq!(run_hint(HINT_WRITE_7), Ok(Hint::Write7));
    assert_eq!(run_hint(HINT_PRINT_PASS), Ok(Hint::PrintPass));
    assert_eq!(
        run_hint("ids.bit_length = ids.x.bit_length() "),
        Err(HintError::UnknownHint("ids.bit_length = ids.x.bit_length() ".to_string()))
    );
    assert_eq!(run_hint(""), Err(HintError::UnknownHint(String::new())));
}

#[test]
fn the_first_catalog_that_knows_a_text_answers() {
    assert_eq!(lib::bit_length::run_hint(HINT_BIT_LENGTH), Ok(Hint::BitLength));
    assert_eq!(lib::mmr::run_hint(MMR_LEFT_CHILD), Ok(Hint::MmrLeftChild));
    assert_eq!(
        lib::mmr::run_hint(HINT_BIT_LENGTH),
        Err(HintError::UnknownHint(HINT_BIT_LENGTH.to_string()))
    );
    assert_eq!(lib::run_hint(lib::mmr::bit_length::MMR_BIT_LENGTH), Ok(Hint::MmrBitLength));
    assert_eq!(
        lib::run_hint(lib::block_header::HINT_RLP_BIGINT_SIZE),
        Ok(Hint::RlpBigintSize)
    );
    assert_eq!(
        lib::run_hint(lib::rlp_little::asserts::HINT_EXPECTED_LEADING_ZEROES),
        Ok(Hint::AssertLeadingZeroes)
    );
    assert_eq!(
        lib::run_hint(lib::rlp_little::leading_zeros::HINT_EXPECTED_LEADING_ZEROES),
        Ok(Hint::ExpectedLeadingZeroes)
    );
    assert_eq!(lib::utils::run_hint(lib::utils::carry::HINT_CARRY), Ok(Hint::Carry));
    assert_eq!(
        lib::run_hint(HINT_PRINT_PASS),
        Err(HintError::UnknownHint(HINT_PRINT_PASS.to_string()))
    );
    assert_eq!(tests::run_hint(HINT_PRINT_PASS), Ok(Hint::PrintPass));
    assert_eq!(
        tests::run_hint(tests::construct_mmr::TEST_CONSTRUCT_MMR),
        Ok(Hint::ConstructMmr)
    );
}

#[test]
fn the_custom_processor_is_asked_before_the_builtin_one() {
    let processor = CustomHintProcessor::new();
    assert_eq!(processor.execute_hint(HINT_BIT_LENGTH), Ok(Hint::BitLength));
    assert_eq!(
        processor.execute_hint(TEST_IS_VALID_MMR_SIZE_GENERATE_RANDOM),
        Ok(Hint::GenerateRandom)
    );
    assert_eq!(processor.execute_hint_extensive(MMR_LEFT_CHILD), Processor::Custom(Hint::MmrLeftChild));
    let unknown = "memory[ap] = segments.add()";
    assert_eq!(
        processor.execute_hint(unknown),
        Err(HintError::UnknownHint(unknown.to_string()))
    );
    assert_eq!(processor.execute_hint_extensive(unknown), Processor::Builtin);
    assert!(falls_back(&processor.execute_hint(unknown)));
    assert!(!falls_back(&processor.execute_hint(HINT_BIT_LENGTH)));
    let failed: Result<(), HintError> = Err(HintError::AssertNotEqualFail(word(1), word(2)));
    assert!(!falls_back(&failed));
}

#[test]
fn the_drawn_test_vector_holds_512_pairs_with_their_hashes() {
    let written = hint_generate_test_vector();
    assert_eq!(written.len, 512);
    assert_eq!(written.x_array.len(), 1024);
    assert_eq!(written.y_array.len(), 1024);
    assert_eq!(written.keccak_result_array.len(), 1024);
    let keccak = Keccak::new();
    for i in 0..512 {
        assert_eq!(written.x_array[2 * i].high, 0);
        assert_eq!(written.y_array[2 * i + 1].high, 0);
        let x = U256 { high: written.x_array[2 * i + 1].low, low: written.x_array[2 * i].low };
        let y = U256 { high: written.y_array[2 * i + 1].low, low: written.y_array[2 * i].low };
        let expected = keccak.hash(&x, &y);
        assert_eq!(written.keccak_result_array[2 * i], word(expected.low));
        assert_eq!(written.keccak_result_array[2 * i + 1], word(expected.high));
    }
    assert_ne!(written.x_array[0], written.x_array[2]);
}
