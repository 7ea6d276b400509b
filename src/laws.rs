//! Properties that relate parsing, encoding and the tables.
use vstd::prelude::*;
use crate::encoder::{
    address_digits, all_digits, bits_of, bits_value, computation_encoding,
    decimal_value, encode_model, is_digit, lemma_bits_leading_zero, lemma_bits_of_shape,
    lemma_bits_value, ADDRESS_LIMIT,
};
use crate::instruction::{ErrorModel, InstructionModel};
use crate::parser::parse_model;
use crate::tables::{
    computation_table, destination_table, is_bits, jump_table, lemma_lookup_entry,
    lemma_lookup_missing, lemma_tables_well_formed,
};
use vstd::arithmetic::power2::lemma2_to64;

verus! {

/// For every address `n` below 2^15 written in decimal digits, the line `@n`
/// parses to an address instruction, and that instruction encodes to a word of
/// 16 bits whose value is `n` and whose leading bit is `'0'`.
pub proof fn lemma_address_line_encodes_its_value(line: Seq<char>, digits: Seq<char>)
    requires
        line == seq!['@'] + digits,
        digits.len() > 0,
        all_digits(digits),
        decimal_value(digits) < ADDRESS_LIMIT,
    ensures
        parse_model(line) == Ok::<InstructionModel, ErrorModel>(
            InstructionModel::Address { address: digits },
        ),
        encode_model(InstructionModel::Address { address: digits }) == Ok::<Seq<char>, ErrorModel>(
            bits_of(decimal_value(digits), 16),
        ),
        bits_of(decimal_value(digits), 16).len() == 16,
        is_bits(bits_of(decimal_value(digits), 16)),
        bits_value(bits_of(decimal_value(digits), 16)) == decimal_value(digits),
        bits_of(decimal_value(digits), 16)[0] == '0',
{
    assert(line.subrange(1, line.len() as int) =~= digits);
    assert(is_digit(digits[0]));
    assert(address_digits(digits) == digits);
    lemma2_to64();
    lemma_bits_of_shape(decimal_value(digits), 16);
    lemma_bits_value(decimal_value(digits), 16);
    lemma_bits_leading_zero(decimal_value(digits), 16);
}

/// An address literal of decimal digits worth 2^15 or more is out of range.
pub proof fn lemma_large_address_out_of_range(digits: Seq<char>)
    requires
        all_digits(digits),
        decimal_value(digits) >= ADDRESS_LIMIT,
    ensures
        encode_model(InstructionModel::Address { address: digits }) == Err::<Seq<char>, ErrorModel>(
            ErrorModel::AddressOutOfRange { address: digits },
        ),
{
    if digits.len() > 0 {
        assert(is_digit(digits[0]));
    }
    assert(address_digits(digits) == digits);
}

/// For every destination, computation and jump of the tables, the computation
/// instruction made of them encodes to `111`, then the computation code, the
/// destination code and the jump code that the tables give.
pub proof fn lemma_table_combinations_encode(d: int, c: int, j: int)
    requires
        0 <= d < destination_table().len(),
        0 <= c < computation_table().len(),
        0 <= j < jump_table().len(),
    ensures
        encode_model(
            InstructionModel::Computation {
                destination: destination_table()[d].0,
                computation: computation_table()[c].0,
                jump_type: jump_table()[j].0,
            },
        ) == Ok::<Seq<char>, ErrorModel>(
            "111"@ + computation_table()[c].1 + destination_table()[d].1 + jump_table()[j].1,
        ),
{
    lemma_tables_well_formed();
    lemma_lookup_entry(destination_table(), d);
    lemma_lookup_entry(computation_table(), c);
    lemma_lookup_entry(jump_table(), j);
}

/// A computation mnemonic that the computation table lacks makes any
/// computation instruction fail with that mnemonic.
pub proof fn lemma_unknown_computation(destination: Seq<char>, computation: Seq<char>, jump_type: Seq<char>)
    requires
        forall|k: int| 0 <= k < computation_table().len() ==> #[trigger] computation_table()[k].0
            != computation,
    ensures
        computation_encoding(destination, computation, jump_type) == Err::<Seq<char>, ErrorModel>(
            ErrorModel::UnknownMnemonic { mnemonic: computation },
        ),
{
    lemma_lookup_missing(computation_table(), computation);
}

} // verus!
