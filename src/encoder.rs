//! The binary encoder: one instruction to one 16-character machine word.
use vstd::prelude::*;
use vstd::string::*;
use crate::instruction::{AssemblerError, ErrorModel, Instruction, InstructionModel, result_model};
use crate::tables::{
    computation_table, destination_table, get_compuation_to_binary_map,
    get_destination_to_binary_map, get_jump_type_to_binary_map, is_bits, jump_table,
    lemma_lookup_code, lemma_tables_well_formed, lookup, table_lookup,
};
use crate::text::chars_of;
use vstd::arithmetic::power2::{lemma2_to64, lemma_pow2_unfold, pow2};

verus! {

/// The largest address plus one: addresses take 15 bits.
pub const ADDRESS_LIMIT: u32 = 32768;

/// A decimal digit.
pub open spec fn is_digit(c: char) -> bool {
    '0' <= c <= '9'
}

/// Every character is a decimal digit.
pub open spec fn all_digits(s: Seq<char>) -> bool {
    forall|i: int| 0 <= i < s.len() ==> is_digit(#[trigger] s[i])
}

/// The value of a decimal digit.
pub open spec fn digit_value(c: char) -> nat {
    (c as u32 - '0' as u32) as nat
}

/// The value of a sequence of decimal digits, most significant first.
pub open spec fn decimal_value(s: Seq<char>) -> nat
    decreases s.len(),
{
    if s.len() == 0 {
        0
    } else {
        decimal_value(s.drop_last()) * 10 + digit_value(s.last())
    }
}

/// The digits of an address literal: the text without one leading `+`, if it has one.
pub open spec fn address_digits(a: Seq<char>) -> Seq<char> {
    if a.len() > 0 && a[0] == '+' {
        a.drop_first()
    } else {
        a
    }
}

/// The value of an address literal, if it is a non-negative decimal integer
/// (optionally signed `+`) below 2^15.
pub open spec fn address_value(a: Seq<char>) -> Option<nat> {
    let d = address_digits(a);
    if d.len() > 0 && all_digits(d) && decimal_value(d) < ADDRESS_LIMIT {
        Some(decimal_value(d))
    } else {
        None
    }
}

/// The `width` low bits of `n` as `'0'`/`'1'` characters, most significant first.
pub open spec fn bits_of(n: nat, width: nat) -> Seq<char>
    decreases width,
{
    if width == 0 {
        Seq::empty()
    } else {
        bits_of(n / 2, (width - 1) as nat).push(if n % 2 == 1 { '1' } else { '0' })
    }
}

/// The number that a string of `'0'`/`'1'` characters denotes, most significant first.
pub open spec fn bits_value(s: Seq<char>) -> nat
    decreases s.len(),
{
    if s.len() == 0 {
        0
    } else {
        bits_value(s.drop_last()) * 2 + if s.last() == '1' { 1nat } else { 0nat }
    }
}

/// The machine word of an address instruction.
pub open spec fn address_encoding(a: Seq<char>) -> Result<Seq<char>, ErrorModel> {
    match address_value(a) {
        Some(v) => Ok(bits_of(v, 16)),
        None => Err(ErrorModel::AddressOutOfRange { address: a }),
    }
}

/// The machine word of a computation instruction: `111`, then the computation,
/// destination and jump codes. The first mnemonic that its table lacks, in that
/// order, is reported instead.
pub open spec fn computation_encoding(
    destination: Seq<char>,
    computation: Seq<char>,
    jump_type: Seq<char>,
) -> Result<Seq<char>, ErrorModel> {
    match table_lookup(computation_table(), computation) {
        None => Err(ErrorModel::UnknownMnemonic { mnemonic: computation }),
        Some(c) => match table_lookup(destination_table(), destination) {
            None => Err(ErrorModel::UnknownMnemonic { mnemonic: destination }),
            Some(d) => match table_lookup(jump_table(), jump_type) {
                None => Err(ErrorModel::UnknownMnemonic { mnemonic: jump_type }),
                Some(j) => Ok("111"@ + c + d + j),
            },
        },
    }
}

/// The machine word of an instruction.
pub open spec fn encode_model(i: InstructionModel) -> Result<Seq<char>, ErrorModel> {
    match i {
        InstructionModel::Address { address } => address_encoding(address),
        InstructionModel::Computation { destination, computation, jump_type } =>
            computation_encoding(destination, computation, jump_type),
    }
}

/// A prefix of a digit string is worth no more than the whole.
pub proof fn lemma_decimal_prefix(d: Seq<char>, k: int)
    requires
        0 <= k <= d.len(),
        all_digits(d),
    ensures
        decimal_value(d.take(k)) <= decimal_value(d),
    decreases d.len(),
{
    if k < d.len() {
        let e = d.drop_last();
        assert(d.take(k) =~= e.take(k));
        lemma_decimal_prefix(e, k);
    } else {
        assert(d.take(k) =~= d);
    }
}

/// The value of an address literal, or `None` where `address_value` has none.
fn parse_address(chars: &Vec<char>) -> (r: Option<u32>)
    ensures
        match r {
            Some(v) => address_value(chars@) == Some(v as nat),
            None => address_value(chars@) is None,
        },
{
    let n = chars.len();
    let start: usize = if n > 0 && chars[0] == '+' { 1 } else { 0 };
    let ghost d = address_digits(chars@);
    assert(d =~= chars@.subrange(start as int, n as int));
    if start == n {
        return None;
    }
    let mut value: u32 = 0;
    let mut i: usize = start;
    while i < n
        invariant
            start <= i <= n,
            n == chars@.len(),
            d == chars@.subrange(start as int, n as int),
            d == address_digits(chars@),
            all_digits(d.take(i - start)),
            value == decimal_value(d.take(i - start)),
            value < ADDRESS_LIMIT,
        decreases n - i,
    {
        let c = chars[i];
        assert(d[i - start] == c);
        if !('0' <= c && c <= '9') {
            assert(!is_digit(d[i - start]));
            return None;
        }
        let ghost prefix = d.take(i + 1 - start);
        assert(prefix.drop_last() =~= d.take(i - start));
        assert(prefix.last() == c);
        value = value * 10 + (c as u32 - '0' as u32);
        assert(all_digits(prefix));
        assert(value == decimal_value(prefix));
        if value >= ADDRESS_LIMIT {
            proof {
                if all_digits(d) {
                    lemma_decimal_prefix(d, i + 1 - start);
                }
            }
            return None;
        }
        i = i + 1;
    }
    assert(d.take(n - start) =~= d);
    Some(value)
}

/// The `width` low bits of `n`, most significant first.
fn bits(n: u32, width: usize) -> (r: String)
    ensures
        r@ == bits_of(n as nat, width as nat),
    decreases width,
{
    if width == 0 {
        String::new()
    } else {
        let mut r = bits(n / 2, width - 1);
        proof {
            reveal_strlit("0");
            reveal_strlit("1");
        }
        if n % 2 == 1 {
            r.append("1");
        } else {
            r.append("0");
        }
        r
    }
}

/// `bits_of` gives `width` characters, each `'0'` or `'1'`.
pub proof fn lemma_bits_of_shape(n: nat, width: nat)
    ensures
        bits_of(n, width).len() == width,
        is_bits(bits_of(n, width)),
    decreases width,
{
    if width > 0 {
        lemma_bits_of_shape(n / 2, (width - 1) as nat);
    }
}

/// Read back, `bits_of` gives the number it was made from, when that number fits.
pub proof fn lemma_bits_value(n: nat, width: nat)
    requires
        n < pow2(width),
    ensures
        bits_value(bits_of(n, width)) == n,
    decreases width,
{
    if width > 0 {
        lemma_pow2_unfold(width);
        lemma_bits_value(n / 2, (width - 1) as nat);
        assert(bits_of(n, width).drop_last() =~= bits_of(n / 2, (width - 1) as nat));
    } else {
        lemma2_to64();
    }
}

/// A number below half the range starts with a `'0'`.
pub proof fn lemma_bits_leading_zero(n: nat, width: nat)
    requires
        width >= 1,
        n < pow2((width - 1) as nat),
    ensures
        bits_of(n, width)[0] == '0',
    decreases width,
{
    lemma_bits_of_shape(n / 2, (width - 1) as nat);
    if width == 1 {
        lemma2_to64();
    } else {
        lemma_pow2_unfold((width - 1) as nat);
        lemma_bits_leading_zero(n / 2, (width - 1) as nat);
    }
}

/// Encodes an address literal as a 16-bit word whose leading bit is `'0'`.
pub fn address_to_binary(address_string: &str) -> (r: Result<String, AssemblerError>)
    ensures
        result_model(r) == address_encoding(address_string@),
        r matches Ok(b) ==> b@.len() == 16 && is_bits(b@) && b@[0] == '0',
{
    let chars = chars_of(address_string);
    match parse_address(&chars) {
        None => Err(AssemblerError::AddressOutOfRange { address: address_string.to_owned() }),
        Some(v) => {
            let b = bits(v, 16);
            proof {
                lemma_bits_of_shape(v as nat, 16);
                lemma2_to64();
                lemma_bits_leading_zero(v as nat, 16);
            }
            Ok(b)
        },
    }
}

/// Encodes an instruction as a 16-character word of `'0'` and `'1'`.
pub fn instruction_to_binary(instruction: Instruction) -> (r: Result<String, AssemblerError>)
    ensures
        result_model(r) == encode_model(instruction@),
        r matches Ok(b) ==> b@.len() == 16 && is_bits(b@),
{
    match instruction {
        Instruction::Ainstruction { address } => address_to_binary(address.as_str()),
        Instruction::Cinstruction { destination, computation, jump_type } => {
            let comp = lookup(&get_compuation_to_binary_map(), &computation);
            let c = match comp {
                None => return Err(AssemblerError::UnknownMnemonic { mnemonic: computation }),
                Some(c) => c,
            };
            let dest = lookup(&get_destination_to_binary_map(), &destination);
            let d = match dest {
                None => return Err(AssemblerError::UnknownMnemonic { mnemonic: destination }),
                Some(d) => d,
            };
            let jump = lookup(&get_jump_type_to_binary_map(), &jump_type);
            let j = match jump {
                None => return Err(AssemblerError::UnknownMnemonic { mnemonic: jump_type }),
                Some(j) => j,
            };
            proof {
                reveal_strlit("111");
                lemma_tables_well_formed();
                lemma_lookup_code(computation_table(), computation@, 7);
                lemma_lookup_code(destination_table(), destination@, 3);
                lemma_lookup_code(jump_table(), jump_type@, 3);
            }
            let mut word = "111".to_owned();
            word.append(c.as_str());
            word.append(d.as_str());
            word.append(j.as_str());
            proof {
                let w = word@;
                assert(w =~= "111"@ + c@ + d@ + j@);
                assert forall|k: int| 0 <= k < w.len() implies w[k] == '0' || w[k] == '1' by {
                    if k >= 13 {
                        assert(w[k] == j@[k - 13]);
                    } else if k >= 10 {
                        assert(w[k] == d@[k - 10]);
                    } else if k >= 3 {
                        assert(w[k] == c@[k - 3]);
                    }
                }
            }
            Ok(word)
        },
    }
}

} // verus!
