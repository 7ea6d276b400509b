//! The instruction parser: one cleaned line of assembly to one instruction.
use vstd::prelude::*;
use vstd::string::*;
use crate::instruction::{AssemblerError, ErrorModel, Instruction, InstructionModel, result_model};
use crate::text::{chars_of, find_char, first_index, lemma_find_from};

verus! {

/// What a line parses to.
///
/// A line starting with `@` is an address instruction holding the rest of the
/// line. Any other non-empty line is a computation instruction: the
/// destination is the text before the first `=` (empty if there is none), the
/// computation runs from after that `=` (or from the start) up to the first
/// `;` (or the end), and the jump is the text after that `;` (empty if there
/// is none). An empty line, or an empty or missing computation, is malformed.
pub open spec fn parse_model(s: Seq<char>) -> Result<InstructionModel, ErrorModel> {
    if s.len() == 0 {
        Err(ErrorModel::MalformedInstruction)
    } else if s[0] == '@' {
        Ok(InstructionModel::Address { address: s.subrange(1, s.len() as int) })
    } else {
        let eq = first_index(s, '=');
        let semi = first_index(s, ';');
        let start = if eq < s.len() { eq + 1 } else { 0 };
        let destination = if eq < s.len() { s.subrange(0, eq) } else { Seq::empty() };
        let jump_type = if semi < s.len() { s.subrange(semi + 1, s.len() as int) } else { Seq::empty() };
        if semi <= start {
            Err(ErrorModel::MalformedInstruction)
        } else {
            Ok(InstructionModel::Computation {
                destination,
                computation: s.subrange(start, semi),
                jump_type,
            })
        }
    }
}

/// Parses one cleaned line of assembly (no whitespace, no comment) into an instruction.
pub fn get_instruction(assembly_string: &str) -> (r: Result<Instruction, AssemblerError>)
    ensures
        result_model(r) == parse_model(assembly_string@),
{
    let chars = chars_of(assembly_string);
    let n = chars.len();
    if n == 0 {
        return Err(AssemblerError::MalformedInstruction);
    }
    if chars[0] == '@' {
        let address = assembly_string.substring_char(1, n).to_owned();
        return Ok(Instruction::Ainstruction { address });
    }
    let eq = find_char(&chars, '=');
    let semi = find_char(&chars, ';');
    proof {
        lemma_find_from(chars@, '=', 0);
        lemma_find_from(chars@, ';', 0);
    }
    let start: usize = if eq < n { eq + 1 } else { 0 };
    if semi <= start {
        return Err(AssemblerError::MalformedInstruction);
    }
    let destination = if eq < n {
        assembly_string.substring_char(0, eq).to_owned()
    } else {
        String::new()
    };
    let computation = assembly_string.substring_char(start, semi).to_owned();
    let jump_type = if semi < n {
        assembly_string.substring_char(semi + 1, n).to_owned()
    } else {
        String::new()
    };
    proof {
        assert(destination@ =~= (if eq < n { chars@.subrange(0, eq as int) } else { Seq::empty() }));
        assert(jump_type@ =~= (if semi < n { chars@.subrange(semi + 1, n as int) } else { Seq::empty() }));
    }
    Ok(Instruction::Cinstruction { destination, computation, jump_type })
}

/// Parses each line in order. The result is the instructions of all lines, or
/// the error of the first line that does not parse.
pub fn get_instructions_from_lines(lines: &Vec<String>) -> (r: Result<Vec<Instruction>, AssemblerError>)
    ensures
        r is Ok <==> forall|k: int| 0 <= k < lines@.len() ==> (#[trigger] parse_model(lines@[k]@)) is Ok,
        r matches Ok(v) ==> v@.len() == lines@.len() && forall|k: int| 0 <= k < lines@.len()
            ==> parse_model(lines@[k]@) == Ok::<InstructionModel, ErrorModel>(#[trigger] v@[k]@),
        r matches Err(e) ==> exists|i: int| 0 <= i < lines@.len() && parse_model(lines@[i]@)
            == Err::<InstructionModel, ErrorModel>(e@) && forall|k: int| 0 <= k < i ==> (
            #[trigger] parse_model(lines@[k]@)) is Ok,
{
    let mut v: Vec<Instruction> = Vec::new();
    let mut i: usize = 0;
    while i < lines.len()
        invariant
            i <= lines@.len(),
            v@.len() == i,
            forall|k: int| 0 <= k < i ==> parse_model(lines@[k]@) == Ok::<InstructionModel, ErrorModel>(
                #[trigger] v@[k]@),
        decreases lines@.len() - i,
    {
        match get_instruction(lines[i].as_str()) {
            Ok(instruction) => v.push(instruction),
            Err(e) => {
                assert forall|k: int| 0 <= k < i implies (#[trigger] parse_model(lines@[k]@)) is Ok by {
                    assert(parse_model(lines@[k]@) == Ok::<InstructionModel, ErrorModel>(v@[k]@));
                }
                return Err(e);
            },
        }
        i = i + 1;
    }
    assert forall|k: int| 0 <= k < lines@.len() implies (#[trigger] parse_model(lines@[k]@)) is Ok by {
        assert(parse_model(lines@[k]@) == Ok::<InstructionModel, ErrorModel>(v@[k]@));
    }
    Ok(v)
}

} // verus!
