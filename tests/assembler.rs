use hack_assembler::{
    address_to_binary, get_compuation_to_binary_map, get_destination_to_binary_map,
    get_instruction, get_instructions_from_lines, get_jump_type_to_binary_map,
    instruction_to_binary, lookup, remove_all_comments, remove_all_empty_lines, remove_comment,
    remove_white_spaces, AssemblerError, Instruction,
};

fn c_instruction(destination: &str, computation: &str, jump_type: &str) -> Instruction {
    Instruction::Cinstruction {
        destination: destination.into(),
        computation: computation.into(),
        jump_type: jump_type.into(),
    }
}

fn encode_line(line: &str) -> Result<String, AssemblerError> {
    instruction_to_binary(get_instruction(line)?)
}

#[test]
fn test_remove_white_spaces() {
    let white_spaces_removed = remove_white_spaces("  A=B;JMP\t");
    assert_eq!(white_spaces_removed, "A=B;JMP");
}

#[test]
fn test_remove_all_comments() {
    let lines = vec!["// abc".to_string(), "a=b//dasdas//".to_string()];
    let expected = vec!["".to_string(), "a=b".to_string()];
    let lines_with_no_comments = remove_all_comments(&lines);
    assert_eq!(lines_with_no_comments, expected);
}

#[test]
fn test_remove_empty_lines() {
    let lines = vec!["abc".to_string(), "".to_string(), "abc".to_string()];
    let expected = vec!["abc".to_string(), "abc".to_string()];
    let result = remove_all_empty_lines(&lines);
    assert_eq!(result, expected);
}

#[test]
fn test_get_instruction() {
    let instruction = get_instruction("@1234");
    assert_eq!(instruction, Ok(Instruction::Ainstruction { address: "1234".into() }));

    let instruction = get_instruction("D=A+D;JMP");
    assert_eq!(
        instruction,
        Ok(Instruction::Cinstruction {
            destination: "D".into(),
            computation: "A+D".into(),
            jump_type: "JMP".into()
        })
    );

    let instruction = get_instruction("D=A+D");
    assert_eq!(
        instruction,
        Ok(Instruction::Cinstruction {
            destination: "D".into(),
            computation: "A+D".into(),
            jump_type: "".into()
        })
    );

    let instruction = get_instruction("0;JMP");
    assert_eq!(
        instruction,
        Ok(Instruction::Cinstruction {
            destination: "".into(),
            computation: "0".into(),
            jump_type: "JMP".into()
        })
    );
}

#[test]
fn test_address_to_binary() {
    assert_eq!(Ok("0000000000001000".to_string()), address_to_binary("8"));
}

#[test]
fn test_instruction_to_binary() {
    let result = instruction_to_binary(Instruction::Ainstruction { address: "8".into() });
    assert_eq!(Ok("0000000000001000".to_string()), result);
}

#[test]
fn address_lines_encode_their_value() {
    for n in [0u32, 1, 8, 1234, 16384, 32767] {
        let word = encode_line(&format!("@{}", n)).unwrap();
        assert_eq!(word.len(), 16);
        assert!(word.starts_with('0'));
        assert!(word.chars().all(|c| c == '0' || c == '1'));
        assert_eq!(u32::from_str_radix(&word, 2).unwrap(), n);
    }
    assert_eq!(encode_line("@32767"), Ok("0111111111111111".to_string()));
    assert_eq!(encode_line("@21845"), Ok("0101010101010101".to_string()));
}

#[test]
fn address_with_plus_sign_and_leading_zeros() {
    assert_eq!(address_to_binary("+5"), Ok("0000000000000101".to_string()));
    assert_eq!(address_to_binary("0005"), Ok("0000000000000101".to_string()));
}

#[test]
fn parse_bare_computation() {
    assert_eq!(get_instruction("D"), Ok(c_instruction("", "D", "")));
}

#[test]
fn parse_empty_line_is_malformed() {
    assert_eq!(get_instruction(""), Err(AssemblerError::MalformedInstruction));
}

#[test]
fn parse_empty_computation_is_malformed() {
    assert_eq!(get_instruction("D=;JMP"), Err(AssemblerError::MalformedInstruction));
    assert_eq!(get_instruction("D="), Err(AssemblerError::MalformedInstruction));
    assert_eq!(get_instruction(";JMP"), Err(AssemblerError::MalformedInstruction));
}

#[test]
fn parse_jump_before_assignment_is_malformed() {
    assert_eq!(get_instruction("0;D=M"), Err(AssemblerError::MalformedInstruction));
}

#[test]
fn parse_leading_equals_gives_empty_destination() {
    assert_eq!(get_instruction("=M"), Ok(c_instruction("", "M", "")));
}

#[test]
fn parse_full_computation() {
    assert_eq!(get_instruction("AMD=D|M;JLE"), Ok(c_instruction("AMD", "D|M", "JLE")));
    assert_eq!(get_instruction("@"), Ok(Instruction::Ainstruction { address: "".into() }));
}

#[test]
fn encode_table_combination() {
    assert_eq!(
        instruction_to_binary(c_instruction("D", "0", "JMP")),
        Ok("1110101010010111".to_string())
    );
    assert_eq!(encode_line("D=A+D;JMP"), Err(AssemblerError::UnknownMnemonic { mnemonic: "A+D".into() }));
    assert_eq!(encode_line("D=D+A;JMP"), Ok("1110000010010111".to_string()));
    assert_eq!(encode_line("AMD=M-1"), Ok("1111110010111000".to_string()));
    assert_eq!(encode_line("0;JMP"), Ok("1110101010000111".to_string()));
    assert_eq!(encode_line("M=D|M;JNE"), Ok("1111010101001101".to_string()));
}

#[test]
fn encode_every_table_combination() {
    let comps = get_compuation_to_binary_map();
    let dests = get_destination_to_binary_map();
    let jumps = get_jump_type_to_binary_map();
    assert_eq!(comps.len(), 28);
    assert_eq!(dests.len(), 8);
    assert_eq!(jumps.len(), 8);
    for (c, cc) in comps.iter() {
        for (d, dc) in dests.iter() {
            for (j, jc) in jumps.iter() {
                let word = instruction_to_binary(c_instruction(d, c, j)).unwrap();
                assert_eq!(word, format!("111{}{}{}", cc, dc, jc));
            }
        }
    }
}

#[test]
fn encode_unknown_computation() {
    assert_eq!(encode_line("Q"), Err(AssemblerError::UnknownMnemonic { mnemonic: "Q".into() }));
}

#[test]
fn encode_unknown_destination_and_jump() {
    assert_eq!(encode_line("DA=0"), Err(AssemblerError::UnknownMnemonic { mnemonic: "DA".into() }));
    assert_eq!(encode_line("0;JJJ"), Err(AssemblerError::UnknownMnemonic { mnemonic: "JJJ".into() }));
}

#[test]
fn encode_address_out_of_range() {
    assert_eq!(encode_line("@40000"), Err(AssemblerError::AddressOutOfRange { address: "40000".into() }));
    assert_eq!(encode_line("@32768"), Err(AssemblerError::AddressOutOfRange { address: "32768".into() }));
    assert_eq!(encode_line("@99999999999"), Err(AssemblerError::AddressOutOfRange { address: "99999999999".into() }));
}

#[test]
fn encode_address_not_a_number() {
    assert_eq!(address_to_binary("LOOP"), Err(AssemblerError::AddressOutOfRange { address: "LOOP".into() }));
    assert_eq!(address_to_binary(""), Err(AssemblerError::AddressOutOfRange { address: "".into() }));
    assert_eq!(address_to_binary("+"), Err(AssemblerError::AddressOutOfRange { address: "+".into() }));
    assert_eq!(address_to_binary("-1"), Err(AssemblerError::AddressOutOfRange { address: "-1".into() }));
    assert_eq!(address_to_binary("12a"), Err(AssemblerError::AddressOutOfRange { address: "12a".into() }));
}

#[test]
fn lookup_finds_codes() {
    let dests = get_destination_to_binary_map();
    assert_eq!(lookup(&dests, &"MD".to_string()), Some("011".to_string()));
    assert_eq!(lookup(&dests, &"DM".to_string()), None);
    let comps = get_compuation_to_binary_map();
    assert_eq!(lookup(&comps, &"D&M".to_string()), Some("1000000".to_string()));
}

#[test]
fn remove_comment_keeps_line_without_comment() {
    assert_eq!(remove_comment("D=M"), "D=M");
    assert_eq!(remove_comment("D=M/"), "D=M/");
    assert_eq!(remove_comment("//"), "");
    assert_eq!(remove_comment(""), "");
}

#[test]
fn remove_white_spaces_inside_line() {
    assert_eq!(remove_white_spaces("D = M ; JGT\r\n"), "D=M;JGT");
    assert_eq!(remove_white_spaces(""), "");
}

#[test]
fn instructions_from_lines() {
    let lines = vec!["@2".to_string(), "D=A".to_string()];
    assert_eq!(
        get_instructions_from_lines(&lines),
        Ok(vec![Instruction::Ainstruction { address: "2".into() }, c_instruction("D", "A", "")])
    );
    let lines = vec!["@2".to_string(), "".to_string(), "D=;".to_string()];
    assert_eq!(get_instructions_from_lines(&lines), Err(AssemblerError::MalformedInstruction));
}
