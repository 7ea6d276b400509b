//! The fixed mnemonic tables: destination, jump and computation codes.
use vstd::prelude::*;

verus! {

/// A table as the model sees it: a sequence of (mnemonic, code) pairs.
pub type TableModel = Seq<(Seq<char>, Seq<char>)>;

/// The model of an executable table.
pub open spec fn table_model(t: Seq<(String, String)>) -> TableModel {
    t.map_values(|p: (String, String)| (p.0@, p.1@))
}

/// The code of the first entry whose mnemonic is `key`, if any.
pub open spec fn table_lookup(t: TableModel, key: Seq<char>) -> Option<Seq<char>>
    decreases t.len(),
{
    if t.len() == 0 {
        None
    } else if t[0].0 == key {
        Some(t[0].1)
    } else {
        table_lookup(t.drop_first(), key)
    }
}

/// No mnemonic occurs twice in the table.
pub open spec fn keys_distinct(t: TableModel) -> bool {
    forall|i: int, j: int| 0 <= i < j < t.len() ==> t[i].0 != t[j].0
}

/// Every code of the table is `width` characters of `'0'` and `'1'`.
pub open spec fn codes_are_bits(t: TableModel, width: nat) -> bool {
    forall|i: int| 0 <= i < t.len() ==> is_bits(#[trigger] t[i].1) && t[i].1.len() == width
}

/// The sequence consists of `'0'` and `'1'` only.
pub open spec fn is_bits(s: Seq<char>) -> bool {
    forall|i: int| 0 <= i < s.len() ==> s[i] == '0' || s[i] == '1'
}

/// Destination mnemonics and their 3-bit codes.
pub open spec fn destination_table() -> TableModel {
    seq![
        (""@, "000"@),
        ("M"@, "001"@),
        ("D"@, "010"@),
        ("MD"@, "011"@),
        ("A"@, "100"@),
        ("AM"@, "101"@),
        ("AD"@, "110"@),
        ("AMD"@, "111"@),
    ]
}

/// Jump mnemonics and their 3-bit codes.
pub open spec fn jump_table() -> TableModel {
    seq![
        (""@, "000"@),
        ("JGT"@, "001"@),
        ("JEQ"@, "010"@),
        ("JGE"@, "011"@),
        ("JLT"@, "100"@),
        ("JNE"@, "101"@),
        ("JLE"@, "110"@),
        ("JMP"@, "111"@),
    ]
}

/// Computation mnemonics and their 7-bit codes; the leading bit selects M over A.
pub open spec fn computation_table() -> TableModel {
    seq![
        ("0"@, "0101010"@),
        ("1"@, "0111111"@),
        ("-1"@, "0111010"@),
        ("D"@, "0001100"@),
        ("A"@, "0110000"@),
        ("!D"@, "0001101"@),
        ("!A"@, "0110001"@),
        ("-D"@, "0001111"@),
        ("-A"@, "0110011"@),
        ("D+1"@, "0011111"@),
        ("A+1"@, "0110111"@),
        ("D-1"@, "0001110"@),
        ("A-1"@, "0110010"@),
        ("D+A"@, "0000010"@),
        ("D-A"@, "0010011"@),
        ("A-D"@, "0000111"@),
        ("D&A"@, "0000000"@),
        ("D|A"@, "0010101"@),
        ("M"@, "1110000"@),
        ("!M"@, "1110001"@),
        ("-M"@, "1110011"@),
        ("M+1"@, "1110111"@),
        ("M-1"@, "1110010"@),
        ("D+M"@, "1000010"@),
        ("D-M"@, "1010011"@),
        ("M-D"@, "1000111"@),
        ("D&M"@, "1000000"@),
        ("D|M"@, "1010101"@),
    ]
}

fn entry(key: &str, code: &str) -> (r: (String, String))
    ensures
        r.0@ == key@,
        r.1@ == code@,
{
    (key.to_owned(), code.to_owned())
}

/// Builds the destination table.
pub fn get_destination_to_binary_map() -> (r: Vec<(String, String)>)
    ensures
        table_model(r@) == destination_table(),
{
    let mut t: Vec<(String, String)> = Vec::new();
    t.push(entry("", "000"));
    t.push(entry("M", "001"));
    t.push(entry("D", "010"));
    t.push(entry("MD", "011"));
    t.push(entry("A", "100"));
    t.push(entry("AM", "101"));
    t.push(entry("AD", "110"));
    t.push(entry("AMD", "111"));
    assert(table_model(t@) =~= destination_table());
    t
}

/// Builds the jump table.
pub fn get_jump_type_to_binary_map() -> (r: Vec<(String, String)>)
    ensures
        table_model(r@) == jump_table(),
{
    let mut t: Vec<(String, String)> = Vec::new();
    t.push(entry("", "000"));
    t.push(entry("JGT", "001"));
    t.push(entry("JEQ", "010"));
    t.push(entry("JGE", "011"));
    t.push(entry("JLT", "100"));
    t.push(entry("JNE", "101"));
    t.push(entry("JLE", "110"));
    t.push(entry("JMP", "111"));
    assert(table_model(t@) =~= jump_table());
    t
}

/// Builds the computation table.
pub fn get_compuation_to_binary_map() -> (r: Vec<(String, String)>)
    ensures
        table_model(r@) == computation_table(),
{
    let mut t: Vec<(String, String)> = Vec::new();
    t.push(entry("0", "0101010"));
    t.push(entry("1", "0111111"));
    t.push(entry("-1", "0111010"));
    t.push(entry("D", "0001100"));
    t.push(entry("A", "0110000"));
    t.push(entry("!D", "0001101"));
    t.push(entry("!A", "0110001"));
    t.push(entry("-D", "0001111"));
    t.push(entry("-A", "0110011"));
    t.push(entry("D+1", "0011111"));
    t.push(entry("A+1", "0110111"));
    t.push(entry("D-1", "0001110"));
    t.push(entry("A-1", "0110010"));
    t.push(entry("D+A", "0000010"));
    t.push(entry("D-A", "0010011"));
    t.push(entry("A-D", "0000111"));
    t.push(entry("D&A", "0000000"));
    t.push(entry("D|A", "0010101"));
    t.push(entry("M", "1110000"));
    t.push(entry("!M", "1110001"));
    t.push(entry("-M", "1110011"));
    t.push(entry("M+1", "1110111"));
    t.push(entry("M-1", "1110010"));
    t.push(entry("D+M", "1000010"));
    t.push(entry("D-M", "1010011"));
    t.push(entry("M-D", "1000111"));
    t.push(entry("D&M", "1000000"));
    t.push(entry("D|M", "1010101"));
    assert(table_model(t@) =~= computation_table());
    t
}

/// The model of a looked-up code.
pub open spec fn code_model(r: Option<String>) -> Option<Seq<char>> {
    match r {
        Some(c) => Some(c@),
        None => None,
    }
}

/// The character at `k`, or a space past the end.
spec fn char_at(s: Seq<char>, k: int) -> char {
    if 0 <= k < s.len() {
        s[k]
    } else {
        ' '
    }
}

/// Length and first three characters: this tells apart any two mnemonics of
/// at most three characters.
spec fn key_sig(s: Seq<char>) -> (nat, char, char, char) {
    (s.len(), char_at(s, 0), char_at(s, 1), char_at(s, 2))
}

/// The three tables are functions from mnemonic to code, and every code is a
/// bit string of its field's width.
pub proof fn lemma_tables_well_formed()
    ensures
        keys_distinct(destination_table()),
        keys_distinct(jump_table()),
        keys_distinct(computation_table()),
        codes_are_bits(destination_table(), 3),
        codes_are_bits(jump_table(), 3),
        codes_are_bits(computation_table(), 7),
{
    reveal_strlit("");
    reveal_strlit("000");
    reveal_strlit("M");
    reveal_strlit("001");
    reveal_strlit("D");
    reveal_strlit("010");
    reveal_strlit("MD");
    reveal_strlit("011");
    reveal_strlit("A");
    reveal_strlit("100");
    reveal_strlit("AM");
    reveal_strlit("101");
    reveal_strlit("AD");
    reveal_strlit("110");
    reveal_strlit("AMD");
    reveal_strlit("111");
    reveal_strlit("JGT");
    reveal_strlit("JEQ");
    reveal_strlit("JGE");
    reveal_strlit("JLT");
    reveal_strlit("JNE");
    reveal_strlit("JLE");
    reveal_strlit("JMP");
    reveal_strlit("0");
    reveal_strlit("0101010");
    reveal_strlit("1");
    reveal_strlit("0111111");
    reveal_strlit("-1");
    reveal_strlit("0111010");
    reveal_strlit("0001100");
    reveal_strlit("0110000");
    reveal_strlit("!D");
    reveal_strlit("0001101");
    reveal_strlit("!A");
    reveal_strlit("0110001");
    reveal_strlit("-D");
    reveal_strlit("0001111");
    reveal_strlit("-A");
    reveal_strlit("0110011");
    reveal_strlit("D+1");
    reveal_strlit("0011111");
    reveal_strlit("A+1");
    reveal_strlit("0110111");
    reveal_strlit("D-1");
    reveal_strlit("0001110");
    reveal_strlit("A-1");
    reveal_strlit("0110010");
    reveal_strlit("D+A");
    reveal_strlit("0000010");
    reveal_strlit("D-A");
    reveal_strlit("0010011");
    reveal_strlit("A-D");
    reveal_strlit("0000111");
    reveal_strlit("D&A");
    reveal_strlit("0000000");
    reveal_strlit("D|A");
    reveal_strlit("0010101");
    reveal_strlit("1110000");
    reveal_strlit("!M");
    reveal_strlit("1110001");
    reveal_strlit("-M");
    reveal_strlit("1110011");
    reveal_strlit("M+1");
    reveal_strlit("1110111");
    reveal_strlit("M-1");
    reveal_strlit("1110010");
    reveal_strlit("D+M");
    reveal_strlit("1000010");
    reveal_strlit("D-M");
    reveal_strlit("1010011");
    reveal_strlit("M-D");
    reveal_strlit("1000111");
    reveal_strlit("D&M");
    reveal_strlit("1000000");
    reveal_strlit("D|M");
    reveal_strlit("1010101");
    let d = destination_table();
    let m = jump_table();
    let c = computation_table();
    assert(forall|i: int, j: int|
        0 <= i < j < d.len() ==> key_sig(#[trigger] d[i].0) != key_sig(#[trigger] d[j].0));
    assert(forall|i: int, j: int|
        0 <= i < j < m.len() ==> key_sig(#[trigger] m[i].0) != key_sig(#[trigger] m[j].0));
    assert(forall|i: int, j: int|
        0 <= i < j < c.len() ==> key_sig(#[trigger] c[i].0) != key_sig(#[trigger] c[j].0));
}

/// A code that `table_lookup` returns has the shape that all codes of the table share.
pub proof fn lemma_lookup_code(t: TableModel, key: Seq<char>, width: nat)
    requires
        codes_are_bits(t, width),
    ensures
        table_lookup(t, key) matches Some(c) ==> is_bits(c) && c.len() == width,
    decreases t.len(),
{
    if t.len() > 0 {
        assert(is_bits(t[0].1));
        if t[0].0 != key {
            let u = t.drop_first();
            assert(codes_are_bits(u, width)) by {
                assert forall|i: int| 0 <= i < u.len() implies is_bits(#[trigger] u[i].1)
                    && u[i].1.len() == width by {
                    assert(u[i] == t[i + 1]);
                }
            }
            lemma_lookup_code(u, key, width);
        }
    }
}

/// In a table without repeated mnemonics, each entry's mnemonic looks up its own code.
pub proof fn lemma_lookup_entry(t: TableModel, i: int)
    requires
        keys_distinct(t),
        0 <= i < t.len(),
    ensures
        table_lookup(t, t[i].0) == Some(t[i].1),
    decreases t.len(),
{
    if i > 0 {
        let u = t.drop_first();
        assert(keys_distinct(u)) by {
            assert forall|a: int, b: int| 0 <= a < b < u.len() implies u[a].0 != u[b].0 by {
                assert(u[a] == t[a + 1] && u[b] == t[b + 1]);
            }
        }
        lemma_lookup_entry(u, i - 1);
        assert(u[i - 1] == t[i]);
    }
}

/// A mnemonic that no entry has is not found.
pub proof fn lemma_lookup_missing(t: TableModel, key: Seq<char>)
    requires
        forall|k: int| 0 <= k < t.len() ==> #[trigger] t[k].0 != key,
    ensures
        table_lookup(t, key) is None,
    decreases t.len(),
{
    if t.len() > 0 {
        let u = t.drop_first();
        assert forall|k: int| 0 <= k < u.len() implies #[trigger] u[k].0 != key by {
            assert(u[k] == t[k + 1]);
        }
        lemma_lookup_missing(u, key);
    }
}

/// Looks `key` up in `table`: the code of its first entry with that mnemonic.
pub fn lookup(table: &Vec<(String, String)>, key: &String) -> (r: Option<String>)
    ensures
        code_model(r) == table_lookup(table_model(table@), key@),
{
    let ghost t = table_model(table@);
    let mut i: usize = 0;
    assert(t.skip(0) =~= t);
    while i < table.len()
        invariant
            i <= table@.len(),
            t == table_model(table@),
            table_lookup(t, key@) == table_lookup(t.skip(i as int), key@),
        decreases table@.len() - i,
    {
        assert(t.skip(i as int).drop_first() =~= t.skip(i + 1));
        if table[i].0 == *key {
            return Some(table[i].1.clone());
        }
        i = i + 1;
    }
    None
}

} // verus!
