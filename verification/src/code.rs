//! The three code tables of the C-instruction: destination, jump and
//! computation mnemonics with the bit fields they stand for.

use vstd::prelude::*;
use vstd::hash_map::StringHashMap;

verus! {

/// The destination mnemonics and their three bits: `A` is bit 2, `D` bit 1,
/// `M` bit 0. A mnemonic names one to three of the registers, each once and
/// in any order; `null` names none.
pub open spec fn dest_table() -> Map<Seq<char>, u16> {
    Map::<Seq<char>, u16>::empty().insert("null"@, 0).insert("M"@, 1).insert("D"@, 2).insert(
        "DM"@,
        3,
    ).insert("MD"@, 3).insert("A"@, 4).insert("AM"@, 5).insert("MA"@, 5).insert("AD"@, 6).insert(
        "DA"@,
        6,
    ).insert("ADM"@, 7).insert("AMD"@, 7).insert("DAM"@, 7).insert("DMA"@, 7).insert(
        "MAD"@,
        7,
    ).insert("MDA"@, 7)
}

/// The jump mnemonics and their three bits.
pub open spec fn jump_table() -> Map<Seq<char>, u16> {
    Map::<Seq<char>, u16>::empty().insert("null"@, 0).insert("JGT"@, 1).insert("JEQ"@, 2).insert(
        "JGE"@,
        3,
    ).insert("JLT"@, 4).insert("JNE"@, 5).insert("JLE"@, 6).insert("JMP"@, 7)
}

/// The computations on `A` and `D`, whose `a` bit is 0.
pub open spec fn comp_table_a() -> Map<Seq<char>, u16> {
    Map::<Seq<char>, u16>::empty().insert("0"@, 0b0101010).insert("1"@, 0b0111111).insert(
        "-1"@,
        0b0111010,
    ).insert("D"@, 0b0001100).insert("A"@, 0b0110000).insert("!D"@, 0b0001101).insert(
        "!A"@,
        0b0110001,
    ).insert("-D"@, 0b0001111).insert("-A"@, 0b0110011).insert("D+1"@, 0b0011111).insert(
        "A+1"@,
        0b0110111,
    ).insert("D-1"@, 0b0001110).insert("A-1"@, 0b0110010).insert("D+A"@, 0b0000010).insert(
        "D-A"@,
        0b0010011,
    ).insert("A-D"@, 0b0000111).insert("D&A"@, 0b0000000).insert("D|A"@, 0b0010101)
}

/// The computation mnemonics and their seven bits, the `a` bit first: the
/// computations on `A` and `D`, then those that read `M` in place of `A`.
pub open spec fn comp_table() -> Map<Seq<char>, u16> {
    comp_table_a().insert("M"@, 0b1110000).insert("!M"@, 0b1110001).insert("-M"@, 0b1110011).insert(
        "M+1"@,
        0b1110111,
    ).insert("M-1"@, 0b1110010).insert("D+M"@, 0b1000010).insert("D-M"@, 0b1010011).insert(
        "M-D"@,
        0b1000111,
    ).insert("D&M"@, 0b1000000).insert("D|M"@, 0b1010101)
}

/// What a table holds for a key, if anything.
pub open spec fn lookup(table: Map<Seq<char>, u16>, key: Seq<char>) -> Option<u16> {
    if table.contains_key(key) {
        Some(table[key])
    } else {
        None
    }
}

/// The machine word of a C-instruction: `111`, then the seven bits of the
/// computation, the three of the destination and the three of the jump.
pub open spec fn c_word(comp: u16, dest: u16, jump: u16) -> u16 {
    (57344 + comp * 64 + dest * 8 + jump) as u16
}

/// The code tables, built once and only read afterwards.
pub struct Code {
    dest: StringHashMap<u16>,
    jump: StringHashMap<u16>,
    comp: StringHashMap<u16>,
}

impl Code {
    /// The tables hold the mnemonics of the Hack language and nothing else.
    pub closed spec fn wf(&self) -> bool {
        &&& self.dest@ == dest_table()
        &&& self.jump@ == jump_table()
        &&& self.comp@ == comp_table()
    }

    /// Builds the three tables.
    pub fn new() -> (code: Code)
        ensures
            code.wf(),
    {
        let mut dest: StringHashMap<u16> = StringHashMap::new();
        dest.insert(String::from_str("null"), 0);
        dest.insert(String::from_str("M"), 1);
        dest.insert(String::from_str("D"), 2);
        dest.insert(String::from_str("DM"), 3);
        dest.insert(String::from_str("MD"), 3);
        dest.insert(String::from_str("A"), 4);
        dest.insert(String::from_str("AM"), 5);
        dest.insert(String::from_str("MA"), 5);
        dest.insert(String::from_str("AD"), 6);
        dest.insert(String::from_str("DA"), 6);
        dest.insert(String::from_str("ADM"), 7);
        dest.insert(String::from_str("AMD"), 7);
        dest.insert(String::from_str("DAM"), 7);
        dest.insert(String::from_str("DMA"), 7);
        dest.insert(String::from_str("MAD"), 7);
        dest.insert(String::from_str("MDA"), 7);

        let mut jump: StringHashMap<u16> = StringHashMap::new();
        jump.insert(String::from_str("null"), 0);
        jump.insert(String::from_str("JGT"), 1);
        jump.insert(String::from_str("JEQ"), 2);
        jump.insert(String::from_str("JGE"), 3);
        jump.insert(String::from_str("JLT"), 4);
        jump.insert(String::from_str("JNE"), 5);
        jump.insert(String::from_str("JLE"), 6);
        jump.insert(String::from_str("JMP"), 7);

        let mut comp: StringHashMap<u16> = StringHashMap::new();
        comp.insert(String::from_str("0"), 0b0101010);
        comp.insert(String::from_str("1"), 0b0111111);
        comp.insert(String::from_str("-1"), 0b0111010);
        comp.insert(String::from_str("D"), 0b0001100);
        comp.insert(String::from_str("A"), 0b0110000);
        comp.insert(String::from_str("!D"), 0b0001101);
        comp.insert(String::from_str("!A"), 0b0110001);
        comp.insert(String::from_str("-D"), 0b0001111);
        comp.insert(String::from_str("-A"), 0b0110011);
        comp.insert(String::from_str("D+1"), 0b0011111);
        comp.insert(String::from_str("A+1"), 0b0110111);
        comp.insert(String::from_str("D-1"), 0b0001110);
        comp.insert(String::from_str("A-1"), 0b0110010);
        comp.insert(String::from_str("D+A"), 0b0000010);
        comp.insert(String::from_str("D-A"), 0b0010011);
        comp.insert(String::from_str("A-D"), 0b0000111);
        comp.insert(String::from_str("D&A"), 0b0000000);
        comp.insert(String::from_str("D|A"), 0b0010101);
        comp.insert(String::from_str("M"), 0b1110000);
        comp.insert(String::from_str("!M"), 0b1110001);
        comp.insert(String::from_str("-M"), 0b1110011);
        comp.insert(String::from_str("M+1"), 0b1110111);
        comp.insert(String::from_str("M-1"), 0b1110010);
        comp.insert(String::from_str("D+M"), 0b1000010);
        comp.insert(String::from_str("D-M"), 0b1010011);
        comp.insert(String::from_str("M-D"), 0b1000111);
        comp.insert(String::from_str("D&M"), 0b1000000);
        comp.insert(String::from_str("D|M"), 0b1010101);

        Code { dest, jump, comp }
    }

    /// The three bits of a destination mnemonic.
    pub fn dest(&self, mnemonic: &str) -> (bits: Option<u16>)
        requires
            self.wf(),
        ensures
            bits == lookup(dest_table(), mnemonic@),
    {
        match self.dest.get(mnemonic) {
            Some(bits) => Some(*bits),
            None => None,
        }
    }

    /// The three bits of a jump mnemonic.
    pub fn jump(&self, mnemonic: &str) -> (bits: Option<u16>)
        requires
            self.wf(),
        ensures
            bits == lookup(jump_table(), mnemonic@),
    {
        match self.jump.get(mnemonic) {
            Some(bits) => Some(*bits),
            None => None,
        }
    }

    /// The seven bits of a computation mnemonic.
    pub fn comp(&self, mnemonic: &str) -> (bits: Option<u16>)
        requires
            self.wf(),
        ensures
            bits == lookup(comp_table(), mnemonic@),
    {
        match self.comp.get(mnemonic) {
            Some(bits) => Some(*bits),
            None => None,
        }
    }
}

/// Every entry of the tables fits its field: three bits for a destination
/// and for a jump, seven for a computation.
pub proof fn lemma_code_ranges()
    ensures
        forall|k: Seq<char>| #[trigger] dest_table().contains_key(k) ==> dest_table()[k] < 8,
        forall|k: Seq<char>| #[trigger] jump_table().contains_key(k) ==> jump_table()[k] < 8,
        forall|k: Seq<char>| #[trigger] comp_table().contains_key(k) ==> comp_table()[k] < 128,
{
}

/// The destination bits that the letters of a mnemonic ask for: 4 for `A`,
/// 2 for `D` and 1 for `M`.
pub open spec fn register_bits(mnemonic: Seq<char>) -> u16 {
    ((if mnemonic.contains('A') {
        4int
    } else {
        0int
    }) + (if mnemonic.contains('D') {
        2int
    } else {
        0int
    }) + (if mnemonic.contains('M') {
        1int
    } else {
        0int
    })) as u16
}

/// What tells the mnemonics of a table apart: the length and the first
/// three characters.
pub open spec fn shape(mnemonic: Seq<char>) -> (nat, char, char, char) {
    (mnemonic.len(), mnemonic[0], mnemonic[1], mnemonic[2])
}

/// **The destination bits name the registers.** Every destination mnemonic
/// stands for the bits of the registers whose letters it holds, and `null`
/// for none.
pub proof fn lemma_dest_bits(mnemonic: Seq<char>)
    requires
        dest_table().contains_key(mnemonic),
    ensures
        dest_table()[mnemonic] == register_bits(mnemonic),
{
    lemma_dest_shapes();
    let m = mnemonic;
    assert(m.len() <= 4);
    assert(m.contains('A') <==> (m.len() >= 1 && m[0] == 'A') || (m.len() >= 2 && m[1] == 'A')
        || (m.len() >= 3 && m[2] == 'A'));
    assert(m.contains('D') <==> (m.len() >= 1 && m[0] == 'D') || (m.len() >= 2 && m[1] == 'D')
        || (m.len() >= 3 && m[2] == 'D'));
    assert(m.contains('M') <==> (m.len() >= 1 && m[0] == 'M') || (m.len() >= 2 && m[1] == 'M')
        || (m.len() >= 3 && m[2] == 'M'));
}

/// One of the three registers that a destination may name.
pub open spec fn register(c: char) -> bool {
    c == 'A' || c == 'D' || c == 'M'
}

/// **The destinations are the sets of registers.** A destination mnemonic
/// is `null`, or one to three letters out of `A`, `D` and `M`, none of them
/// twice, in any order.
pub proof fn lemma_dest_keys(mnemonic: Seq<char>)
    ensures
        dest_table().contains_key(mnemonic) <==> mnemonic == "null"@ || (mnemonic.len() > 0
            && mnemonic.no_duplicates() && forall|i: int|
            0 <= i < mnemonic.len() ==> register(#[trigger] mnemonic[i])),
{
    lemma_dest_shapes();
    let m = mnemonic;
    if dest_table().contains_key(m) {
        assert(m.len() <= 4);
    } else if m.len() > 0 && m.no_duplicates() && (forall|i: int|
        0 <= i < m.len() ==> register(#[trigger] m[i])) {
        if m.len() >= 4 {
            assert(register(m[0]) && register(m[1]) && register(m[2]) && register(m[3]));
        } else if m.len() == 1 {
            assert(register(m[0]));
            assert(m =~= "A"@ || m =~= "D"@ || m =~= "M"@);
        } else if m.len() == 2 {
            assert(register(m[0]) && register(m[1]));
            assert(m =~= "AD"@ || m =~= "DA"@ || m =~= "AM"@ || m =~= "MA"@ || m =~= "DM"@ || m
                =~= "MD"@);
        } else {
            assert(register(m[0]) && register(m[1]) && register(m[2]));
            assert(m =~= "ADM"@ || m =~= "AMD"@ || m =~= "DAM"@ || m =~= "DMA"@ || m =~= "MAD"@
                || m =~= "MDA"@);
        }
    }
}

/// What the destination mnemonics are made of.
proof fn lemma_dest_shapes()
    ensures
        "null"@.len() == 4,
        "M"@.len() == 1,
        "D"@.len() == 1,
        "DM"@.len() == 2,
        "MD"@.len() == 2,
        "A"@.len() == 1,
        "AM"@.len() == 2,
        "MA"@.len() == 2,
        "AD"@.len() == 2,
        "DA"@.len() == 2,
        "ADM"@.len() == 3,
        "AMD"@.len() == 3,
        "DAM"@.len() == 3,
        "DMA"@.len() == 3,
        "MAD"@.len() == 3,
        "MDA"@.len() == 3,
        "null"@[0] == 'n',
        "null"@[1] == 'u',
        "null"@[2] == 'l',
        "null"@[3] == 'l',
        "M"@[0] == 'M',
        "D"@[0] == 'D',
        "DM"@[0] == 'D',
        "DM"@[1] == 'M',
        "MD"@[0] == 'M',
        "MD"@[1] == 'D',
        "A"@[0] == 'A',
        "AM"@[0] == 'A',
        "AM"@[1] == 'M',
        "MA"@[0] == 'M',
        "MA"@[1] == 'A',
        "AD"@[0] == 'A',
        "AD"@[1] == 'D',
        "DA"@[0] == 'D',
        "DA"@[1] == 'A',
        "ADM"@[0] == 'A',
        "ADM"@[1] == 'D',
        "ADM"@[2] == 'M',
        "AMD"@[0] == 'A',
        "AMD"@[1] == 'M',
        "AMD"@[2] == 'D',
        "DAM"@[0] == 'D',
        "DAM"@[1] == 'A',
        "DAM"@[2] == 'M',
        "DMA"@[0] == 'D',
        "DMA"@[1] == 'M',
        "DMA"@[2] == 'A',
        "MAD"@[0] == 'M',
        "MAD"@[1] == 'A',
        "MAD"@[2] == 'D',
        "MDA"@[0] == 'M',
        "MDA"@[1] == 'D',
        "MDA"@[2] == 'A',
{
    reveal_strlit("null");
    reveal_strlit("M");
    reveal_strlit("D");
    reveal_strlit("DM");
    reveal_strlit("MD");
    reveal_strlit("A");
    reveal_strlit("AM");
    reveal_strlit("MA");
    reveal_strlit("AD");
    reveal_strlit("DA");
    reveal_strlit("ADM");
    reveal_strlit("AMD");
    reveal_strlit("DAM");
    reveal_strlit("DMA");
    reveal_strlit("MAD");
    reveal_strlit("MDA");
}

/// **The `a` bit tells `M` from `A`.** The first of the seven computation
/// bits is set exactly for the computations that read `M`.
pub proof fn lemma_a_bit(mnemonic: Seq<char>)
    requires
        comp_table().contains_key(mnemonic),
    ensures
        comp_table()[mnemonic] >= 64 <==> mnemonic.contains('M'),
{
    reveal_strlit("0");
    reveal_strlit("1");
    reveal_strlit("-1");
    reveal_strlit("D");
    reveal_strlit("A");
    reveal_strlit("!D");
    reveal_strlit("!A");
    reveal_strlit("-D");
    reveal_strlit("-A");
    reveal_strlit("D+1");
    reveal_strlit("A+1");
    reveal_strlit("D-1");
    reveal_strlit("A-1");
    reveal_strlit("D+A");
    reveal_strlit("D-A");
    reveal_strlit("A-D");
    reveal_strlit("D&A");
    reveal_strlit("D|A");
    reveal_strlit("M");
    reveal_strlit("!M");
    reveal_strlit("-M");
    reveal_strlit("M+1");
    reveal_strlit("M-1");
    reveal_strlit("D+M");
    reveal_strlit("D-M");
    reveal_strlit("M-D");
    reveal_strlit("D&M");
    reveal_strlit("D|M");
    let shapes = seq![
        shape("0"@),
        shape("1"@),
        shape("-1"@),
        shape("D"@),
        shape("A"@),
        shape("!D"@),
        shape("!A"@),
        shape("-D"@),
        shape("-A"@),
        shape("D+1"@),
        shape("A+1"@),
        shape("D-1"@),
        shape("A-1"@),
        shape("D+A"@),
        shape("D-A"@),
        shape("A-D"@),
        shape("D&A"@),
        shape("D|A"@),
        shape("M"@),
        shape("!M"@),
        shape("-M"@),
        shape("M+1"@),
        shape("M-1"@),
        shape("D+M"@),
        shape("D-M"@),
        shape("M-D"@),
        shape("D&M"@),
        shape("D|M"@),
    ];
    let m = mnemonic;
    assert(1 <= m.len() <= 3);
    assert(m.contains('M') <==> m[0] == 'M' || (m.len() >= 2 && m[1] == 'M') || (m.len() >= 3
        && m[2] == 'M'));
}

/// Packs the three fields of a C-instruction into its machine word.
pub fn encode_c(comp: u16, dest: u16, jump: u16) -> (word: u16)
    requires
        comp < 128,
        dest < 8,
        jump < 8,
    ensures
        word == c_word(comp, dest, jump),
        word >= 57344,
{
    57344 + comp * 64 + dest * 8 + jump
}

/// **The sizes of the tables.** There are sixteen spellings of the
/// destinations, eight jumps and twenty-eight computations.
pub proof fn lemma_table_sizes()
    ensures
        dest_table().dom().finite() && dest_table().len() == 16,
        jump_table().dom().finite() && jump_table().len() == 8,
        comp_table().dom().finite() && comp_table().len() == 28,
{
    lemma_small_table_sizes();
    lemma_comp_table_size();
}

/// The destination table holds sixteen entries, the jump table eight.
proof fn lemma_small_table_sizes()
    ensures
        dest_table().dom().finite() && dest_table().len() == 16,
        jump_table().dom().finite() && jump_table().len() == 8,
{
    lemma_dest_shapes();
    reveal_strlit("null");
    reveal_strlit("JGT");
    reveal_strlit("JEQ");
    reveal_strlit("JGE");
    reveal_strlit("JLT");
    reveal_strlit("JNE");
    reveal_strlit("JLE");
    reveal_strlit("JMP");
    let shapes = seq![
        shape("null"@),
        shape("M"@),
        shape("D"@),
        shape("DM"@),
        shape("MD"@),
        shape("A"@),
        shape("AM"@),
        shape("MA"@),
        shape("AD"@),
        shape("DA"@),
        shape("ADM"@),
        shape("AMD"@),
        shape("DAM"@),
        shape("DMA"@),
        shape("MAD"@),
        shape("MDA"@),
        shape("JGT"@),
        shape("JEQ"@),
        shape("JGE"@),
        shape("JLT"@),
        shape("JNE"@),
        shape("JLE"@),
        shape("JMP"@),
    ];
}

/// The computation table holds twenty-eight entries: the ten mnemonics
/// that read `M` are new to the eighteen that do not.
proof fn lemma_comp_table_size()
    ensures
        comp_table().dom().finite() && comp_table().len() == 28,
{
    lemma_comp_table_a_size();
    reveal_strlit("M");
    reveal_strlit("!M");
    reveal_strlit("-M");
    reveal_strlit("M+1");
    reveal_strlit("M-1");
    reveal_strlit("D+M");
    reveal_strlit("D-M");
    reveal_strlit("M-D");
    reveal_strlit("D&M");
    reveal_strlit("D|M");
    let shapes = seq![
        shape("M"@),
        shape("!M"@),
        shape("-M"@),
        shape("M+1"@),
        shape("M-1"@),
        shape("D+M"@),
        shape("D-M"@),
        shape("M-D"@),
        shape("D&M"@),
        shape("D|M"@),
    ];
    assert forall|key: Seq<char>| comp_table_a().contains_key(key) implies !key.contains('M') by {
        lemma_a_bit_of_a(key);
    }
    assert("M"@.contains('M')) by { assert("M"@[0] == 'M'); }
    assert("!M"@.contains('M')) by { assert("!M"@[1] == 'M'); }
    assert("-M"@.contains('M')) by { assert("-M"@[1] == 'M'); }
    assert("M+1"@.contains('M')) by { assert("M+1"@[0] == 'M'); }
    assert("M-1"@.contains('M')) by { assert("M-1"@[0] == 'M'); }
    assert("D+M"@.contains('M')) by { assert("D+M"@[2] == 'M'); }
    assert("D-M"@.contains('M')) by { assert("D-M"@[2] == 'M'); }
    assert("M-D"@.contains('M')) by { assert("M-D"@[0] == 'M'); }
    assert("D&M"@.contains('M')) by { assert("D&M"@[2] == 'M'); }
    assert("D|M"@.contains('M')) by { assert("D|M"@[2] == 'M'); }
}

/// No computation on `A` and `D` names `M`.
proof fn lemma_a_bit_of_a(key: Seq<char>)
    requires
        comp_table_a().contains_key(key),
    ensures
        !key.contains('M'),
{
    reveal_strlit("0");
    reveal_strlit("1");
    reveal_strlit("-1");
    reveal_strlit("D");
    reveal_strlit("A");
    reveal_strlit("!D");
    reveal_strlit("!A");
    reveal_strlit("-D");
    reveal_strlit("-A");
    reveal_strlit("D+1");
    reveal_strlit("A+1");
    reveal_strlit("D-1");
    reveal_strlit("A-1");
    reveal_strlit("D+A");
    reveal_strlit("D-A");
    reveal_strlit("A-D");
    reveal_strlit("D&A");
    reveal_strlit("D|A");
    assert(1 <= key.len() <= 3);
    assert(key.contains('M') <==> key[0] == 'M' || (key.len() >= 2 && key[1] == 'M') || (key.len()
        >= 3 && key[2] == 'M'));
}

/// There are eighteen computations on `A` and `D`.
proof fn lemma_comp_table_a_size()
    ensures
        comp_table_a().dom().finite() && comp_table_a().len() == 18,
{
    reveal_strlit("0");
    reveal_strlit("1");
    reveal_strlit("-1");
    reveal_strlit("D");
    reveal_strlit("A");
    reveal_strlit("!D");
    reveal_strlit("!A");
    reveal_strlit("-D");
    reveal_strlit("-A");
    reveal_strlit("D+1");
    reveal_strlit("A+1");
    reveal_strlit("D-1");
    reveal_strlit("A-1");
    reveal_strlit("D+A");
    reveal_strlit("D-A");
    reveal_strlit("A-D");
    reveal_strlit("D&A");
    reveal_strlit("D|A");
    let shapes = seq![
        shape("0"@),
        shape("1"@),
        shape("-1"@),
        shape("D"@),
        shape("A"@),
        shape("!D"@),
        shape("!A"@),
        shape("-D"@),
        shape("-A"@),
        shape("D+1"@),
        shape("A+1"@),
        shape("D-1"@),
        shape("A-1"@),
        shape("D+A"@),
        shape("D-A"@),
        shape("A-D"@),
        shape("D&A"@),
        shape("D|A"@),
    ];
}

} // verus!
