//! The symbol table of the assembler: symbols and the addresses bound to
//! them.

use vstd::prelude::*;
use vstd::hash_map::StringHashMap;
use crate::text::{
    decimal_text, identifier, lemma_decimal_text_digits, lemma_decimal_text_injective,
    push_decimal,
};

verus! {

/// The largest address of the Hack machine.
pub const MAX_ADDRESS: u16 = 32767;

/// The address of the first variable.
pub const FIRST_VARIABLE: u16 = 16;

/// The address of the screen map, where the room for variables ends.
pub const SCREEN_ADDRESS: u16 = 16384;

/// The address of the keyboard register.
pub const KEYBOARD_ADDRESS: u16 = 24576;

/// The name of the virtual register `n`: `R0` to `R15`.
pub open spec fn register_name(n: nat) -> Seq<char> {
    seq!['R'] + decimal_text(n)
}

/// `table` with the virtual registers below `n` bound to their numbers.
pub open spec fn with_registers(table: Map<Seq<char>, u16>, n: nat) -> Map<Seq<char>, u16>
    decreases n,
{
    if n == 0 {
        table
    } else {
        with_registers(table, (n - 1) as nat).insert(register_name((n - 1) as nat), (n - 1) as u16)
    }
}

/// `table` with the pointers and the two devices bound to their addresses.
pub open spec fn with_pointers(table: Map<Seq<char>, u16>) -> Map<Seq<char>, u16> {
    table.insert("SP"@, 0).insert("LCL"@, 1).insert("ARG"@, 2).insert("THIS"@, 3).insert(
        "THAT"@,
        4,
    ).insert("SCREEN"@, SCREEN_ADDRESS).insert("KBD"@, KEYBOARD_ADDRESS)
}

/// `table` with every predefined symbol bound to its address: `R0` to `R15`,
/// `SP`, `LCL`, `ARG`, `THIS`, `THAT`, `SCREEN` and `KBD`.
pub open spec fn with_predefined(table: Map<Seq<char>, u16>) -> Map<Seq<char>, u16> {
    with_pointers(with_registers(table, 16))
}

/// The predefined symbols alone.
pub open spec fn predefined_symbols() -> Map<Seq<char>, u16> {
    with_predefined(Map::empty())
}

/// Every symbol is an identifier and every address is at most 32767.
pub open spec fn symbols_wf(table: Map<Seq<char>, u16>) -> bool {
    forall|name: Seq<char>| #[trigger]
        table.contains_key(name) ==> identifier(name) && table[name] <= MAX_ADDRESS
}

/// The registers below `n` are bound to their numbers.
proof fn lemma_with_registers(table: Map<Seq<char>, u16>, n: nat)
    requires
        n <= 16,
    ensures
        forall|k: nat|
            k < n ==> with_registers(table, n).contains_key(#[trigger] register_name(k))
                && with_registers(table, n)[register_name(k)] == k,
    decreases n,
{
    if n > 0 {
        let last = (n - 1) as nat;
        lemma_with_registers(table, last);
        assert forall|k: nat| k < n implies with_registers(table, n).contains_key(
            #[trigger] register_name(k),
        ) && with_registers(table, n)[register_name(k)] == k by {
            if k < last && register_name(k) == register_name(last) {
                assert(register_name(k).skip(1) == decimal_text(k));
                assert(register_name(last).skip(1) == decimal_text(last));
                lemma_decimal_text_injective(k, last);
            }
        }
    }
}

/// **The predefined symbols and their addresses.** After the predefined
/// symbols are bound, `R0` to `R15` stand for 0 to 15, `SP`, `LCL`, `ARG`,
/// `THIS` and `THAT` for 0 to 4, `SCREEN` for 16384 and `KBD` for 24576.
pub proof fn lemma_predefined(table: Map<Seq<char>, u16>)
    ensures
        forall|n: nat|
            n < 16 ==> with_predefined(table).contains_key(#[trigger] register_name(n))
                && with_predefined(table)[register_name(n)] == n,
        with_predefined(table).contains_key("SP"@) && with_predefined(table)["SP"@] == 0,
        with_predefined(table).contains_key("LCL"@) && with_predefined(table)["LCL"@] == 1,
        with_predefined(table).contains_key("ARG"@) && with_predefined(table)["ARG"@] == 2,
        with_predefined(table).contains_key("THIS"@) && with_predefined(table)["THIS"@] == 3,
        with_predefined(table).contains_key("THAT"@) && with_predefined(table)["THAT"@] == 4,
        with_predefined(table).contains_key("SCREEN"@) && with_predefined(table)["SCREEN"@]
            == 16384,
        with_predefined(table).contains_key("KBD"@) && with_predefined(table)["KBD"@] == 24576,
{
    reveal_strlit("SP");
    reveal_strlit("LCL");
    reveal_strlit("ARG");
    reveal_strlit("THIS");
    reveal_strlit("THAT");
    reveal_strlit("SCREEN");
    reveal_strlit("KBD");
    let firsts = seq![
        "SP"@[0],
        "LCL"@[0],
        "ARG"@[0],
        "THIS"@[0],
        "THAT"@[0],
        "SCREEN"@[0],
        "KBD"@[0],
        "THIS"@[2],
        "THAT"@[2],
        "SP"@[1],
        "SCREEN"@[1],
    ];
    lemma_with_registers(table, 16);
    assert forall|n: nat| n < 16 implies with_predefined(table).contains_key(
        #[trigger] register_name(n),
    ) && with_predefined(table)[register_name(n)] == n by {
        assert(register_name(n)[0] == 'R');
    }
}

/// A symbol table: identifiers bound to addresses of the Hack machine.
pub struct SymbolTable {
    entries: StringHashMap<u16>,
}

impl View for SymbolTable {
    type V = Map<Seq<char>, u16>;

    closed spec fn view(&self) -> Map<Seq<char>, u16> {
        self.entries@
    }
}

impl SymbolTable {
    /// The invariant of the table.
    pub open spec fn wf(&self) -> bool {
        symbols_wf(self@)
    }

    /// The empty table.
    pub fn new() -> (table: SymbolTable)
        ensures
            table@ == Map::<Seq<char>, u16>::empty(),
            table.wf(),
    {
        SymbolTable { entries: StringHashMap::new() }
    }

    /// The address bound to `name`, if any.
    pub fn get(&self, name: &str) -> (address: Option<u16>)
        ensures
            address == (if self@.contains_key(name@) {
                Some(self@[name@])
            } else {
                None
            }),
    {
        match self.entries.get(name) {
            Some(address) => Some(*address),
            None => None,
        }
    }

    /// Tells whether `name` is bound.
    pub fn contains(&self, name: &str) -> (bound: bool)
        ensures
            bound == self@.contains_key(name@),
    {
        self.entries.contains_key(name)
    }

    /// Binds `name` to `address`; an earlier binding of `name` is replaced.
    pub(crate) fn bind(&mut self, name: String, address: u16)
        requires
            old(self).wf(),
            identifier(name@),
            address <= MAX_ADDRESS,
        ensures
            final(self)@ == old(self)@.insert(name@, address),
            final(self).wf(),
    {
        self.entries.insert(name, address);
    }

    /// Binds every predefined symbol to its address.
    pub fn bind_predefined(&mut self)
        requires
            old(self).wf(),
        ensures
            final(self)@ == with_predefined(old(self)@),
            final(self).wf(),
    {
        let mut n: u16 = 0;
        while n < 16
            invariant
                n <= 16,
                self.wf(),
                self@ == with_registers(old(self)@, n as nat),
            decreases 16 - n,
        {
            let mut name = String::from_str("R");
            push_decimal(&mut name, n as u64);
            proof {
                reveal_strlit("R");
                assert("R"@ == seq!['R']);
                lemma_decimal_text_digits(n as nat);
            }
            self.bind(name, n);
            n += 1;
        }
        proof {
            reveal_strlit("SP");
            reveal_strlit("LCL");
            reveal_strlit("ARG");
            reveal_strlit("THIS");
            reveal_strlit("THAT");
            reveal_strlit("SCREEN");
            reveal_strlit("KBD");
        }
        self.bind(String::from_str("SP"), 0);
        self.bind(String::from_str("LCL"), 1);
        self.bind(String::from_str("ARG"), 2);
        self.bind(String::from_str("THIS"), 3);
        self.bind(String::from_str("THAT"), 4);
        self.bind(String::from_str("SCREEN"), SCREEN_ADDRESS);
        self.bind(String::from_str("KBD"), KEYBOARD_ADDRESS);
    }
}

} // verus!
