use vstd::prelude::*;

use crate::text::{to_upper, upper_of};

verus! {

/// Number of general-purpose registers of the machine.
pub const NUM_REGISTERS: usize = 10;

/// Value that stands for a token that resolves to nothing.
pub const UNRESOLVED: i32 = -1;

/// The opcodes of the instruction set.
pub open spec fn is_opcode(op: int) -> bool {
    op == 10 || op == 11 || op == 20 || op == 21 || op == 30 || op == 31 || op == 40 || op == 41
        || op == 42 || op == 50 || op == 60 || op == 61 || op == 62 || op == 70 || op == 255
}

/// Name of opcode `op`; "UNKNOWN" for a value outside the instruction set.
pub open spec fn mnemonic_spec(op: int) -> Seq<char> {
    if op == 10 {
        seq!['M', 'O', 'V', 'R']
    } else if op == 11 {
        seq!['M', 'O', 'V', 'V']
    } else if op == 20 {
        seq!['A', 'D', 'D']
    } else if op == 21 {
        seq!['S', 'U', 'B']
    } else if op == 30 {
        seq!['P', 'U', 'S', 'H']
    } else if op == 31 {
        seq!['P', 'O', 'P']
    } else if op == 40 {
        seq!['J', 'P']
    } else if op == 41 {
        seq!['J', 'L']
    } else if op == 42 {
        seq!['C', 'A', 'L', 'L']
    } else if op == 50 {
        seq!['R', 'E', 'T']
    } else if op == 60 {
        seq!['P', 'R', 'I', 'N', 'T']
    } else if op == 61 {
        seq!['D', 'R', 'A', 'W']
    } else if op == 62 {
        seq!['C', 'L', 'S']
    } else if op == 70 {
        seq!['S', 'L', 'P']
    } else if op == 255 {
        seq!['H', 'A', 'L', 'T']
    } else {
        seq!['U', 'N', 'K', 'N', 'O', 'W', 'N']
    }
}

/// Opcode named by `name` (exact, upper-case match), or -1 for any other name.
pub open spec fn opcode_spec(name: Seq<char>) -> int {
    if name == mnemonic_spec(10) {
        10
    } else if name == mnemonic_spec(11) {
        11
    } else if name == mnemonic_spec(20) {
        20
    } else if name == mnemonic_spec(21) {
        21
    } else if name == mnemonic_spec(30) {
        30
    } else if name == mnemonic_spec(31) {
        31
    } else if name == mnemonic_spec(40) {
        40
    } else if name == mnemonic_spec(41) {
        41
    } else if name == mnemonic_spec(42) {
        42
    } else if name == mnemonic_spec(50) {
        50
    } else if name == mnemonic_spec(60) {
        60
    } else if name == mnemonic_spec(61) {
        61
    } else if name == mnemonic_spec(62) {
        62
    } else if name == mnemonic_spec(70) {
        70
    } else if name == mnemonic_spec(255) {
        255
    } else {
        -1
    }
}

/// Index of register `name` ("R0" .. "R9"), or -1 when `name` names no register.
pub open spec fn register_spec(name: Seq<char>) -> int {
    if name.len() == 2 && name[0] == 'R' && '0' <= name[1] && name[1] <= '9' {
        name[1] as int - '0' as int
    } else {
        -1
    }
}

/// Whether `op` is an opcode of the instruction set.
pub fn is_known_opcode(op: i32) -> (r: bool)
    ensures
        r == is_opcode(op as int),
{
    op == 10 || op == 11 || op == 20 || op == 21 || op == 30 || op == 31 || op == 40 || op == 41
        || op == 42 || op == 50 || op == 60 || op == 61 || op == 62 || op == 70 || op == 255
}

/// Whether two strings hold the same characters.
pub fn str_eq(a: &str, b: &str) -> (r: bool)
    ensures
        r == (a@ == b@),
{
    let n = a.unicode_len();
    if n != b.unicode_len() {
        return false;
    }
    let mut i: usize = 0;
    while i < n
        invariant
            n == a@.len(),
            n == b@.len(),
            i <= n,
            forall|j: int| 0 <= j < i ==> a@[j] == b@[j],
        decreases n - i,
    {
        if a.get_char(i) != b.get_char(i) {
            return false;
        }
        i = i + 1;
    }
    assert(a@ =~= b@);
    true
}

/// Name of an opcode, for diagnostics.
pub fn mnemonic_of(op: i32) -> (r: &'static str)
    ensures
        r@ == mnemonic_spec(op as int),
{
    proof {
        reveal_strlit("MOVR");
        reveal_strlit("MOVV");
        reveal_strlit("ADD");
        reveal_strlit("SUB");
        reveal_strlit("PUSH");
        reveal_strlit("POP");
        reveal_strlit("JP");
        reveal_strlit("JL");
        reveal_strlit("CALL");
        reveal_strlit("RET");
        reveal_strlit("PRINT");
        reveal_strlit("DRAW");
        reveal_strlit("CLS");
        reveal_strlit("SLP");
        reveal_strlit("HALT");
        reveal_strlit("UNKNOWN");
    }
    let r = match op {
        10 => "MOVR",
        11 => "MOVV",
        20 => "ADD",
        21 => "SUB",
        30 => "PUSH",
        31 => "POP",
        40 => "JP",
        41 => "JL",
        42 => "CALL",
        50 => "RET",
        60 => "PRINT",
        61 => "DRAW",
        62 => "CLS",
        70 => "SLP",
        255 => "HALT",
        _ => "UNKNOWN",
    };
    assert(r@ =~= mnemonic_spec(op as int));
    r
}

/// Looks up an upper-case mnemonic exactly; -1 marks a name that is not one.
pub fn lookup_mnemonic(name: &str) -> (r: i32)
    ensures
        r == opcode_spec(name@),
{
    let mut op: i32 = 0;
    let table: [i32; 15] = [10, 11, 20, 21, 30, 31, 40, 41, 42, 50, 60, 61, 62, 70, 255];
    let mut k: usize = 0;
    while k < 15
        invariant
            k <= 15,
            table@ == seq![10i32, 11, 20, 21, 30, 31, 40, 41, 42, 50, 60, 61, 62, 70, 255],
            forall|j: int| 0 <= j < k ==> name@ != mnemonic_spec(table@[j] as int),
        decreases 15 - k,
    {
        op = table[k];
        if str_eq(name, mnemonic_of(op)) {
            assert(forall|j: int| 0 <= j < k ==> name@ != mnemonic_spec(table@[j] as int));
            return op;
        }
        k = k + 1;
    }
    UNRESOLVED
}

/// Looks up a mnemonic whatever its case: the name is raised to upper case first; -1 marks
/// a name that is not one.
pub fn opcode_of(name: &str) -> (r: i32)
    ensures
        r == opcode_spec(upper_of(name@)),
{
    let u = to_upper(name);
    lookup_mnemonic(u.as_str())
}

/// Looks up a register name; -1 marks a name that is not a register.
pub fn register_index_of(name: &str) -> (r: i32)
    ensures
        r == register_spec(name@),
{
    if name.unicode_len() != 2 {
        return UNRESOLVED;
    }
    let c0 = name.get_char(0);
    let c1 = name.get_char(1);
    if c0 == 'R' && '0' <= c1 && c1 <= '9' {
        (c1 as u32 - '0' as u32) as i32
    } else {
        UNRESOLVED
    }
}

/// Looking the name of an opcode up in the table gives back that opcode.
pub proof fn lemma_opcode_round_trip(op: int)
    requires
        is_opcode(op),
    ensures
        opcode_spec(mnemonic_spec(op)) == op,
{
}

} // verus!
