//! The general-purpose register model: a closed set of named registers, each
//! with exactly one bit-width class, a text parser over that set, and the
//! inverse name map used to state round-trip laws.

use vstd::prelude::*;
use crate::instruction::OperandSize;

verus! {

/// One architectural general-purpose register: a width class and a register
/// number below 16.
#[derive(Clone, Copy, Debug, PartialEq, Eq, Structural)]
pub struct Register {
    pub size: OperandSize,
    pub num: u8,
}

impl Register {
    /// A register number is always below 16.
    pub open spec fn wf(self) -> bool {
        self.num < 16
    }

    /// Width class of this register.
    pub fn size(self) -> (r: OperandSize)
        ensures
            r == self.size,
    {
        self.size
    }

    /// Register number, used by the byte encoder.
    pub fn num(self) -> (r: u8)
        ensures
            r == self.num,
    {
        self.num
    }

    /// Whether this is an 8-bit register.
    pub fn is_8bit(self) -> (r: bool)
        ensures
            r == (self.size == OperandSize::Ob),
    {
        matches!(self.size, OperandSize::Ob)
    }

    /// Whether this is a 16-bit register.
    pub fn is_16bit(self) -> (r: bool)
        ensures
            r == (self.size == OperandSize::Ow),
    {
        matches!(self.size, OperandSize::Ow)
    }

    /// Whether this is a 32-bit register.
    pub fn is_32bit(self) -> (r: bool)
        ensures
            r == (self.size == OperandSize::Od),
    {
        matches!(self.size, OperandSize::Od)
    }

    /// Whether this is a 64-bit register.
    pub fn is_64bit(self) -> (r: bool)
        ensures
            r == (self.size == OperandSize::Oq),
    {
        matches!(self.size, OperandSize::Oq)
    }
}

/// Assembly name of a 64-bit register by number.
pub open spec fn reg_name_q(n: int) -> Seq<char> {
    if n == 0 {
        seq!['r', 'a', 'x']
    } else if n == 1 {
        seq!['r', 'c', 'x']
    } else if n == 2 {
        seq!['r', 'd', 'x']
    } else if n == 3 {
        seq!['r', 'b', 'x']
    } else if n == 4 {
        seq!['r', 's', 'p']
    } else if n == 5 {
        seq!['r', 'b', 'p']
    } else if n == 6 {
        seq!['r', 's', 'i']
    } else if n == 7 {
        seq!['r', 'd', 'i']
    } else if n == 8 {
        seq!['r', '8']
    } else if n == 9 {
        seq!['r', '9']
    } else if n == 10 {
        seq!['r', '1', '0']
    } else if n == 11 {
        seq!['r', '1', '1']
    } else if n == 12 {
        seq!['r', '1', '2']
    } else if n == 13 {
        seq!['r', '1', '3']
    } else if n == 14 {
        seq!['r', '1', '4']
    } else {
        seq!['r', '1', '5']
    }
}

/// Assembly name of a 32-bit register by number.
pub open spec fn reg_name_d(n: int) -> Seq<char> {
    if n == 0 {
        seq!['e', 'a', 'x']
    } else if n == 1 {
        seq!['e', 'c', 'x']
    } else if n == 2 {
        seq!['e', 'd', 'x']
    } else if n == 3 {
        seq!['e', 'b', 'x']
    } else if n == 4 {
        seq!['e', 's', 'p']
    } else if n == 5 {
        seq!['e', 'b', 'p']
    } else if n == 6 {
        seq!['e', 's', 'i']
    } else if n == 7 {
        seq!['e', 'd', 'i']
    } else if n == 8 {
        seq!['r', '8', 'd']
    } else if n == 9 {
        seq!['r', '9', 'd']
    } else if n == 10 {
        seq!['r', '1', '0', 'd']
    } else if n == 11 {
        seq!['r', '1', '1', 'd']
    } else if n == 12 {
        seq!['r', '1', '2', 'd']
    } else if n == 13 {
        seq!['r', '1', '3', 'd']
    } else if n == 14 {
        seq!['r', '1', '4', 'd']
    } else {
        seq!['r', '1', '5', 'd']
    }
}

/// Assembly name of a 16-bit register by number.
pub open spec fn reg_name_w(n: int) -> Seq<char> {
    if n == 0 {
        seq!['a', 'x']
    } else if n == 1 {
        seq!['c', 'x']
    } else if n == 2 {
        seq!['d', 'x']
    } else if n == 3 {
        seq!['b', 'x']
    } else if n == 4 {
        seq!['s', 'p']
    } else if n == 5 {
        seq!['b', 'p']
    } else if n == 6 {
        seq!['s', 'i']
    } else if n == 7 {
        seq!['d', 'i']
    } else if n == 8 {
        seq!['r', '8', 'w']
    } else if n == 9 {
        seq!['r', '9', 'w']
    } else if n == 10 {
        seq!['r', '1', '0', 'w']
    } else if n == 11 {
        seq!['r', '1', '1', 'w']
    } else if n == 12 {
        seq!['r', '1', '2', 'w']
    } else if n == 13 {
        seq!['r', '1', '3', 'w']
    } else if n == 14 {
        seq!['r', '1', '4', 'w']
    } else {
        seq!['r', '1', '5', 'w']
    }
}

/// Assembly name of an 8-bit register by number.
pub open spec fn reg_name_b(n: int) -> Seq<char> {
    if n == 0 {
        seq!['a', 'l']
    } else if n == 1 {
        seq!['c', 'l']
    } else if n == 2 {
        seq!['d', 'l']
    } else if n == 3 {
        seq!['b', 'l']
    } else if n == 4 {
        seq!['s', 'p', 'l']
    } else if n == 5 {
        seq!['b', 'p', 'l']
    } else if n == 6 {
        seq!['s', 'i', 'l']
    } else if n == 7 {
        seq!['d', 'i', 'l']
    } else if n == 8 {
        seq!['r', '8', 'b']
    } else if n == 9 {
        seq!['r', '9', 'b']
    } else if n == 10 {
        seq!['r', '1', '0', 'b']
    } else if n == 11 {
        seq!['r', '1', '1', 'b']
    } else if n == 12 {
        seq!['r', '1', '2', 'b']
    } else if n == 13 {
        seq!['r', '1', '3', 'b']
    } else if n == 14 {
        seq!['r', '1', '4', 'b']
    } else {
        seq!['r', '1', '5', 'b']
    }
}

/// Assembly name of any register.
pub open spec fn reg_name(r: Register) -> Seq<char> {
    match r.size {
        OperandSize::Oq => reg_name_q(r.num as int),
        OperandSize::Od => reg_name_d(r.num as int),
        OperandSize::Ow => reg_name_w(r.num as int),
        OperandSize::Ob => reg_name_b(r.num as int),
    }
}

/// The register of width `size` whose name is `s`, if any.
pub open spec fn spec_parse_size(s: Seq<char>, size: OperandSize) -> Option<Register> {
    if s == reg_name(Register { size: size, num: 0 }) {
        Some(Register { size: size, num: 0 })
    } else if s == reg_name(Register { size: size, num: 1 }) {
        Some(Register { size: size, num: 1 })
    } else if s == reg_name(Register { size: size, num: 2 }) {
        Some(Register { size: size, num: 2 })
    } else if s == reg_name(Register { size: size, num: 3 }) {
        Some(Register { size: size, num: 3 })
    } else if s == reg_name(Register { size: size, num: 4 }) {
        Some(Register { size: size, num: 4 })
    } else if s == reg_name(Register { size: size, num: 5 }) {
        Some(Register { size: size, num: 5 })
    } else if s == reg_name(Register { size: size, num: 6 }) {
        Some(Register { size: size, num: 6 })
    } else if s == reg_name(Register { size: size, num: 7 }) {
        Some(Register { size: size, num: 7 })
    } else if s == reg_name(Register { size: size, num: 8 }) {
        Some(Register { size: size, num: 8 })
    } else if s == reg_name(Register { size: size, num: 9 }) {
        Some(Register { size: size, num: 9 })
    } else if s == reg_name(Register { size: size, num: 10 }) {
        Some(Register { size: size, num: 10 })
    } else if s == reg_name(Register { size: size, num: 11 }) {
        Some(Register { size: size, num: 11 })
    } else if s == reg_name(Register { size: size, num: 12 }) {
        Some(Register { size: size, num: 12 })
    } else if s == reg_name(Register { size: size, num: 13 }) {
        Some(Register { size: size, num: 13 })
    } else if s == reg_name(Register { size: size, num: 14 }) {
        Some(Register { size: size, num: 14 })
    } else if s == reg_name(Register { size: size, num: 15 }) {
        Some(Register { size: size, num: 15 })
    } else {
        None
    }
}

/// The register named `s`, if any; width classes are tried from widest to
/// narrowest, which is immaterial since all names are distinct.
pub open spec fn spec_parse_register(s: Seq<char>) -> Option<Register> {
    match spec_parse_size(s, OperandSize::Oq) {
        Some(r) => Some(r),
        None => match spec_parse_size(s, OperandSize::Od) {
            Some(r) => Some(r),
            None => match spec_parse_size(s, OperandSize::Ow) {
                Some(r) => Some(r),
                None => spec_parse_size(s, OperandSize::Ob),
            },
        },
    }
}

/// Whether `s` spells the name of register `num` of width `size`.
fn str_matches_name(s: &str, size: OperandSize, num: u8) -> (r: bool)
    requires
        num < 16,
    ensures
        r == (s@ == reg_name(Register { size, num })),
{
    let name = reg_name_str(size, num);
    crate::text::str_eq(s, name)
}

/// Parse a register name of the given width class.
fn parse_size(s: &str, size: OperandSize) -> (r: Option<Register>)
    ensures
        r == spec_parse_size(s@, size),
{
    if str_matches_name(s, size, 0) {
        Some(Register { size, num: 0 })
    } else if str_matches_name(s, size, 1) {
        Some(Register { size, num: 1 })
    } else if str_matches_name(s, size, 2) {
        Some(Register { size, num: 2 })
    } else if str_matches_name(s, size, 3) {
        Some(Register { size, num: 3 })
    } else if str_matches_name(s, size, 4) {
        Some(Register { size, num: 4 })
    } else if str_matches_name(s, size, 5) {
        Some(Register { size, num: 5 })
    } else if str_matches_name(s, size, 6) {
        Some(Register { size, num: 6 })
    } else if str_matches_name(s, size, 7) {
        Some(Register { size, num: 7 })
    } else if str_matches_name(s, size, 8) {
        Some(Register { size, num: 8 })
    } else if str_matches_name(s, size, 9) {
        Some(Register { size, num: 9 })
    } else if str_matches_name(s, size, 10) {
        Some(Register { size, num: 10 })
    } else if str_matches_name(s, size, 11) {
        Some(Register { size, num: 11 })
    } else if str_matches_name(s, size, 12) {
        Some(Register { size, num: 12 })
    } else if str_matches_name(s, size, 13) {
        Some(Register { size, num: 13 })
    } else if str_matches_name(s, size, 14) {
        Some(Register { size, num: 14 })
    } else if str_matches_name(s, size, 15) {
        Some(Register { size, num: 15 })
    } else {
        None
    }
}

/// Runtime name of register `num` of width `size`.
#[verifier::rlimit(60)]
fn reg_name_str(size: OperandSize, num: u8) -> (r: &'static str)
    requires
        num < 16,
    ensures
        r@ == reg_name(Register { size, num }),
        r@.len() <= 4,
{
    let r: &'static str = match size {
        OperandSize::Oq => match num {
            0 => "rax",
            1 => "rcx",
            2 => "rdx",
            3 => "rbx",
            4 => "rsp",
            5 => "rbp",
            6 => "rsi",
            7 => "rdi",
            8 => "r8",
            9 => "r9",
            10 => "r10",
            11 => "r11",
            12 => "r12",
            13 => "r13",
            14 => "r14",
            _ => "r15",
        },
        OperandSize::Od => match num {
            0 => "eax",
            1 => "ecx",
            2 => "edx",
            3 => "ebx",
            4 => "esp",
            5 => "ebp",
            6 => "esi",
            7 => "edi",
            8 => "r8d",
            9 => "r9d",
            10 => "r10d",
            11 => "r11d",
            12 => "r12d",
            13 => "r13d",
            14 => "r14d",
            _ => "r15d",
        },
        OperandSize::Ow => match num {
            0 => "ax",
            1 => "cx",
            2 => "dx",
            3 => "bx",
            4 => "sp",
            5 => "bp",
            6 => "si",
            7 => "di",
            8 => "r8w",
            9 => "r9w",
            10 => "r10w",
            11 => "r11w",
            12 => "r12w",
            13 => "r13w",
            14 => "r14w",
            _ => "r15w",
        },
        OperandSize::Ob => match num {
            0 => "al",
            1 => "cl",
            2 => "dl",
            3 => "bl",
            4 => "spl",
            5 => "bpl",
            6 => "sil",
            7 => "dil",
            8 => "r8b",
            9 => "r9b",
            10 => "r10b",
            11 => "r11b",
            12 => "r12b",
            13 => "r13b",
            14 => "r14b",
            _ => "r15b",
        },
    };
    proof {
        reveal_strlit("rax");
        reveal_strlit("rcx");
        reveal_strlit("rdx");
        reveal_strlit("rbx");
        reveal_strlit("rsp");
        reveal_strlit("rbp");
        reveal_strlit("rsi");
        reveal_strlit("rdi");
        reveal_strlit("r8");
        reveal_strlit("r9");
        reveal_strlit("r10");
        reveal_strlit("r11");
        reveal_strlit("r12");
        reveal_strlit("r13");
        reveal_strlit("r14");
        reveal_strlit("r15");
        reveal_strlit("eax");
        reveal_strlit("ecx");
        reveal_strlit("edx");
        reveal_strlit("ebx");
        reveal_strlit("esp");
        reveal_strlit("ebp");
        reveal_strlit("esi");
        reveal_strlit("edi");
        reveal_strlit("r8d");
        reveal_strlit("r9d");
        reveal_strlit("r10d");
        reveal_strlit("r11d");
        reveal_strlit("r12d");
        reveal_strlit("r13d");
        reveal_strlit("r14d");
        reveal_strlit("r15d");
        reveal_strlit("ax");
        reveal_strlit("cx");
        reveal_strlit("dx");
        reveal_strlit("bx");
        reveal_strlit("sp");
        reveal_strlit("bp");
        reveal_strlit("si");
        reveal_strlit("di");
        reveal_strlit("r8w");
        reveal_strlit("r9w");
        reveal_strlit("r10w");
        reveal_strlit("r11w");
        reveal_strlit("r12w");
        reveal_strlit("r13w");
        reveal_strlit("r14w");
        reveal_strlit("r15w");
        reveal_strlit("al");
        reveal_strlit("cl");
        reveal_strlit("dl");
        reveal_strlit("bl");
        reveal_strlit("spl");
        reveal_strlit("bpl");
        reveal_strlit("sil");
        reveal_strlit("dil");
        reveal_strlit("r8b");
        reveal_strlit("r9b");
        reveal_strlit("r10b");
        reveal_strlit("r11b");
        reveal_strlit("r12b");
        reveal_strlit("r13b");
        reveal_strlit("r14b");
        reveal_strlit("r15b");
        assert(r@ =~= reg_name(Register { size, num }));
    }
    r
}

/// A character that may appear in a register name: a lowercase letter or a
/// decimal digit.
pub open spec fn plain_name_char(c: char) -> bool {
    ('a' as u32 <= c as u32 && c as u32 <= 'z' as u32) || ('0' as u32 <= c as u32 && c as u32
        <= '9' as u32)
}

/// Register names are two to four characters long and hold only lowercase
/// letters and digits.
#[verifier::rlimit(100)]
pub proof fn lemma_reg_name_chars(r: Register)
    requires
        r.wf(),
    ensures
        2 <= reg_name(r).len() <= 4,
        forall|k: int| 0 <= k < reg_name(r).len() ==> plain_name_char(#[trigger] reg_name(r)[k]),
{
}

/// The distinguishing shape of a register name of each width: its length and
/// its first and last characters suffice to tell the widths apart.
pub open spec fn name_shape(size: OperandSize, s: Seq<char>) -> bool {
    match size {
        OperandSize::Oq => s.len() >= 2 && s[0] == 'r' && 2 <= s.len() <= 3 && (s.last() == 'x'
            || s.last() == 'p' || s.last() == 'i' || s.last() == '8' || s.last() == '9' || s.last()
            == '0' || s.last() == '1' || s.last() == '2' || s.last() == '3' || s.last() == '4'
            || s.last() == '5'),
        OperandSize::Od => s.len() >= 2 && ((s.len() == 3 && s[0] == 'e') || (s[0] == 'r'
            && s.last() == 'd' && 3 <= s.len() <= 4)),
        OperandSize::Ow => s.len() >= 2 && ((s.len() == 2 && (s[0] == 'a' || s[0] == 'c' || s[0]
            == 'd' || s[0] == 'b' || s[0] == 's') && (s.last() == 'x' || s.last() == 'p'
            || s.last() == 'i')) || (s[0] == 'r' && s.last() == 'w' && 3 <= s.len() <= 4)),
        OperandSize::Ob => s.len() >= 2 && ((s.len() == 2 && s.last() == 'l') || (s.len() == 3 && (
        s[0] == 's' || s[0] == 'b' || s[0] == 'd') && s.last() == 'l') || (s[0] == 'r' && s.last()
            == 'b' && 3 <= s.len() <= 4)),
    }
}

/// Every register name has the shape of its width class.
#[verifier::rlimit(100)]
pub proof fn lemma_reg_name_shape(r: Register)
    requires
        r.wf(),
    ensures
        name_shape(r.size, reg_name(r)),
{
}

/// Registers of different widths have different names.
pub proof fn lemma_names_distinct(r1: Register, r2: Register)
    requires
        r1.wf(),
        r2.wf(),
        r1.size != r2.size,
    ensures
        reg_name(r1) != reg_name(r2),
{
    lemma_reg_name_shape(r1);
    lemma_reg_name_shape(r2);
}

/// Law: parsing the name of any register recovers exactly that register.
#[verifier::rlimit(100)]
pub proof fn lemma_reg_name_parses(r: Register)
    requires
        r.wf(),
    ensures
        spec_parse_register(reg_name(r)) == Some(r),
{
    let s = reg_name(r);
    assert forall|size: OperandSize, j: u8|
        j < 16 && size != r.size implies s != reg_name(
        Register { size, num: j },
    ) by {
        lemma_names_distinct(r, Register { size, num: j });
    }
    match r.size {
        OperandSize::Oq => {
            assert(spec_parse_size(s, OperandSize::Oq) == Some(r));
        },
        OperandSize::Od => {
            assert(spec_parse_size(s, OperandSize::Oq) is None);
            assert(spec_parse_size(s, OperandSize::Od) == Some(r));
        },
        OperandSize::Ow => {
            assert(spec_parse_size(s, OperandSize::Oq) is None);
            assert(spec_parse_size(s, OperandSize::Od) is None);
            assert(spec_parse_size(s, OperandSize::Ow) == Some(r));
        },
        OperandSize::Ob => {
            assert(spec_parse_size(s, OperandSize::Oq) is None);
            assert(spec_parse_size(s, OperandSize::Od) is None);
            assert(spec_parse_size(s, OperandSize::Ow) is None);
            assert(spec_parse_size(s, OperandSize::Ob) == Some(r));
        },
    }
}

/// Parse a register name.  Returns `None` when `s` is not the exact lowercase
/// name of a general-purpose register.
pub fn parse_register(s: &str) -> (r: Option<Register>)
    ensures
        r == spec_parse_register(s@),
{
    match parse_size(s, OperandSize::Oq) {
        Some(r) => Some(r),
        None => match parse_size(s, OperandSize::Od) {
            Some(r) => Some(r),
            None => match parse_size(s, OperandSize::Ow) {
                Some(r) => Some(r),
                None => parse_size(s, OperandSize::Ob),
            },
        },
    }
}

} // verus!
