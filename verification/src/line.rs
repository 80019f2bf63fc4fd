//! Source-line model: classification tag, mnemonic/operand splitting, lookup
//! against an instruction table, and typed operand extraction.

use vstd::prelude::*;
use crate::instruction::{parse_rm, parse_rm_spec, Instruction, OperandType};
use crate::register::{parse_register, spec_parse_register, Register};
use crate::text::{
    find_char, find_char_str, is_keyword, is_keyword_spec, opt_str_view, trim_spec, trim_str,
};
use crate::numbers::{stoi, stoi_spec};

verus! {

/// One source line, as classified by the surrounding assembler pass.  Only
/// `Instruction` lines carry text that this module splits and matches.
#[derive(Clone, Copy, Debug)]
pub enum Line<'a> {
    Blank,
    Label(&'a str),
    AsmCommand(&'a str),
    Instruction(&'a str),
    Unknown(&'a str),
}

/// A literal operand that is either already a numeric value or a symbolic
/// label reference to be resolved by a later pass.
#[derive(Clone, Copy, Debug, PartialEq, Eq)]
pub enum Relocation<'a, T> {
    Value(T),
    Label(&'a str),
}

/// Split instruction text into a mnemonic and up to two operand tokens,
/// separated by single spaces; `None` when a fourth token exists.
pub open spec fn spec_split_instruction(s: Seq<char>) -> Option<
    (Seq<char>, Option<Seq<char>>, Option<Seq<char>>),
> {
    let t = trim_spec(s);
    let i1 = find_char(t, ' ');
    if i1 == t.len() {
        Some((t, None, None))
    } else {
        let m = t.take(i1);
        let r1 = t.skip(i1 + 1);
        let i2 = find_char(r1, ' ');
        if i2 == r1.len() {
            Some((m, Some(r1), None))
        } else {
            let o1 = r1.take(i2);
            let r2 = r1.skip(i2 + 1);
            let i3 = find_char(r2, ' ');
            if i3 == r2.len() {
                Some((m, Some(o1), Some(r2)))
            } else {
                None
            }
        }
    }
}

impl<'a> Line<'a> {
    /// The mnemonic and operand tokens of this line, defined only for
    /// `Instruction` lines whose text has at most three tokens.
    pub open spec fn spec_split(self) -> Option<
        (Seq<char>, Option<Seq<char>>, Option<Seq<char>>),
    > {
        match self {
            Line::Instruction(s) => spec_split_instruction(s@),
            _ => None,
        }
    }

    /// The mnemonic token of this line.
    pub open spec fn spec_mnemonic(self) -> Option<Seq<char>> {
        match self.spec_split() {
            Some((m, _, _)) => Some(m),
            None => None,
        }
    }

    /// The operand tokens of this line.
    pub open spec fn spec_operands(self) -> Option<(Option<Seq<char>>, Option<Seq<char>>)> {
        match self.spec_split() {
            Some((_, o1, o2)) => Some((o1, o2)),
            None => None,
        }
    }

    /// Split an `Instruction` line into its mnemonic and up to two operand
    /// tokens.  Tokens are separated by single spaces; a fourth token makes
    /// the whole split fail.
    pub fn split_instruction(self) -> (r: Option<(&'a str, [Option<&'a str>; 2])>)
        ensures
            match r {
                Some(p) => self.spec_split() == Some(
                    (p.0@, opt_str_view(p.1[0]), opt_str_view(p.1[1])),
                ),
                None => self.spec_split() is None,
            },
    {
        match self {
            Line::Instruction(s) => {
                let t = trim_str(s);
                let n = t.unicode_len();
                let i1 = find_char_str(t, ' ');
                if i1 == n {
                    Some((t, [None, None]))
                } else {
                    let m = t.substring_char(0, i1);
                    let r1 = t.substring_char(i1 + 1, n);
                    proof {
                        assert(m@ =~= t@.take(i1 as int));
                        assert(r1@ =~= t@.skip(i1 + 1));
                    }
                    let n1 = r1.unicode_len();
                    let i2 = find_char_str(r1, ' ');
                    if i2 == n1 {
                        Some((m, [Some(r1), None]))
                    } else {
                        let o1 = r1.substring_char(0, i2);
                        let r2 = r1.substring_char(i2 + 1, n1);
                        proof {
                            assert(o1@ =~= r1@.take(i2 as int));
                            assert(r2@ =~= r1@.skip(i2 + 1));
                        }
                        let n2 = r2.unicode_len();
                        let i3 = find_char_str(r2, ' ');
                        if i3 == n2 {
                            Some((m, [Some(o1), Some(r2)]))
                        } else {
                            None
                        }
                    }
                }
            },
            _ => None,
        }
    }

    /// The mnemonic of an `Instruction` line.
    pub fn mnemonic(self) -> (r: Option<&'a str>)
        ensures
            opt_str_view(r) == self.spec_mnemonic(),
    {
        match self.split_instruction() {
            Some(p) => Some(p.0),
            None => None,
        }
    }

    /// The operand tokens of an `Instruction` line.
    pub fn operands(self) -> (r: Option<[Option<&'a str>; 2]>)
        ensures
            match r {
                Some(ops) => self.spec_operands() == Some(
                    (opt_str_view(ops[0]), opt_str_view(ops[1])),
                ),
                None => self.spec_operands() is None,
            },
    {
        match self.split_instruction() {
            Some(p) => Some(p.1),
            None => None,
        }
    }

    /// Find the first entry of `table` whose written form matches this line.
    /// The table is scanned in declared order; the first structurally
    /// matching entry wins.
    pub fn get_instruction(self, table: &[Instruction]) -> (r: Option<Instruction>)
        ensures
            r == spec_lookup(table@, self),
    {
        let n = table.len();
        let mut i: usize = 0;
        proof {
            assert(table@.skip(0) =~= table@);
        }
        while i < n
            invariant
                0 <= i <= n,
                n == table@.len(),
                spec_lookup(table@, self) == spec_lookup(table@.skip(i as int), self),
            decreases n - i,
        {
            let ins = table[i];
            let ghost pre = table@.skip(i as int);
            if ins.match_with(&self) {
                proof {
                    assert(pre[0] == table@[i as int]);
                }
                return Some(ins);
            }
            proof {
                assert(pre[0] == table@[i as int]);
                assert(pre.drop_first() =~= table@.skip(i + 1));
            }
            i += 1;
        }
        None
    }

    /// Whether this line is an `Instruction` line that some table entry
    /// matches.
    pub fn is_valid_instruction(self, table: &[Instruction]) -> (r: bool)
        ensures
            r == (self is Instruction && spec_lookup(table@, self) is Some),
    {
        match self {
            Line::Instruction(_) => self.get_instruction(table).is_some(),
            _ => false,
        }
    }

    /// The token standing in the slot that the matched entry declares with
    /// exactly `operand_type`.
    pub open spec fn spec_operand_token(
        self,
        table: Seq<Instruction>,
        operand_type: OperandType,
    ) -> Option<Seq<char>> {
        match spec_lookup(table, self) {
            Some(ins) => match ins.expression.spec_operand_index(operand_type) {
                Some(i) => match self.spec_split() {
                    Some((m, o1, o2)) => if i == 0 {
                        o1
                    } else {
                        o2
                    },
                    None => None,
                },
                None => None,
            },
            None => None,
        }
    }

    /// Locate the token of the matched entry's slot of type `operand_type`.
    fn get_operand_by_type(self, table: &[Instruction], operand_type: OperandType) -> (r: Option<
        &'a str,
    >)
        ensures
            opt_str_view(r) == self.spec_operand_token(table@, operand_type),
    {
        let instruction = match self.get_instruction(table) {
            Some(i) => i,
            None => {
                return None;
            },
        };
        let idx = match instruction.expression().get_operand_index_by_type(operand_type) {
            Some(i) => i,
            None => {
                return None;
            },
        };
        match self.operands() {
            Some(ops) => if idx == 0 {
                ops[0]
            } else {
                ops[1]
            },
            None => None,
        }
    }

    /// The token of the first register-typed slot, trying `R8`, `R16`, `R32`,
    /// `R64` in that order.
    pub open spec fn spec_register_token(self, table: Seq<Instruction>) -> Option<Seq<char>> {
        match self.spec_operand_token(table, OperandType::R8) {
            Some(t) => Some(t),
            None => match self.spec_operand_token(table, OperandType::R16) {
                Some(t) => Some(t),
                None => match self.spec_operand_token(table, OperandType::R32) {
                    Some(t) => Some(t),
                    None => self.spec_operand_token(table, OperandType::R64),
                },
            },
        }
    }

    /// Re-parse the register operand of the matched entry.
    ///
    /// Calling this when the matched entry declares no register-typed slot is
    /// a programmer error, excluded by precondition.
    pub fn register_operand(self, table: &[Instruction]) -> (r: Option<Register>)
        requires
            self.spec_register_token(table@) is Some,
        ensures
            match self.spec_register_token(table@) {
                Some(tok) => r == spec_parse_register(tok),
                None => false,
            },
    {
        let tok = match self.get_operand_by_type(table, OperandType::R8) {
            Some(t) => t,
            None => match self.get_operand_by_type(table, OperandType::R16) {
                Some(t) => t,
                None => match self.get_operand_by_type(table, OperandType::R32) {
                    Some(t) => t,
                    None => match self.get_operand_by_type(table, OperandType::R64) {
                        Some(t) => t,
                        None => {
                            return unreached();
                        },
                    },
                },
            },
        };
        parse_register(tok)
    }

    /// The token and width tag (`b`/`w`/`d`/`q`) of the first
    /// register-or-memory slot, trying `Rm8` through `Rm64` in that order.
    pub open spec fn spec_rm_token(self, table: Seq<Instruction>) -> Option<(Seq<char>, char)> {
        match self.spec_operand_token(table, OperandType::Rm8) {
            Some(t) => Some((t, 'b')),
            None => match self.spec_operand_token(table, OperandType::Rm16) {
                Some(t) => Some((t, 'w')),
                None => match self.spec_operand_token(table, OperandType::Rm32) {
                    Some(t) => Some((t, 'd')),
                    None => match self.spec_operand_token(table, OperandType::Rm64) {
                        Some(t) => Some((t, 'q')),
                        None => None,
                    },
                },
            },
        }
    }

    /// Re-parse the register-or-memory operand of the matched entry as a
    /// memory reference, returning the displacement, base, optional scaled
    /// index, and the slot's width tag.
    pub fn rm_ref_operand(self, table: &[Instruction]) -> (r: Option<
        (Relocation<'a, i64>, Register, Option<(Register, u8)>, char),
    >)
        ensures
            match self.spec_rm_token(table@) {
                Some(p) => match parse_rm_spec(trim_spec(p.0)) {
                    Some((d, b, idx)) => r == Some((Relocation::Value(d), b, idx, p.1)),
                    None => r is None,
                },
                None => r is None,
            },
    {
        let (tok, tag) = match self.get_operand_by_type(table, OperandType::Rm8) {
            Some(t) => (t, 'b'),
            None => match self.get_operand_by_type(table, OperandType::Rm16) {
                Some(t) => (t, 'w'),
                None => match self.get_operand_by_type(table, OperandType::Rm32) {
                    Some(t) => (t, 'd'),
                    None => match self.get_operand_by_type(table, OperandType::Rm64) {
                        Some(t) => (t, 'q'),
                        None => {
                            return None;
                        },
                    },
                },
            },
        };
        let t = trim_str(tok);
        match parse_rm(t) {
            Some((d, b, idx)) => Some((Relocation::Value(d), b, idx, tag)),
            None => None,
        }
    }

    /// Re-parse the register-or-memory operand of the matched entry as a bare
    /// register, for entries whose token was a register rather than a memory
    /// expression.
    ///
    /// Calling this when the matched entry declares no register-or-memory
    /// slot is a programmer error, excluded by precondition.
    pub fn rm_register_operand(self, table: &[Instruction]) -> (r: Option<Register>)
        requires
            self.spec_rm_token(table@) is Some,
        ensures
            match self.spec_rm_token(table@) {
                Some(p) => r == spec_parse_register(p.0),
                None => false,
            },
    {
        let tok = match self.get_operand_by_type(table, OperandType::Rm8) {
            Some(t) => t,
            None => match self.get_operand_by_type(table, OperandType::Rm16) {
                Some(t) => t,
                None => match self.get_operand_by_type(table, OperandType::Rm32) {
                    Some(t) => t,
                    None => match self.get_operand_by_type(table, OperandType::Rm64) {
                        Some(t) => t,
                        None => {
                            return unreached();
                        },
                    },
                },
            },
        };
        parse_register(tok)
    }

    /// The token of the first immediate or relative slot, trying `Imm8`,
    /// `Imm16`, `Imm32`, `Imm64`, `Rel32` in that order.
    pub open spec fn spec_imm_token(self, table: Seq<Instruction>) -> Option<Seq<char>> {
        match self.spec_operand_token(table, OperandType::Imm8) {
            Some(t) => Some(t),
            None => match self.spec_operand_token(table, OperandType::Imm16) {
                Some(t) => Some(t),
                None => match self.spec_operand_token(table, OperandType::Imm32) {
                    Some(t) => Some(t),
                    None => match self.spec_operand_token(table, OperandType::Imm64) {
                        Some(t) => Some(t),
                        None => self.spec_operand_token(table, OperandType::Rel32),
                    },
                },
            },
        }
    }

    /// Re-derive the immediate operand of the matched entry: a numeric token
    /// becomes a resolved value, a non-numeric identifier becomes a label
    /// relocation, and anything else is rejected.
    ///
    /// Calling this when the matched entry declares no immediate or relative
    /// slot is a programmer error, excluded by precondition.
    pub fn imm_operand(self, table: &[Instruction]) -> (r: Option<Relocation<'a, i128>>)
        requires
            self.spec_imm_token(table@) is Some,
        ensures
            match self.spec_imm_token(table@) {
                Some(tok) => match r {
                    Some(Relocation::Value(v)) => stoi_spec(tok) == Some(v),
                    Some(Relocation::Label(l)) => stoi_spec(tok) is None && is_keyword_spec(tok)
                        && l@ == tok,
                    None => stoi_spec(tok) is None && !is_keyword_spec(tok),
                },
                None => false,
            },
    {
        let tok = match self.get_operand_by_type(table, OperandType::Imm8) {
            Some(t) => t,
            None => match self.get_operand_by_type(table, OperandType::Imm16) {
                Some(t) => t,
                None => match self.get_operand_by_type(table, OperandType::Imm32) {
                    Some(t) => t,
                    None => match self.get_operand_by_type(table, OperandType::Imm64) {
                        Some(t) => t,
                        None => match self.get_operand_by_type(table, OperandType::Rel32) {
                            Some(t) => t,
                            None => {
                                return unreached();
                            },
                        },
                    },
                },
            },
        };
        match stoi(tok) {
            Some(n) => Some(Relocation::Value(n)),
            None => if is_keyword(tok) {
                Some(Relocation::Label(tok))
            } else {
                None
            },
        }
    }
}

/// The first entry of `table` whose written form matches `line`, scanning in
/// declared order.
pub open spec fn spec_lookup(table: Seq<Instruction>, line: Line) -> Option<Instruction>
    decreases table.len(),
{
    if table.len() == 0 {
        None
    } else if table[0].expression.spec_matches_line(line) {
        Some(table[0])
    } else {
        spec_lookup(table.drop_first(), line)
    }
}

/// What lookup returns always matches the line it was looked up for.
pub proof fn lemma_lookup_matches(table: Seq<Instruction>, line: Line)
    ensures
        match spec_lookup(table, line) {
            Some(ins) => ins.expression.spec_matches_line(line),
            None => true,
        },
    decreases table.len(),
{
    if table.len() > 0 && !table[0].expression.spec_matches_line(line) {
        lemma_lookup_matches(table.drop_first(), line);
    }
}

/// Law: lookup is deterministic first-match.  If entry `i` matches the line
/// and no earlier entry does, lookup returns exactly entry `i` — in
/// particular, of two overlapping entries the earlier one always wins, and
/// repeated lookups of the same line against the same table agree.
pub proof fn lemma_lookup_first_match(table: Seq<Instruction>, line: Line, i: int)
    requires
        0 <= i < table.len(),
        table[i].expression.spec_matches_line(line),
        forall|k: int| 0 <= k < i ==> !(#[trigger] table[k].expression.spec_matches_line(line)),
    ensures
        spec_lookup(table, line) == Some(table[i]),
    decreases i,
{
    if i == 0 {
    } else {
        assert(!table[0].expression.spec_matches_line(line));
        assert forall|k: int|
            0 <= k < i - 1 implies !(#[trigger] table.drop_first()[k].expression.spec_matches_line(
            line,
        )) by {
            assert(table.drop_first()[k] == table[k + 1]);
        }
        lemma_lookup_first_match(table.drop_first(), line, i - 1);
    }
}

} // verus!
