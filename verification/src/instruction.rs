//! Instruction metadata: operand sizes and types, encoding rules, written
//! forms, and the addressing-mode parser that backs register/memory operand
//! matching.

use vstd::prelude::*;
use crate::line::Line;
use crate::numbers::{
    digit_char, digit_of, format_signed_decimal, lemma_decimal_digit_range, lemma_digit_char_of,
    lemma_signed_decimal_round_trip, literal_value, stoi,
};
use crate::register::{
    lemma_reg_name_chars, lemma_reg_name_parses, parse_register, plain_name_char, reg_name,
    spec_parse_register, Register,
};
use crate::text::{
    find_char, find_char_str, is_space, lemma_find_char_is, lemma_trim_id, str_eq, trim_spec,
    trim_str,
};

verus! {

/// Operand bit-width class: byte, word, doubleword, quadword.
/// Totally ordered by width: `Ob < Ow < Od < Oq`.
#[derive(Clone, Copy, Debug, PartialEq, Eq, Structural)]
pub enum OperandSize {
    Ob,
    Ow,
    Od,
    Oq,
}

impl OperandSize {
    /// Rank of this width in the total order.
    pub open spec fn ord(self) -> int {
        match self {
            OperandSize::Ob => 0,
            OperandSize::Ow => 1,
            OperandSize::Od => 2,
            OperandSize::Oq => 3,
        }
    }

    /// Runtime rank of this width in the total order.
    pub fn rank(self) -> (r: u8)
        ensures
            r as int == self.ord(),
    {
        match self {
            OperandSize::Ob => 0,
            OperandSize::Ow => 1,
            OperandSize::Od => 2,
            OperandSize::Oq => 3,
        }
    }
}

impl core::cmp::PartialOrd for OperandSize {
    fn partial_cmp(&self, other: &OperandSize) -> (r: Option<core::cmp::Ordering>) {
        let a = self.rank();
        let b = other.rank();
        if a < b {
            Some(core::cmp::Ordering::Less)
        } else if a == b {
            Some(core::cmp::Ordering::Equal)
        } else {
            Some(core::cmp::Ordering::Greater)
        }
    }
}

impl vstd::std_specs::cmp::PartialOrdSpecImpl for OperandSize {
    open spec fn obeys_partial_cmp_spec() -> bool {
        true
    }

    open spec fn partial_cmp_spec(&self, other: &OperandSize) -> Option<core::cmp::Ordering> {
        if self.ord() < other.ord() {
            Some(core::cmp::Ordering::Less)
        } else if self.ord() == other.ord() {
            Some(core::cmp::Ordering::Equal)
        } else {
            Some(core::cmp::Ordering::Greater)
        }
    }
}

/// How the ModRM byte is filled: from a register operand, or with a fixed
/// digit in the `reg` field.
#[derive(Clone, Copy, Debug, PartialEq, Eq, Structural)]
pub enum ModRmRule {
    R,
    FixedDigit(u8),
}

/// Width of the immediate field appended to the encoded instruction.
#[derive(Clone, Copy, Debug, PartialEq, Eq, Structural)]
pub enum ImmRule {
    Ib,
    Iw,
    Id,
    Iq,
}

/// Width class of a register number embedded in the opcode byte.
#[derive(Clone, Copy, Debug, PartialEq, Eq, Structural)]
pub enum AddRegRule {
    Rb,
    Rw,
    Rd,
    Rq,
}

/// The memory operand denoted by `disp[base,index,scale]` syntax: an optional
/// literal displacement, a mandatory base register, and an optional index
/// register with a scale in {1, 2, 4, 8} (1 when the scale is omitted).
/// `None` when the text does not follow that grammar.
pub open spec fn parse_rm_spec(s: Seq<char>) -> Option<(i64, Register, Option<(Register, u8)>)> {
    let ob = find_char(s, '[');
    if ob == s.len() {
        None
    } else {
        let disp_opt: Option<i64> = if ob == 0 {
            Some(0i64)
        } else {
            match literal_value(s.take(ob)) {
                Some(v) => if i64::MIN as int <= v <= i64::MAX as int {
                    Some(v as i64)
                } else {
                    None
                },
                None => None,
            }
        };
        match disp_opt {
            None => None,
            Some(disp) => {
                let rest = trim_spec(s.skip(ob + 1));
                if rest.len() == 0 || rest.last() != ']' {
                    None
                } else {
                    let interior = rest.drop_last();
                    let c1 = find_char(interior, ',');
                    if c1 == interior.len() {
                        match spec_parse_register(interior) {
                            Some(b) => Some((disp, b, None)),
                            None => None,
                        }
                    } else {
                        match spec_parse_register(interior.take(c1)) {
                            None => None,
                            Some(b) => {
                                let rest2 = interior.skip(c1 + 1);
                                let c2 = find_char(rest2, ',');
                                if c2 == rest2.len() {
                                    match spec_parse_register(rest2) {
                                        Some(ix) => Some((disp, b, Some((ix, 1u8)))),
                                        None => None,
                                    }
                                } else {
                                    match spec_parse_register(rest2.take(c2)) {
                                        None => None,
                                        Some(ix) => {
                                            let scale_txt = rest2.skip(c2 + 1);
                                            if find_char(scale_txt, ',') != scale_txt.len() {
                                                None
                                            } else {
                                                match literal_value(scale_txt) {
                                                    Some(v) => if v == 1 || v == 2 || v == 4 || v
                                                        == 8 {
                                                        Some((disp, b, Some((ix, v as u8))))
                                                    } else {
                                                        None
                                                    },
                                                    None => None,
                                                }
                                            }
                                        },
                                    }
                                }
                            },
                        }
                    }
                }
            },
        }
    }
}

/// Parse a memory operand `disp[base]`, `disp[base,index]` or
/// `disp[base,index,scale]`.  The displacement defaults to 0 and must fit a
/// signed 64-bit value; the scale defaults to 1 and must be 1, 2, 4 or 8.
pub fn parse_rm(expr: &str) -> (r: Option<(i64, Register, Option<(Register, u8)>)>)
    ensures
        r == parse_rm_spec(expr@),
{
    let n = expr.unicode_len();
    let ob = find_char_str(expr, '[');
    if ob == n {
        return None;
    }
    let disp: i64 = if ob == 0 {
        0
    } else {
        let dtxt = expr.substring_char(0, ob);
        proof {
            assert(dtxt@ =~= expr@.take(ob as int));
        }
        match stoi(dtxt) {
            Some(v) => if i64::MIN as i128 <= v && v <= i64::MAX as i128 {
                v as i64
            } else {
                return None;
            },
            None => {
                return None;
            },
        }
    };
    let rest0 = expr.substring_char(ob + 1, n);
    proof {
        assert(rest0@ =~= expr@.skip(ob + 1));
    }
    let rest = trim_str(rest0);
    let m = rest.unicode_len();
    if m == 0 {
        return None;
    }
    if rest.get_char(m - 1) != ']' {
        return None;
    }
    let interior = rest.substring_char(0, m - 1);
    proof {
        assert(interior@ =~= rest@.drop_last());
    }
    let mi = interior.unicode_len();
    let c1 = find_char_str(interior, ',');
    if c1 == mi {
        match parse_register(interior) {
            Some(b) => Some((disp, b, None)),
            None => None,
        }
    } else {
        let btxt = interior.substring_char(0, c1);
        proof {
            assert(btxt@ =~= interior@.take(c1 as int));
        }
        let b = match parse_register(btxt) {
            Some(b) => b,
            None => {
                return None;
            },
        };
        let rest2 = interior.substring_char(c1 + 1, mi);
        proof {
            assert(rest2@ =~= interior@.skip(c1 + 1));
        }
        let m2 = rest2.unicode_len();
        let c2 = find_char_str(rest2, ',');
        if c2 == m2 {
            match parse_register(rest2) {
                Some(ix) => Some((disp, b, Some((ix, 1)))),
                None => None,
            }
        } else {
            let ixtxt = rest2.substring_char(0, c2);
            proof {
                assert(ixtxt@ =~= rest2@.take(c2 as int));
            }
            let ix = match parse_register(ixtxt) {
                Some(i) => i,
                None => {
                    return None;
                },
            };
            let stxt = rest2.substring_char(c2 + 1, m2);
            proof {
                assert(stxt@ =~= rest2@.skip(c2 + 1));
            }
            if find_char_str(stxt, ',') != stxt.unicode_len() {
                return None;
            }
            match stoi(stxt) {
                Some(v) => if v == 1 || v == 2 || v == 4 || v == 8 {
                    Some((disp, b, Some((ix, v as u8))))
                } else {
                    None
                },
                None => None,
            }
        }
    }
}

/// The text `disp[base]` or `disp[base,index,scale]` for a memory operand.
pub open spec fn format_mem(d: int, base: Register, index: Option<(Register, int)>) -> Seq<char> {
    format_signed_decimal(d) + seq!['['] + reg_name(base) + (match index {
        Some((i, sc)) => seq![','] + reg_name(i) + seq![','] + seq![digit_char(sc)],
        None => Seq::<char>::empty(),
    }) + seq![']']
}

/// A register-name or separator character is not whitespace, not a bracket
/// and not a comma.
proof fn lemma_plain_char_facts(c: char)
    requires
        plain_name_char(c),
    ensures
        !is_space(c),
        c != '[',
        c != ']',
        c != ',',
{
}

/// Law: formatting a memory operand from any displacement in 64-bit signed
/// range, any base register, and optionally any index register with a scale
/// in {1, 2, 4, 8}, then re-parsing it, recovers exactly the displacement,
/// base and scaled index; omitting the index re-parses to no index.
#[verifier::rlimit(100)]
#[verifier::spinoff_prover]
pub proof fn lemma_mem_operand_round_trip(d: int, base: Register, index: Option<(Register, int)>)
    requires
        i64::MIN as int <= d <= i64::MAX as int,
        base.wf(),
        match index {
            Some((i, sc)) => i.wf() && (sc == 1 || sc == 2 || sc == 4 || sc == 8),
            None => true,
        },
    ensures
        parse_rm_spec(format_mem(d, base, index)) == Some(
            (d as i64, base, match index {
                Some((i, sc)) => Some((i, sc as u8)),
                None => None::<(Register, u8)>,
            }),
        ),
{
    let dd = format_signed_decimal(d);
    let nb = reg_name(base);
    let interior = nb + (match index {
        Some((i, sc)) => seq![','] + reg_name(i) + seq![','] + seq![digit_char(sc)],
        None => Seq::<char>::empty(),
    });
    let s = format_mem(d, base, index);
    assert(s =~= dd + seq!['['] + interior + seq![']']);
    lemma_signed_decimal_round_trip(d);
    lemma_reg_name_chars(base);

    // The displacement text ends at the opening bracket.
    let ob = dd.len() as int;
    assert forall|k: int| 0 <= k < ob implies s[k] != '[' by {
        assert(s[k] == dd[k]);
        if dd[k] != '-' {
            lemma_decimal_digit_range(dd[k]);
        }
    }
    assert(s[ob] == '[');
    lemma_find_char_is(s, '[', ob);
    assert(s.take(ob) =~= dd);

    // Everything after the bracket is the interior and the closing bracket,
    // with no whitespace to trim.
    let rest0 = s.skip(ob + 1);
    assert(rest0 =~= interior + seq![']']);
    assert forall|k: int| 0 <= k < interior.len() implies plain_name_char(interior[k]) || interior[k]
        == ',' by {
        if k < nb.len() {
            assert(interior[k] == nb[k]);
        } else {
            match index {
                Some((i, sc)) => {
                    lemma_reg_name_chars(i);
                    let ni = reg_name(i);
                    if k == nb.len() {
                        assert(interior[k] == ',');
                    } else if k < nb.len() + 1 + ni.len() {
                        assert(interior[k] == ni[k - nb.len() - 1]);
                    } else if k == nb.len() + 1 + ni.len() {
                        assert(interior[k] == ',');
                    } else {
                        assert(interior[k] == digit_char(sc));
                        lemma_digit_char_of(sc, 10);
                        lemma_decimal_digit_range(digit_char(sc));
                    }
                },
                None => {},
            }
        }
    }
    assert forall|k: int| 0 <= k < rest0.len() implies !is_space(rest0[k]) by {
        if k < interior.len() {
            if plain_name_char(interior[k]) {
                lemma_plain_char_facts(interior[k]);
            }
        } else {
            assert(rest0[k] == ']');
        }
    }
    lemma_trim_id(rest0);
    assert(rest0.last() == ']');
    assert(rest0.drop_last() =~= interior);

    // The base register name runs to the first comma (or to the end).
    lemma_reg_name_parses(base);
    match index {
        None => {
            assert forall|k: int| 0 <= k < interior.len() implies interior[k] != ',' by {
                lemma_plain_char_facts(interior[k]);
            }
            lemma_find_char_is(interior, ',', interior.len() as int);
        },
        Some((i, sc)) => {
            let ni = reg_name(i);
            lemma_reg_name_chars(i);
            lemma_reg_name_parses(i);
            lemma_digit_char_of(sc, 10);
            lemma_decimal_digit_range(digit_char(sc));
            assert forall|k: int| 0 <= k < nb.len() implies interior[k] != ',' by {
                assert(interior[k] == nb[k]);
                lemma_plain_char_facts(nb[k]);
            }
            assert(interior[nb.len() as int] == ',');
            lemma_find_char_is(interior, ',', nb.len() as int);
            assert(interior.take(nb.len() as int) =~= nb);

            // The index register name runs to the second comma.
            let rest2 = interior.skip(nb.len() as int + 1);
            assert(rest2 =~= ni + seq![','] + seq![digit_char(sc)]);
            assert forall|k: int| 0 <= k < ni.len() implies rest2[k] != ',' by {
                assert(rest2[k] == ni[k]);
                lemma_plain_char_facts(ni[k]);
            }
            assert(rest2[ni.len() as int] == ',');
            lemma_find_char_is(rest2, ',', ni.len() as int);
            assert(rest2.take(ni.len() as int) =~= ni);

            // The scale is a single digit and there is no fourth field.
            let scale_txt = rest2.skip(ni.len() as int + 1);
            assert(scale_txt =~= seq![digit_char(sc)]);
            assert(scale_txt[0] != ',') by {
                lemma_decimal_digit_range(digit_char(sc));
            }
            lemma_find_char_is(scale_txt, ',', 1);
            assert(literal_value(scale_txt) == Some(sc)) by {
                assert(scale_txt.len() == 1);
                assert(scale_txt[0] != '-') by {
                    lemma_decimal_digit_range(digit_char(sc));
                }
                assert(scale_txt.drop_last() =~= Seq::<char>::empty());
                assert(crate::numbers::radix_acc(scale_txt.drop_last(), 10) == Some(0int));
                assert(scale_txt.last() == digit_char(sc));
                assert(digit_of(scale_txt.last(), 10) == Some(sc));
                assert(crate::numbers::radix_acc(scale_txt, 10) == Some(0 * 10 + sc));
            }
        },
    }
}

/// Whether `s` is a literal whose value lies in `[lo, hi]`.
pub open spec fn literal_in_range(s: Seq<char>, lo: int, hi: int) -> bool {
    match literal_value(s) {
        Some(v) => lo <= v <= hi,
        None => false,
    }
}

/// Whether `s` names a register of width `size`.
pub open spec fn register_of_size(s: Seq<char>, size: OperandSize) -> bool {
    match spec_parse_register(s) {
        Some(r) => r.size == size,
        None => false,
    }
}

/// Whether `s` is a register of width `size`, or a memory operand whose base
/// and index registers have width `size` and whose displacement lies in
/// `[lo, hi]`.
pub open spec fn rm_of_size(s: Seq<char>, size: OperandSize, lo: int, hi: int) -> bool {
    register_of_size(s, size) || (match parse_rm_spec(trim_spec(s)) {
        Some((d, b, idx)) => b.size == size && (match idx {
            Some((i, _)) => i.size == size,
            None => true,
        }) && lo <= d as int <= hi,
        None => false,
    })
}

/// Whether `expr` is a literal in `[min, max]`.
fn number_match_with(expr: &str, min: i128, max: i128) -> (r: bool)
    requires
        -(u64::MAX as i128) <= min,
        max <= u64::MAX as i128,
    ensures
        r == literal_in_range(expr@, min as int, max as int),
{
    match stoi(expr) {
        Some(v) => min <= v && v <= max,
        None => false,
    }
}

/// Whether `expr` names a register of width `size`.
fn register_match_with(expr: &str, size: OperandSize) -> (r: bool)
    ensures
        r == register_of_size(expr@, size),
{
    match parse_register(expr) {
        Some(r) => r.size() == size,
        None => false,
    }
}

/// Whether `expr` is a register or memory operand of width `size` with a
/// displacement in `[min, max]`.
fn rm_match_with(expr: &str, size: OperandSize, min: i64, max: i64) -> (r: bool)
    ensures
        r == rm_of_size(expr@, size, min as int, max as int),
{
    if register_match_with(expr, size) {
        true
    } else {
        let t = trim_str(expr);
        match parse_rm(t) {
            Some((d, b, idx)) => {
                let idx_ok = match idx {
                    Some((i, _)) => i.size() == size,
                    None => true,
                };
                b.size() == size && idx_ok && min <= d && d <= max
            },
            None => false,
        }
    }
}

/// Category of a written operand: a 32-bit relative target, a register of a
/// given width, an immediate of a given width, or a register-or-memory
/// operand of a given width.
#[derive(Clone, Copy, Debug, PartialEq, Eq, Structural)]
pub enum OperandType {
    Rel32,
    R8,
    R16,
    R32,
    R64,
    Imm8,
    Imm16,
    Imm32,
    Imm64,
    Rm8,
    Rm16,
    Rm32,
    Rm64,
}

impl OperandType {
    /// The operand width of this category.
    pub open spec fn spec_size(self) -> OperandSize {
        match self {
            OperandType::Rel32 => OperandSize::Od,
            OperandType::R8 => OperandSize::Ob,
            OperandType::R16 => OperandSize::Ow,
            OperandType::R32 => OperandSize::Od,
            OperandType::R64 => OperandSize::Oq,
            OperandType::Imm8 => OperandSize::Ob,
            OperandType::Imm16 => OperandSize::Ow,
            OperandType::Imm32 => OperandSize::Od,
            OperandType::Imm64 => OperandSize::Oq,
            OperandType::Rm8 => OperandSize::Ob,
            OperandType::Rm16 => OperandSize::Ow,
            OperandType::Rm32 => OperandSize::Od,
            OperandType::Rm64 => OperandSize::Oq,
        }
    }

    /// Get the operand width of this category.
    pub fn size(self) -> (r: OperandSize)
        ensures
            r == self.spec_size(),
    {
        match self {
            OperandType::Rel32 => OperandSize::Od,
            OperandType::R8 => OperandSize::Ob,
            OperandType::R16 => OperandSize::Ow,
            OperandType::R32 => OperandSize::Od,
            OperandType::R64 => OperandSize::Oq,
            OperandType::Imm8 => OperandSize::Ob,
            OperandType::Imm16 => OperandSize::Ow,
            OperandType::Imm32 => OperandSize::Od,
            OperandType::Imm64 => OperandSize::Oq,
            OperandType::Rm8 => OperandSize::Ob,
            OperandType::Rm16 => OperandSize::Ow,
            OperandType::Rm32 => OperandSize::Od,
            OperandType::Rm64 => OperandSize::Oq,
        }
    }

    /// Whether the token `s` satisfies this operand category.
    ///
    /// Immediates accept the asymmetric range from the signed minimum to the
    /// unsigned maximum of their width; register-or-memory displacements must
    /// fit the signed range of the width.
    pub open spec fn spec_matches(self, s: Seq<char>) -> bool {
        match self {
            OperandType::Rel32 => literal_in_range(s, -0x8000_0000, 0x7fff_ffff),
            OperandType::R8 => register_of_size(s, OperandSize::Ob),
            OperandType::R16 => register_of_size(s, OperandSize::Ow),
            OperandType::R32 => register_of_size(s, OperandSize::Od),
            OperandType::R64 => register_of_size(s, OperandSize::Oq),
            OperandType::Imm8 => literal_in_range(s, -0x80, 0xff),
            OperandType::Imm16 => literal_in_range(s, -0x8000, 0xffff),
            OperandType::Imm32 => literal_in_range(s, -0x8000_0000, 0xffff_ffff),
            OperandType::Imm64 => literal_in_range(
                s,
                -0x8000_0000_0000_0000,
                0xffff_ffff_ffff_ffff,
            ),
            OperandType::Rm8 => rm_of_size(s, OperandSize::Ob, -0x80, 0x7f),
            OperandType::Rm16 => rm_of_size(s, OperandSize::Ow, -0x8000, 0x7fff),
            OperandType::Rm32 => rm_of_size(s, OperandSize::Od, -0x8000_0000, 0x7fff_ffff),
            OperandType::Rm64 => rm_of_size(
                s,
                OperandSize::Oq,
                -0x8000_0000_0000_0000,
                0x7fff_ffff_ffff_ffff,
            ),
        }
    }

    /// Whether an operand slot accepts the corresponding token: a declared
    /// slot needs a present, matching token; an undeclared slot accepts
    /// anything.
    pub open spec fn slot_ok(ty: Option<OperandType>, tok: Option<Seq<char>>) -> bool {
        match ty {
            Some(t) => match tok {
                Some(s) => t.spec_matches(s),
                None => false,
            },
            None => true,
        }
    }

    /// Decide whether the token `expr` satisfies this operand category.
    pub fn match_with(self, expr: &str) -> (r: bool)
        ensures
            r == self.spec_matches(expr@),
    {
        match self {
            OperandType::Rel32 => number_match_with(expr, -0x8000_0000, 0x7fff_ffff),
            OperandType::R8 => register_match_with(expr, OperandSize::Ob),
            OperandType::R16 => register_match_with(expr, OperandSize::Ow),
            OperandType::R32 => register_match_with(expr, OperandSize::Od),
            OperandType::R64 => register_match_with(expr, OperandSize::Oq),
            OperandType::Imm8 => number_match_with(expr, -0x80, 0xff),
            OperandType::Imm16 => number_match_with(expr, -0x8000, 0xffff),
            OperandType::Imm32 => number_match_with(expr, -0x8000_0000, 0xffff_ffff),
            OperandType::Imm64 => number_match_with(
                expr,
                -0x8000_0000_0000_0000,
                0xffff_ffff_ffff_ffff,
            ),
            OperandType::Rm8 => rm_match_with(expr, OperandSize::Ob, -0x80, 0x7f),
            OperandType::Rm16 => rm_match_with(expr, OperandSize::Ow, -0x8000, 0x7fff),
            OperandType::Rm32 => rm_match_with(expr, OperandSize::Od, -0x8000_0000, 0x7fff_ffff),
            OperandType::Rm64 => rm_match_with(
                expr,
                OperandSize::Oq,
                -0x8000_0000_0000_0000,
                0x7fff_ffff_ffff_ffff,
            ),
        }
    }
}

/// How one instruction form is written in source syntax: a mnemonic and up to
/// two operand slots, filled left to right.  A `None` slot means the form
/// takes no operand there.
#[derive(Clone, Copy, Debug)]
pub struct Expression {
    pub mnemonic: &'static str,
    pub operands: [Option<OperandType>; 2],
}

impl Expression {
    /// Build a written form from a mnemonic and its operand slots.
    pub fn new(mnemonic: &'static str, operands: [Option<OperandType>; 2]) -> (r: Expression)
        ensures
            r.mnemonic == mnemonic,
            r.operands == operands,
    {
        Expression { mnemonic, operands }
    }

    /// Get the mnemonic.
    pub fn mnemonic(&self) -> (r: &'static str)
        ensures
            r == self.mnemonic,
    {
        self.mnemonic
    }

    /// Get the operand slots.
    pub fn operands(&self) -> (r: [Option<OperandType>; 2])
        ensures
            r == self.operands,
    {
        self.operands
    }

    /// Whether this form matches `line`: the mnemonics are equal and every
    /// declared operand slot is satisfied by the token in its position.
    /// Tokens beyond the declared slots are not checked.
    pub open spec fn spec_matches_line(self, line: Line) -> bool {
        match line.spec_split() {
            Some((m, o1, o2)) => m == self.mnemonic@ && OperandType::slot_ok(self.operands[0], o1)
                && OperandType::slot_ok(self.operands[1], o2),
            None => false,
        }
    }

    /// Decide whether this form matches `line`.
    pub fn match_with(&self, line: &Line) -> (r: bool)
        ensures
            r == self.spec_matches_line(*line),
    {
        self.mnemonic_match_with(line) && self.operands_match_with(line)
    }

    /// Whether the mnemonics agree.
    fn mnemonic_match_with(&self, line: &Line) -> (r: bool)
        ensures
            r == (match line.spec_mnemonic() {
                Some(m) => m == self.mnemonic@,
                None => false,
            }),
    {
        match (*line).mnemonic() {
            Some(m) => str_eq(m, self.mnemonic),
            None => false,
        }
    }

    /// Whether every declared operand slot is satisfied.
    fn operands_match_with(&self, line: &Line) -> (r: bool)
        ensures
            r == (match line.spec_operands() {
                Some((o1, o2)) => OperandType::slot_ok(self.operands[0], o1)
                    && OperandType::slot_ok(self.operands[1], o2),
                None => false,
            }),
    {
        let ops = match (*line).operands() {
            Some(o) => o,
            None => {
                return false;
            },
        };
        let ok0 = match self.operands[0] {
            Some(ty) => match ops[0] {
                Some(tok) => ty.match_with(tok),
                None => false,
            },
            None => true,
        };
        if !ok0 {
            return false;
        }
        match self.operands[1] {
            Some(ty) => match ops[1] {
                Some(tok) => ty.match_with(tok),
                None => false,
            },
            None => true,
        }
    }

    /// Index of the first operand slot declared with exactly `operand_type`.
    pub open spec fn spec_operand_index(self, operand_type: OperandType) -> Option<int> {
        if self.operands[0] == Some(operand_type) {
            Some(0int)
        } else if self.operands[1] == Some(operand_type) {
            Some(1int)
        } else {
            None
        }
    }

    /// Find the operand slot declared with exactly `operand_type`.
    pub fn get_operand_index_by_type(&self, operand_type: OperandType) -> (r: Option<usize>)
        ensures
            r == (match self.spec_operand_index(operand_type) {
                Some(i) => Some(i as usize),
                None => None::<usize>,
            }),
    {
        let ok0 = match self.operands[0] {
            Some(t) => t == operand_type,
            None => false,
        };
        if ok0 {
            return Some(0);
        }
        let ok1 = match self.operands[1] {
            Some(t) => t == operand_type,
            None => false,
        };
        if ok1 {
            return Some(1);
        }
        None
    }
}

/// Binary-encoding metadata for one instruction form: the opcode bytes, how
/// the ModRM byte is built, the immediate width, whether a register number is
/// added into the opcode, and the form's default operand width.
#[derive(Clone, Copy, Debug)]
pub struct EncodingRule {
    pub opecode: [u8; 3],
    pub opecode_len: u8,
    pub modrm: Option<ModRmRule>,
    pub imm: Option<ImmRule>,
    pub addreg: Option<AddRegRule>,
    pub default_operand_size: OperandSize,
}

impl EncodingRule {
    /// At most three opcode bytes are meaningful.
    pub open spec fn wf(self) -> bool {
        self.opecode_len <= 3
    }

    /// The meaningful opcode bytes.
    pub open spec fn spec_opecode(self) -> Seq<u8> {
        self.opecode@.take(self.opecode_len as int)
    }

    /// Build an encoding rule from one to three opcode bytes and the field
    /// rules.
    pub fn new(
        opecode: &[u8],
        modrm: Option<ModRmRule>,
        imm: Option<ImmRule>,
        addreg: Option<AddRegRule>,
        default_operand_size: OperandSize,
    ) -> (r: EncodingRule)
        requires
            1 <= opecode@.len() <= 3,
        ensures
            r.wf(),
            r.spec_opecode() == opecode@,
            r.modrm == modrm,
            r.imm == imm,
            r.addreg == addreg,
            r.default_operand_size == default_operand_size,
    {
        let len = opecode.len();
        let b0 = opecode[0];
        let b1 = if len > 1 {
            opecode[1]
        } else {
            0
        };
        let b2 = if len > 2 {
            opecode[2]
        } else {
            0
        };
        let r = EncodingRule {
            opecode: [b0, b1, b2],
            opecode_len: len as u8,
            modrm,
            imm,
            addreg,
            default_operand_size,
        };
        proof {
            assert(r.spec_opecode() =~= opecode@);
        }
        r
    }

    /// Get the opcode bytes.
    pub fn opecode(&self) -> (r: Vec<u8>)
        requires
            self.wf(),
        ensures
            r@ == self.spec_opecode(),
    {
        let len = self.opecode_len as usize;
        let mut v: Vec<u8> = Vec::new();
        let mut i: usize = 0;
        while i < len
            invariant
                0 <= i <= len,
                len == self.opecode_len as int,
                len <= 3,
                v@ =~= self.opecode@.take(i as int),
            decreases len - i,
        {
            v.push(self.opecode[i]);
            proof {
                assert(v@ =~= self.opecode@.take(i + 1));
            }
            i += 1;
        }
        v
    }

    /// Get the ModRM rule.
    pub fn modrm_rule(&self) -> (r: Option<ModRmRule>)
        ensures
            r == self.modrm,
    {
        self.modrm
    }

    /// Get the add-register rule.
    pub fn addreg_rule(&self) -> (r: Option<AddRegRule>)
        ensures
            r == self.addreg,
    {
        self.addreg
    }

    /// Get the immediate rule.
    pub fn imm_rule(&self) -> (r: Option<ImmRule>)
        ensures
            r == self.imm,
    {
        self.imm
    }

    /// Get the default operand width.
    pub fn default_operand_size(&self) -> (r: OperandSize)
        ensures
            r == self.default_operand_size,
    {
        self.default_operand_size
    }
}

/// One row of the instruction table: how a form is written and how it is
/// encoded.
#[derive(Clone, Copy, Debug)]
pub struct Instruction {
    pub encoding: EncodingRule,
    pub expression: Expression,
}

impl Instruction {
    /// Build a table row from its encoding rule and written form.
    pub fn new(encoding: EncodingRule, expression: Expression) -> (r: Instruction)
        ensures
            r.encoding == encoding,
            r.expression == expression,
    {
        Instruction { encoding, expression }
    }

    /// Get the opcode bytes.
    pub fn opecode(&self) -> (r: Vec<u8>)
        requires
            self.encoding.wf(),
        ensures
            r@ == self.encoding.spec_opecode(),
    {
        self.encoding.opecode()
    }

    /// Get the mnemonic.
    pub fn mnemonic(&self) -> (r: &'static str)
        ensures
            r == self.expression.mnemonic,
    {
        self.expression.mnemonic()
    }

    /// Decide whether this row's written form matches `line`.
    pub fn match_with(&self, line: &Line) -> (r: bool)
        ensures
            r == self.expression.spec_matches_line(*line),
    {
        self.expression.match_with(line)
    }

    /// Get the encoding rule.
    pub fn encoding(&self) -> (r: &EncodingRule)
        ensures
            r == self.encoding,
    {
        &self.encoding
    }

    /// Get the written form.
    pub fn expression(&self) -> (r: &Expression)
        ensures
            r == self.expression,
    {
        &self.expression
    }
}

} // verus!
