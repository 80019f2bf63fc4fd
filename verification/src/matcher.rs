//! A small structured-text matcher: an ordered rule sequence of literal
//! characters, literal strings and numbers is consumed left to right against
//! a string, returning the matched pieces or failing on the first unsatisfied
//! rule.

use vstd::prelude::*;
use crate::numbers::{stoi, stoi_accepts};
use crate::text::{find_char, find_char_str, find_space, find_space_str, str_eq, trim_spec, trim_str};

verus! {

/// One matching rule: any integer literal, an exact string, or an exact
/// single character.
#[derive(Clone, Copy, Debug)]
pub enum MatchStr<'a> {
    Number,
    Str(&'a str),
    Char(char),
}

/// Where the current piece ends: just before the next rule's character when
/// the next rule matches a single character, otherwise at the first
/// whitespace.
pub open spec fn piece_cut(t: Seq<char>, next: Option<MatchStr>) -> int {
    match next {
        Some(MatchStr::Char(c)) => find_char(t, c),
        _ => find_space(t),
    }
}

/// Whether a piece satisfies a `Number` or `Str` rule.
pub open spec fn piece_accepts(rule: MatchStr, left: Seq<char>) -> bool {
    match rule {
        MatchStr::Number => stoi_accepts(left),
        MatchStr::Str(m) => left == m@,
        MatchStr::Char(_) => false,
    }
}

/// Match one rule at the front of the already-trimmed text `t`: the piece
/// that was matched and the text that remains, or `None` if the rule is not
/// satisfied.
pub open spec fn spec_take_piece(t: Seq<char>, rule: MatchStr, next: Option<MatchStr>) -> Option<
    (Seq<char>, Seq<char>),
> {
    match rule {
        MatchStr::Char(c) => if t.len() > 0 && t[0] == c {
            Some((t.take(1), t.skip(1)))
        } else {
            None
        },
        _ => {
            let left = trim_spec(t.take(piece_cut(t, next)));
            if piece_accepts(rule, left) {
                Some((left, t.skip(left.len() as int)))
            } else {
                None
            }
        },
    }
}

/// Match the whole rule sequence against `s`, trimming before each rule; the
/// matched pieces in order, or `None` on the first unsatisfied rule.
pub open spec fn match_str_spec(s: Seq<char>, rules: Seq<MatchStr>) -> Option<Seq<Seq<char>>>
    decreases rules.len(),
{
    if rules.len() == 0 {
        Some(Seq::empty())
    } else {
        let t = trim_spec(s);
        let next = if rules.len() >= 2 {
            Some(rules[1])
        } else {
            None
        };
        match spec_take_piece(t, rules[0], next) {
            Some(pr) => match match_str_spec(pr.1, rules.drop_first()) {
                Some(v) => Some(seq![pr.0] + v),
                None => None,
            },
            None => None,
        }
    }
}

/// Consume `s` left to right according to `rule`, returning the matched
/// substrings in order, or `None` on the first rule that is not satisfied.
pub fn match_str<'a>(s: &'a str, rule: &[MatchStr<'_>]) -> (r: Option<Vec<&'a str>>)
    ensures
        match r {
            Some(v) => match_str_spec(s@, rule@) == Some(v.deep_view()),
            None => match_str_spec(s@, rule@) is None,
        },
{
    let nr = rule.len();
    let mut cur: &'a str = s;
    let mut results: Vec<&'a str> = Vec::new();
    let mut i: usize = 0;
    proof {
        assert(rule@.skip(0) =~= rule@);
        assert(results.deep_view() =~= Seq::<Seq<char>>::empty());
    }
    while i < nr
        invariant
            0 <= i <= nr,
            nr == rule@.len(),
            match match_str_spec(cur@, rule@.skip(i as int)) {
                Some(tail) => match_str_spec(s@, rule@) == Some(results.deep_view() + tail),
                None => match_str_spec(s@, rule@) is None,
            },
        decreases nr - i,
    {
        let ghost rules_i = rule@.skip(i as int);
        let ghost old_dv = results.deep_view();
        let ghost old_cur = cur@;
        proof {
            assert(rules_i[0] == rule@[i as int]);
            assert(rules_i.drop_first() =~= rule@.skip(i + 1));
            assert(rules_i.len() >= 2 <==> i + 1 < nr);
            if rules_i.len() >= 2 {
                assert(rules_i[1] == rule@[i + 1]);
            }
        }
        let t = trim_str(cur);
        let tn = t.unicode_len();
        let r0 = rule[i];
        let piece: &'a str;
        match r0 {
            MatchStr::Char(c) => {
                if tn > 0 && t.get_char(0) == c {
                    let p = t.substring_char(0, 1);
                    let rest = t.substring_char(1, tn);
                    proof {
                        assert(p@ =~= t@.take(1));
                        assert(rest@ =~= t@.skip(1));
                    }
                    piece = p;
                    cur = rest;
                } else {
                    return None;
                }
            },
            _ => {
                let cut = if i + 1 < nr {
                    match rule[i + 1] {
                        MatchStr::Char(c2) => find_char_str(t, c2),
                        _ => find_space_str(t),
                    }
                } else {
                    find_space_str(t)
                };
                let left0 = t.substring_char(0, cut);
                proof {
                    assert(left0@ =~= t@.take(cut as int));
                }
                let left = trim_str(left0);
                let ok = match r0 {
                    MatchStr::Number => stoi(left).is_some(),
                    MatchStr::Str(m) => str_eq(left, m),
                    MatchStr::Char(_) => false,
                };
                if !ok {
                    return None;
                }
                let ln = left.unicode_len();
                let rest = t.substring_char(ln, tn);
                proof {
                    assert(rest@ =~= t@.skip(ln as int));
                }
                piece = left;
                cur = rest;
            },
        }
        results.push(piece);
        proof {
            assert(results.deep_view() =~= old_dv.push(piece@));
            match match_str_spec(cur@, rule@.skip(i + 1)) {
                Some(tail) => {
                    assert(match_str_spec(old_cur, rules_i) == Some(seq![piece@] + tail));
                    assert(old_dv + (seq![piece@] + tail) =~= old_dv.push(piece@) + tail);
                },
                None => {
                    assert(match_str_spec(old_cur, rules_i) is None);
                },
            }
        }
        i += 1;
    }
    proof {
        assert(rule@.skip(nr as int) =~= Seq::<MatchStr>::empty());
        assert(results.deep_view() + Seq::<Seq<char>>::empty() =~= results.deep_view());
    }
    Some(results)
}

} // verus!
