//! The per-line entry points: addressing modes, instruction byte length and
//! machine-cycle cost of one raw source line, each an exact function of the
//! line and the compiled-in tables. Also the laws the resolver obeys:
//! skipped lines cost nothing, zero-operand mnemonics reject trailing text,
//! and alternative selection is first-match deterministic.

use crate::classify::{tag_name, tag_name_spec, OperandTag};
use crate::instruction::{
    addr_mode_of, addr_mode_of_spec, bytes_required_spec, AddressingMode, Instruction,
};
use crate::matching::{chain_cycles, BoxedMatcher, MatchError, RuleView};
use crate::parser::{
    alt_matches_spec, first_match_spec, head_token_spec, lookup_spec, resolve_line,
    resolve_line_spec, skip_line_spec, table_view, tail_operands_spec, ParseError, VariantEntry,
};
use crate::text::{strip_line_spec, trim_spec};
use vstd::prelude::*;

verus! {

/// The operand bytes of a resolved tag sequence.
pub open spec fn width_sum(tags: Seq<OperandTag>) -> int
    decreases tags.len(),
{
    if tags.len() == 0 {
        0
    } else {
        width_sum(tags.drop_last()) + bytes_required_spec(addr_mode_of_spec(tags.last()))
    }
}

pub proof fn lemma_width_sum_nonneg(tags: Seq<OperandTag>)
    ensures
        0 <= width_sum(tags),
    decreases tags.len(),
{
    if tags.len() > 0 {
        lemma_width_sum_nonneg(tags.drop_last());
    }
}

proof fn lemma_width_sum_take_step(tags: Seq<OperandTag>, i: int)
    requires
        0 <= i < tags.len(),
    ensures
        width_sum(tags.take(i + 1)) == width_sum(tags.take(i)) + bytes_required_spec(
            addr_mode_of_spec(tags[i]),
        ),
{
    assert(tags.take(i + 1).drop_last() =~= tags.take(i));
    assert(tags.take(i + 1).last() == tags[i]);
}

proof fn lemma_width_sum_take_le(tags: Seq<OperandTag>, i: int)
    requires
        0 <= i <= tags.len(),
    ensures
        width_sum(tags.take(i)) <= width_sum(tags),
    decreases tags.len() - i,
{
    if i == tags.len() {
        assert(tags.take(i) =~= tags);
    } else {
        lemma_width_sum_take_step(tags, i);
        lemma_width_sum_take_le(tags, i + 1);
    }
}

/// Every alternative of the table yields an instruction length that fits the
/// machine word: what the byte-length computation needs of its table.
pub open spec fn table_widths_fit(t: Seq<(Seq<char>, Seq<Seq<OperandTag>>)>) -> bool {
    forall|i: int, j: int|
        0 <= i < t.len() && 0 <= j < (#[trigger] t[i]).1.len() ==> 1 + width_sum(
            #[trigger] t[i].1[j],
        ) <= usize::MAX
}

pub proof fn lemma_width_sum_bounded(tags: Seq<OperandTag>)
    ensures
        width_sum(tags) <= 2 * tags.len(),
    decreases tags.len(),
{
    if tags.len() > 0 {
        lemma_width_sum_bounded(tags.drop_last());
    }
}

/// Decides `table_widths_fit` on a table, so that callers of the byte-length
/// computation can test their table before handing it over.
pub fn check_table_widths(t: &Vec<VariantEntry>) -> (r: bool)
    ensures
        r == table_widths_fit(table_view(t@)),
{
    let ghost tv = table_view(t@);
    let n = t.len();
    let mut i: usize = 0;
    while i < n
        invariant
            0 <= i <= n,
            n == t@.len(),
            tv == table_view(t@),
            forall|a: int, b: int|
                0 <= a < i && 0 <= b < (#[trigger] tv[a]).1.len() ==> 1 + width_sum(
                    #[trigger] tv[a].1[b],
                ) <= usize::MAX,
        decreases n - i,
    {
        let alts = &t[i].alternatives;
        let m = alts.len();
        proof {
            assert(tv[i as int].1 == crate::parser::alts_view(t@[i as int].alternatives));
        }
        let mut j: usize = 0;
        while j < m
            invariant
                0 <= j <= m,
                0 <= i < n,
                n == t@.len(),
                tv == table_view(t@),
                m == alts@.len(),
                alts@ == t@[i as int].alternatives@,
                tv[i as int].1 == crate::parser::alts_view(t@[i as int].alternatives),
                m == tv[i as int].1.len(),
                forall|b: int|
                    0 <= b < j ==> 1 + width_sum(#[trigger] tv[i as int].1[b]) <= usize::MAX,
            decreases m - j,
        {
            let tags = &alts[j];
            proof {
                assert(tv[i as int].1[j as int] == tags@);
                lemma_width_sum_nonneg(tags@);
                lemma_width_sum_bounded(tags@);
            }
            let k = tags.len();
            let mut acc: u128 = 0;
            let mut p: usize = 0;
            while p < k
                invariant
                    0 <= p <= k,
                    k == tags@.len(),
                    acc == width_sum(tags@.take(p as int)),
                    width_sum(tags@.take(p as int)) <= 2 * p,
                decreases k - p,
            {
                proof {
                    lemma_width_sum_take_step(tags@, p as int);
                }
                acc = acc + (addr_mode_of(tags[p]).bytes_required() as u128);
                p += 1;
            }
            proof {
                assert(tags@.take(k as int) =~= tags@);
            }
            if acc > (usize::MAX as u128) - 1 {
                return false;
            }
            j += 1;
        }
        i += 1;
    }
    true
}

/// The addressing-mode sequence of one raw line: empty for a blank or
/// skipped line, the winning alternative's modes otherwise.
pub open spec fn modes_spec(
    raw: Seq<char>,
    t: Seq<(Seq<char>, Seq<Seq<OperandTag>>)>,
) -> Result<Seq<AddressingMode>, ParseError> {
    match resolve_line_spec(raw, t) {
        Ok(opt) => Ok(
            match opt {
                Some(tags) => tags.map_values(|g: OperandTag| addr_mode_of_spec(g)),
                None => Seq::empty(),
            },
        ),
        Err(e) => Err(e),
    }
}

/// The byte length of one raw line: zero for a blank or skipped line, one
/// opcode byte plus the operand bytes otherwise.
pub open spec fn memory_spec(raw: Seq<char>, t: Seq<(Seq<char>, Seq<Seq<OperandTag>>)>) -> Result<
    int,
    ParseError,
> {
    match resolve_line_spec(raw, t) {
        Ok(opt) => Ok(
            match opt {
                Some(tags) => 1 + width_sum(tags),
                None => 0,
            },
        ),
        Err(e) => Err(e),
    }
}

/// The machine-cycle cost of one raw line under rule chain `rules`: zero for
/// a blank or skipped line, the chain's answer on the mnemonic and the
/// resolved tag names otherwise; any parse failure is a match failure.
pub open spec fn cycle_spec(
    raw: Seq<char>,
    t: Seq<(Seq<char>, Seq<Seq<OperandTag>>)>,
    rules: Seq<RuleView>,
) -> Result<usize, MatchError> {
    match resolve_line_spec(raw, t) {
        Ok(opt) => Ok(
            match opt {
                Some(tags) => chain_cycles(
                    rules,
                    head_token_spec(strip_line_spec(raw)),
                    tags.map_values(|g: OperandTag| tag_name_spec(g)),
                ),
                None => 0,
            },
        ),
        Err(_) => Err(MatchError),
    }
}

/// The addressing modes used by one raw source line, in operand order.
pub fn get_modes(raw_line: &str, all_inst: &Vec<VariantEntry>) -> (r: Result<
    Vec<AddressingMode>,
    ParseError,
>)
    ensures
        ({
            let s = modes_spec(raw_line@, table_view(all_inst@));
            match r {
                Ok(ms) => s == Ok::<Seq<AddressingMode>, ParseError>(ms@),
                Err(e) => s == Err::<Seq<AddressingMode>, ParseError>(e),
            }
        }),
{
    match resolve_line(raw_line, all_inst) {
        Err(e) => Err(e),
        Ok(None) => Ok(Vec::new()),
        Ok(Some((_m, tags))) => {
            let mut ms: Vec<AddressingMode> = Vec::new();
            let n = tags.len();
            let mut i: usize = 0;
            while i < n
                invariant
                    0 <= i <= n,
                    n == tags@.len(),
                    ms@ =~= tags@.take(i as int).map_values(
                        |g: OperandTag| addr_mode_of_spec(g),
                    ),
                decreases n - i,
            {
                ms.push(addr_mode_of(tags[i]));
                proof {
                    assert(ms@ =~= tags@.take(i + 1).map_values(
                        |g: OperandTag| addr_mode_of_spec(g),
                    ));
                }
                i += 1;
            }
            proof {
                assert(tags@.take(n as int) =~= tags@);
            }
            Ok(ms)
        },
    }
}

/// The byte length one raw source line occupies: the opcode byte plus each
/// operand's contribution; zero for a blank or skipped line.
pub fn get_memory(raw_line: &str, all_inst: &Vec<VariantEntry>) -> (r: Result<usize, ParseError>)
    requires
        table_widths_fit(table_view(all_inst@)),
    ensures
        ({
            let s = memory_spec(raw_line@, table_view(all_inst@));
            match r {
                Ok(n) => s == Ok::<int, ParseError>(n as int),
                Err(e) => s == Err::<int, ParseError>(e),
            }
        }),
{
    match resolve_line(raw_line, all_inst) {
        Err(e) => Err(e),
        Ok(None) => Ok(0),
        Ok(Some((_m, tags))) => {
            proof {
                lemma_resolved_tags_in_table(raw_line@, table_view(all_inst@), tags@);
                lemma_width_sum_nonneg(tags@);
            }
            let mut total: usize = 1;
            let n = tags.len();
            let mut i: usize = 0;
            while i < n
                invariant
                    0 <= i <= n,
                    n == tags@.len(),
                    total == 1 + width_sum(tags@.take(i as int)),
                    1 + width_sum(tags@) <= usize::MAX,
                decreases n - i,
            {
                proof {
                    lemma_width_sum_take_step(tags@, i as int);
                    lemma_width_sum_take_le(tags@, i + 1);
                    lemma_width_sum_nonneg(tags@.take(i as int));
                }
                total = total + addr_mode_of(tags[i]).bytes_required();
                i += 1;
            }
            proof {
                assert(tags@.take(n as int) =~= tags@);
            }
            Ok(total)
        },
    }
}

/// A successfully resolved tag sequence is one of the table's alternatives.
proof fn lemma_resolved_tags_in_table(
    raw: Seq<char>,
    t: Seq<(Seq<char>, Seq<Seq<OperandTag>>)>,
    tags: Seq<OperandTag>,
)
    requires
        table_widths_fit(t),
        resolve_line_spec(raw, t) == Ok::<Option<Seq<OperandTag>>, ParseError>(Some(tags)),
    ensures
        1 + width_sum(tags) <= usize::MAX,
{
    let line = strip_line_spec(raw);
    let m = head_token_spec(line);
    crate::parser::lemma_lookup_in_table(t, m);
    let i = choose|i: int|
        0 <= i < t.len() && (#[trigger] t[i]).0 == m && t[i].1 == lookup_spec(t, m)->Some_0;
    let alts = lookup_spec(t, m)->Some_0;
    if alts.len() == 0 {
        assert(tags =~= Seq::<OperandTag>::empty());
    } else {
        let w = first_match_spec(alts, crate::text::split_trim_commas_spec(
            tail_operands_spec(line),
        ));
        assert(tags == alts[w]);
        assert(1 + width_sum(t[i].1[w]) <= usize::MAX);
    }
}

/// The machine-cycle cost of one raw source line under the given matcher:
/// zero for a blank or skipped line, the rule chain's answer otherwise, and
/// a match failure when the line does not resolve.
pub fn get_cycle(raw_line: &str, all_inst: &Vec<VariantEntry>, matcher: &BoxedMatcher) -> (r:
    Result<usize, MatchError>)
    ensures
        ({
            let s = cycle_spec(raw_line@, table_view(all_inst@), matcher.rules_view());
            r == s
        }),
{
    match resolve_line(raw_line, all_inst) {
        Err(_) => Err(MatchError),
        Ok(None) => Ok(0),
        Ok(Some((m, tags))) => {
            let mut names: Vec<String> = Vec::new();
            let n = tags.len();
            let mut i: usize = 0;
            while i < n
                invariant
                    0 <= i <= n,
                    n == tags@.len(),
                    names.deep_view() =~~= tags@.take(i as int).map_values(
                        |g: OperandTag| tag_name_spec(g),
                    ),
                decreases n - i,
            {
                let t = tag_name(tags[i]);
                let ghost prev = names.deep_view();
                let ghost tv = t@;
                names.push(t);
                proof {
                    assert(names.deep_view() =~~= prev.push(tv));
                    assert(names.deep_view() =~~= tags@.take(i + 1).map_values(
                        |g: OperandTag| tag_name_spec(g),
                    ));
                }
                i += 1;
            }
            proof {
                assert(tags@.take(n as int) =~= tags@);
            }
            let inst = Instruction { name: m, operands: names };
            matcher.do_match(inst)
        },
    }
}

/// A line matching a skip pattern, or blank after stripping, resolves to no
/// instruction at all: no addressing modes, zero bytes, zero cycles —
/// whatever the variant table and the rule chain hold.
pub proof fn lemma_skip_line_zero(
    raw: Seq<char>,
    t: Seq<(Seq<char>, Seq<Seq<OperandTag>>)>,
    rules: Seq<RuleView>,
)
    requires
        strip_line_spec(raw).len() == 0 || skip_line_spec(strip_line_spec(raw)),
    ensures
        modes_spec(raw, t) == Ok::<Seq<AddressingMode>, ParseError>(Seq::empty()),
        memory_spec(raw, t) == Ok::<int, ParseError>(0),
        cycle_spec(raw, t, rules) == Ok::<usize, MatchError>(0),
{
}

/// Supplying any non-empty trailing operand text to a zero-operand mnemonic
/// is rejected as unexpected operands.
pub proof fn lemma_zero_operand_rejects(raw: Seq<char>, t: Seq<(Seq<char>, Seq<Seq<OperandTag>>)>)
    requires
        strip_line_spec(raw).len() > 0,
        !skip_line_spec(strip_line_spec(raw)),
        lookup_spec(t, head_token_spec(strip_line_spec(raw))) == Some(
            Seq::<Seq<OperandTag>>::empty(),
        ),
        trim_spec(tail_operands_spec(strip_line_spec(raw))).len() > 0,
    ensures
        resolve_line_spec(raw, t) == Err::<Option<Seq<OperandTag>>, ParseError>(
            ParseError::UnexpectedOperands,
        ),
        modes_spec(raw, t) == Err::<Seq<AddressingMode>, ParseError>(
            ParseError::UnexpectedOperands,
        ),
        memory_spec(raw, t) == Err::<int, ParseError>(ParseError::UnexpectedOperands),
{
}

/// First-match determinism: when two alternatives could both accept the
/// operand tokens, the winning index stands at or before the earlier one,
/// the winner accepts, and no alternative declared before the winner
/// accepts. Resolution is a pure function of the line and the tables, so
/// this holds identically across repeated calls.
pub proof fn lemma_first_match_deterministic(
    alts: Seq<Seq<OperandTag>>,
    ops: Seq<Seq<char>>,
    i: int,
    j: int,
)
    requires
        0 <= i < j < alts.len(),
        alt_matches_spec(alts[i], ops),
        alt_matches_spec(alts[j], ops),
    ensures
        ({
            let w = first_match_spec(alts, ops);
            &&& 0 <= w <= i
            &&& alt_matches_spec(alts[w], ops)
            &&& forall|k: int| 0 <= k < w ==> !alt_matches_spec(#[trigger] alts[k], ops)
        }),
{
    crate::parser::lemma_first_match_found(alts, ops, i);
}

} // verus!
