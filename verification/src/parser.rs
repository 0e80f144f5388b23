//! The line resolver: strips label and comment decoration, recognizes
//! skip-pattern directives, tokenizes mnemonic and operands, and selects the
//! first operand-shape alternative of the variant table whose tags all
//! classify their tokens.

use crate::classify::{classify_spec, classify_token, OperandTag};
use crate::text::{
    chars_eq, chars_to_string, find_first, first_occur, split_trim_commas, split_trim_commas_spec,
    str_to_chars, strip_line_exec, strip_line_spec, subvec, trim_chars, trim_spec,
};
use vstd::prelude::*;
use vstd::string::*;

verus! {

/// Why a line fails to resolve.
#[derive(Debug, Clone, Copy, PartialEq, Eq, Structural)]
pub enum ParseError {
    /// The mnemonic is absent from the variant table.
    UnknownInstruction,
    /// Operands were supplied to a zero-operand mnemonic.
    UnexpectedOperands,
    /// The mnemonic is known, but no operand-shape alternative matches.
    NoMatchingVariant,
}

impl ParseError {
    /// The failure rendered as text.
    pub fn message(&self) -> (r: String)
        ensures
            r@ == "Error while parsing"@,
    {
        String::from_str("Error while parsing")
    }
}

/// One mnemonic of the variant table, with its operand-shape alternatives in
/// declaration order.
pub struct VariantEntry {
    pub mnemonic: String,
    pub alternatives: Vec<Vec<OperandTag>>,
}

/// The alternative list of an entry as tag sequences.
pub open spec fn alts_view(v: Vec<Vec<OperandTag>>) -> Seq<Seq<OperandTag>> {
    v@.map_values(|a: Vec<OperandTag>| a@)
}

/// A table entry as plain values: mnemonic characters and tag sequences.
pub open spec fn entry_view(e: VariantEntry) -> (Seq<char>, Seq<Seq<OperandTag>>) {
    (e.mnemonic@, alts_view(e.alternatives))
}

/// The whole variant table as plain values.
pub open spec fn table_view(t: Seq<VariantEntry>) -> Seq<(Seq<char>, Seq<Seq<OperandTag>>)> {
    t.map_values(|e: VariantEntry| entry_view(e))
}

/// The alternatives of mnemonic `m` in table `t`: the first entry named `m`.
pub open spec fn lookup_spec(t: Seq<(Seq<char>, Seq<Seq<OperandTag>>)>, m: Seq<char>) -> Option<
    Seq<Seq<OperandTag>>,
>
    decreases t.len(),
{
    if t.len() == 0 {
        None
    } else if t[0].0 == m {
        Some(t[0].1)
    } else {
        lookup_spec(t.drop_first(), m)
    }
}

proof fn lemma_lookup_at(t: Seq<(Seq<char>, Seq<Seq<OperandTag>>)>, m: Seq<char>, i: int)
    requires
        0 <= i < t.len(),
        t[i].0 == m,
        forall|k: int| 0 <= k < i ==> (#[trigger] t[k]).0 != m,
    ensures
        lookup_spec(t, m) == Some(t[i].1),
    decreases t.len(),
{
    if i > 0 {
        assert(forall|k: int| 0 <= k < t.drop_first().len() ==> t.drop_first()[k] == t[k + 1]);
        lemma_lookup_at(t.drop_first(), m, i - 1);
    }
}

proof fn lemma_lookup_none(t: Seq<(Seq<char>, Seq<Seq<OperandTag>>)>, m: Seq<char>)
    requires
        forall|k: int| 0 <= k < t.len() ==> (#[trigger] t[k]).0 != m,
    ensures
        lookup_spec(t, m) is None,
    decreases t.len(),
{
    if t.len() > 0 {
        assert(forall|k: int| 0 <= k < t.drop_first().len() ==> t.drop_first()[k] == t[k + 1]);
        lemma_lookup_none(t.drop_first(), m);
    }
}

/// A found mnemonic stands in the table with the alternatives the lookup
/// reports.
pub proof fn lemma_lookup_in_table(t: Seq<(Seq<char>, Seq<Seq<OperandTag>>)>, m: Seq<char>)
    requires
        lookup_spec(t, m) is Some,
    ensures
        exists|i: int|
            0 <= i < t.len() && (#[trigger] t[i]).0 == m && t[i].1 == lookup_spec(t, m)->Some_0,
    decreases t.len(),
{
    if t.len() > 0 && t[0].0 != m {
        lemma_lookup_in_table(t.drop_first(), m);
        let i = choose|i: int|
            0 <= i < t.drop_first().len() && (#[trigger] t.drop_first()[i]).0 == m
                && t.drop_first()[i].1 == lookup_spec(t.drop_first(), m)->Some_0;
        assert(t[i + 1] == t.drop_first()[i]);
    }
}

/// Finds the first entry of `t` whose mnemonic reads `m`.
fn lookup_index(t: &Vec<VariantEntry>, m: &Vec<char>) -> (r: Option<usize>)
    ensures
        match r {
            Some(i) => i < t@.len() && t@[i as int].mnemonic@ == m@ && lookup_spec(
                table_view(t@),
                m@,
            ) == Some(alts_view(t@[i as int].alternatives)),
            None => lookup_spec(table_view(t@), m@) is None,
        },
{
    let n = t.len();
    let mut i: usize = 0;
    while i < n
        invariant
            0 <= i <= n,
            n == t@.len(),
            forall|k: int| 0 <= k < i ==> (#[trigger] table_view(t@)[k]).0 != m@,
        decreases n - i,
    {
        let name_chars = str_to_chars(t[i].mnemonic.as_str());
        if chars_eq(&name_chars, m) {
            proof {
                assert(table_view(t@)[i as int].0 == m@);
                lemma_lookup_at(table_view(t@), m@, i as int);
            }
            return Some(i);
        }
        proof {
            assert(table_view(t@)[i as int].0 == t@[i as int].mnemonic@);
        }
        i += 1;
    }
    proof {
        lemma_lookup_none(table_view(t@), m@);
    }
    None
}

/// A directive line, to be skipped rather than resolved: `END` alone, `ORG`
/// or `DB` with a remainder, or an `EQU` definition. The remainder may hold
/// any characters except a newline.
pub open spec fn skip_line_spec(line: Seq<char>) -> bool {
    ||| line == seq!['E', 'N', 'D']
    ||| (line.len() >= 4 && line[0] == 'O' && line[1] == 'R' && line[2] == 'G' && (forall|i: int|
        3 <= i < line.len() ==> line[i] != '\n'))
    ||| (line.len() >= 3 && line[0] == 'D' && line[1] == 'B' && (forall|i: int|
        2 <= i < line.len() ==> line[i] != '\n'))
    ||| (exists|k: int|
        1 <= k && k + 3 <= line.len() - 1 && #[trigger] line[k] == 'E' && line[k + 1] == 'Q'
            && line[k + 2] == 'U' && (forall|i: int| 0 <= i < k ==> line[i] != '\n') && (forall|
            i: int,
        |
            k + 3 <= i < line.len() ==> line[i] != '\n'))
}

/// Checks that `v[from..to)` holds no newline.
fn range_non_newline(v: &Vec<char>, from: usize, to: usize) -> (r: bool)
    requires
        from <= to <= v@.len(),
    ensures
        r == forall|i: int| from <= i < to ==> v@[i] != '\n',
{
    let mut i: usize = from;
    while i < to
        invariant
            from <= i <= to <= v@.len(),
            forall|k: int| from <= k < i ==> v@[k] != '\n',
        decreases to - i,
    {
        if v[i] == '\n' {
            return false;
        }
        i += 1;
    }
    true
}

/// Decides `skip_line_spec` on `line`.
pub fn is_skip_line(line: &Vec<char>) -> (r: bool)
    ensures
        r == skip_line_spec(line@),
{
    let n = line.len();
    if n == 3 && line[0] == 'E' && line[1] == 'N' && line[2] == 'D' {
        proof {
            assert(line@ =~= seq!['E', 'N', 'D']);
        }
        return true;
    }
    if n >= 4 && line[0] == 'O' && line[1] == 'R' && line[2] == 'G' && range_non_newline(
        line,
        3,
        n,
    ) {
        return true;
    }
    if n >= 3 && line[0] == 'D' && line[1] == 'B' && range_non_newline(line, 2, n) {
        return true;
    }
    if n >= 5 {
        let mut k: usize = 1;
        while k <= n - 4
            invariant
                1 <= k,
                5 <= n,
                k <= n - 3,
                n == line@.len(),
                forall|c: int|
                    1 <= c < k ==> !(#[trigger] line@[c] == 'E' && line@[c + 1] == 'Q' && line@[c
                        + 2] == 'U' && (forall|i: int| 0 <= i < c ==> line@[i] != '\n') && (forall|
                        i: int,
                    |
                        c + 3 <= i < n ==> line@[i] != '\n')),
            decreases n - k,
        {
            if line[k] == 'E' && line[k + 1] == 'Q' && line[k + 2] == 'U' && range_non_newline(
                line,
                0,
                k,
            ) && range_non_newline(line, k + 3, n) {
                return true;
            }
            k += 1;
        }
    }
    proof {
        assert(line@ != seq!['E', 'N', 'D']);
        assert forall|c: int|
            1 <= c && c + 3 <= n - 1 implies !(#[trigger] line@[c] == 'E' && line@[c + 1] == 'Q'
            && line@[c + 2] == 'U' && (forall|i: int| 0 <= i < c ==> line@[i] != '\n') && (forall|
            i: int,
        |
            c + 3 <= i < n ==> line@[i] != '\n')) by {
            if n >= 5 {
                assert(c < (n - 4) + 1);
            }
        }
    }
    false
}

/// The mnemonic token: the stripped line up to its first space.
pub open spec fn head_token_spec(line: Seq<char>) -> Seq<char> {
    let i = first_occur(line, ' ');
    if 0 <= i < line.len() {
        line.subrange(0, i)
    } else {
        line
    }
}

/// The raw operand text: what follows the first space, or nothing.
pub open spec fn tail_operands_spec(line: Seq<char>) -> Seq<char> {
    let i = first_occur(line, ' ');
    if 0 <= i < line.len() {
        line.subrange(i + 1, line.len() as int)
    } else {
        Seq::empty()
    }
}

/// Splits the stripped line into mnemonic and raw operand text.
fn split_head(line: &Vec<char>) -> (r: (Vec<char>, Vec<char>))
    ensures
        r.0@ == head_token_spec(line@),
        r.1@ == tail_operands_spec(line@),
{
    let n = line.len();
    match find_first(line, ' ') {
        Some(i) => {
            proof {
                crate::text::lemma_first_occur_found(line@, ' ');
            }
            (subvec(line, 0, i), subvec(line, i + 1, n))
        },
        None => {
            let copy = subvec(line, 0, n);
            proof {
                assert(copy@ =~= line@);
            }
            (copy, Vec::new())
        },
    }
}

/// Whether alternative `tags` accepts the operand tokens `ops`: at least as
/// many tokens as tags, and every position's token classified by its tag.
/// Tokens beyond the tags are ignored.
pub open spec fn alt_matches_spec(tags: Seq<OperandTag>, ops: Seq<Seq<char>>) -> bool {
    tags.len() <= ops.len() && (forall|i: int|
        0 <= i < tags.len() ==> classify_spec(tags[i], ops[i]))
}

/// The index of the first alternative accepting `ops`, or -1 when none does.
pub open spec fn first_match_spec(alts: Seq<Seq<OperandTag>>, ops: Seq<Seq<char>>) -> int
    decreases alts.len(),
{
    if alts.len() == 0 {
        -1
    } else if alt_matches_spec(alts[0], ops) {
        0
    } else if first_match_spec(alts.drop_first(), ops) == -1 {
        -1
    } else {
        1 + first_match_spec(alts.drop_first(), ops)
    }
}

proof fn lemma_first_match_at(alts: Seq<Seq<OperandTag>>, ops: Seq<Seq<char>>, i: int)
    requires
        0 <= i < alts.len(),
        alt_matches_spec(alts[i], ops),
        forall|k: int| 0 <= k < i ==> !alt_matches_spec(#[trigger] alts[k], ops),
    ensures
        first_match_spec(alts, ops) == i,
    decreases alts.len(),
{
    if i > 0 {
        assert(forall|k: int|
            0 <= k < alts.drop_first().len() ==> alts.drop_first()[k] == alts[k + 1]);
        lemma_first_match_at(alts.drop_first(), ops, i - 1);
    }
}

proof fn lemma_first_match_none(alts: Seq<Seq<OperandTag>>, ops: Seq<Seq<char>>)
    requires
        forall|k: int| 0 <= k < alts.len() ==> !alt_matches_spec(#[trigger] alts[k], ops),
    ensures
        first_match_spec(alts, ops) == -1,
    decreases alts.len(),
{
    if alts.len() > 0 {
        assert(forall|k: int|
            0 <= k < alts.drop_first().len() ==> alts.drop_first()[k] == alts[k + 1]);
        lemma_first_match_none(alts.drop_first(), ops);
    }
}

/// When an alternative accepts the operands, the first match stands at or
/// before it, itself accepts, and nothing earlier accepts.
pub proof fn lemma_first_match_found(alts: Seq<Seq<OperandTag>>, ops: Seq<Seq<char>>, i: int)
    requires
        0 <= i < alts.len(),
        alt_matches_spec(alts[i], ops),
    ensures
        0 <= first_match_spec(alts, ops) <= i,
        alt_matches_spec(alts[first_match_spec(alts, ops)], ops),
        forall|k: int|
            0 <= k < first_match_spec(alts, ops) ==> !alt_matches_spec(#[trigger] alts[k], ops),
    decreases alts.len(),
{
    if !alt_matches_spec(alts[0], ops) {
        assert(forall|k: int|
            0 <= k < alts.drop_first().len() ==> alts.drop_first()[k] == alts[k + 1]);
        lemma_first_match_found(alts.drop_first(), ops, i - 1);
        let w = first_match_spec(alts.drop_first(), ops);
        assert forall|k: int| 0 <= k < w + 1 implies !alt_matches_spec(#[trigger] alts[k], ops) by {
            if k > 0 {
                assert(!alt_matches_spec(alts.drop_first()[k - 1], ops));
            }
        }
    }
}

/// Decides whether alternative `tags` accepts the operand tokens `ops`.
fn alt_matches(tags: &Vec<OperandTag>, ops: &Vec<Vec<char>>) -> (r: bool)
    ensures
        r == alt_matches_spec(tags@, ops.deep_view()),
{
    let n = tags.len();
    if n > ops.len() {
        proof {
            assert(ops.deep_view().len() == ops@.len());
        }
        return false;
    }
    let mut i: usize = 0;
    while i < n
        invariant
            0 <= i <= n,
            n == tags@.len(),
            n <= ops@.len(),
            ops.deep_view().len() == ops@.len(),
            forall|k: int| 0 <= k < i ==> classify_spec(tags@[k], ops.deep_view()[k]),
        decreases n - i,
    {
        if !classify_token(tags[i], &ops[i]) {
            proof {
                assert(ops.deep_view()[i as int] == ops@[i as int]@);
            }
            return false;
        }
        proof {
            assert(ops.deep_view()[i as int] == ops@[i as int]@);
        }
        i += 1;
    }
    true
}

fn copy_tags(v: &Vec<OperandTag>) -> (r: Vec<OperandTag>)
    ensures
        r@ == v@,
{
    let mut r: Vec<OperandTag> = Vec::new();
    let n = v.len();
    let mut i: usize = 0;
    while i < n
        invariant
            0 <= i <= n,
            n == v@.len(),
            r@ == v@.take(i as int),
        decreases n - i,
    {
        r.push(v[i]);
        proof {
            assert(r@ =~= v@.take(i + 1 as int));
        }
        i += 1;
    }
    proof {
        assert(r@ =~= v@);
    }
    r
}

/// The resolution of one raw source line against variant table `t`:
/// `Ok(None)` for a line that is blank after stripping or matches a skip
/// pattern, `Ok(Some(tags))` for the winning alternative's tag sequence
/// (empty for a zero-operand mnemonic), and the parse failure otherwise.
pub open spec fn resolve_line_spec(
    raw: Seq<char>,
    t: Seq<(Seq<char>, Seq<Seq<OperandTag>>)>,
) -> Result<Option<Seq<OperandTag>>, ParseError> {
    let line = strip_line_spec(raw);
    if line.len() == 0 {
        Ok(None)
    } else if skip_line_spec(line) {
        Ok(None)
    } else {
        let m = head_token_spec(line);
        let rawops = tail_operands_spec(line);
        match lookup_spec(t, m) {
            Option::None => Err(ParseError::UnknownInstruction),
            Option::Some(alts) => {
                if alts.len() == 0 {
                    if trim_spec(rawops).len() == 0 {
                        Ok(Some(Seq::empty()))
                    } else {
                        Err(ParseError::UnexpectedOperands)
                    }
                } else {
                    let w = first_match_spec(alts, split_trim_commas_spec(rawops));
                    if 0 <= w < alts.len() {
                        Ok(Some(alts[w]))
                    } else {
                        Err(ParseError::NoMatchingVariant)
                    }
                }
            },
        }
    }
}

/// Resolves one raw source line against the variant table. On success for an
/// instruction line, hands back the mnemonic and the winning alternative's
/// tags; `None` stands for a blank or skipped line.
pub fn resolve_line(raw_line: &str, all_inst: &Vec<VariantEntry>) -> (r: Result<
    Option<(String, Vec<OperandTag>)>,
    ParseError,
>)
    ensures
        ({
            let s = resolve_line_spec(raw_line@, table_view(all_inst@));
            match r {
                Ok(None) => s == Ok::<Option<Seq<OperandTag>>, ParseError>(None),
                Ok(Some((m, tags))) => s == Ok::<Option<Seq<OperandTag>>, ParseError>(
                    Some(tags@),
                ) && m@ == head_token_spec(strip_line_spec(raw_line@)),
                Err(e) => s == Err::<Option<Seq<OperandTag>>, ParseError>(e),
            }
        }),
{
    let raw_chars = str_to_chars(raw_line);
    let line = strip_line_exec(&raw_chars);
    if line.len() == 0 {
        return Ok(None);
    }
    if is_skip_line(&line) {
        return Ok(None);
    }
    let (m, rawops) = split_head(&line);
    match lookup_index(all_inst, &m) {
        None => Err(ParseError::UnknownInstruction),
        Some(idx) => {
            let ghost alts_spec = alts_view(all_inst@[idx as int].alternatives);
            let alts = &all_inst[idx].alternatives;
            if alts.len() == 0 {
                proof {
                    assert(alts_spec.len() == 0);
                }
                let trimmed = trim_chars(&rawops);
                if trimmed.len() == 0 {
                    Ok(Some((chars_to_string(&m), Vec::new())))
                } else {
                    Err(ParseError::UnexpectedOperands)
                }
            } else {
                proof {
                    assert(alts_spec.len() == alts@.len());
                }
                let ops = split_trim_commas(rawops);
                let ghost line_spec = strip_line_spec(raw_line@);
                let n = alts.len();
                let mut i: usize = 0;
                while i < n
                    invariant
                        0 <= i <= n,
                        n == alts@.len(),
                        idx < all_inst@.len(),
                        alts@ == all_inst@[idx as int].alternatives@,
                        alts_spec == alts_view(all_inst@[idx as int].alternatives),
                        line_spec == strip_line_spec(raw_line@),
                        line_spec.len() != 0,
                        !skip_line_spec(line_spec),
                        m@ == head_token_spec(line_spec),
                        lookup_spec(table_view(all_inst@), m@) == Some(alts_spec),
                        alts_spec.len() == n,
                        ops.deep_view() == split_trim_commas_spec(tail_operands_spec(line_spec)),
                        forall|k: int|
                            0 <= k < i ==> !alt_matches_spec(
                                #[trigger] alts_spec[k],
                                ops.deep_view(),
                            ),
                    decreases n - i,
                {
                    if alt_matches(&alts[i], &ops) {
                        proof {
                            assert(alts_spec[i as int] == alts@[i as int]@);
                            lemma_first_match_at(alts_spec, ops.deep_view(), i as int);
                        }
                        return Ok(Some((chars_to_string(&m), copy_tags(&alts[i]))));
                    }
                    proof {
                        assert(alts_spec[i as int] == alts@[i as int]@);
                    }
                    i += 1;
                }
                proof {
                    lemma_first_match_none(alts_spec, ops.deep_view());
                }
                Err(ParseError::NoMatchingVariant)
            }
        },
    }
}

/// Validates one raw source line without computing modes, length or cycles:
/// `Ok` for blank, skipped and resolvable lines, the parse failure otherwise.
pub fn is_valid(raw_line: &str, all_inst: &Vec<VariantEntry>) -> (r: Result<(), ParseError>)
    ensures
        ({
            let s = resolve_line_spec(raw_line@, table_view(all_inst@));
            match r {
                Ok(u) => s is Ok,
                Err(e) => s == Err::<Option<Seq<OperandTag>>, ParseError>(e),
            }
        }),
{
    match resolve_line(raw_line, all_inst) {
        Ok(_) => Ok(()),
        Err(e) => Err(e),
    }
}

/// Whether the line is no instruction at all: blank after stripping, or a
/// directive matching a skip pattern.
pub fn is_skippable(raw_line: &str) -> (r: bool)
    ensures
        r == (strip_line_spec(raw_line@).len() == 0 || skip_line_spec(strip_line_spec(raw_line@))),
{
    let raw_chars = str_to_chars(raw_line);
    let line = strip_line_exec(&raw_chars);
    if line.len() == 0 {
        true
    } else {
        is_skip_line(&line)
    }
}

} // verus!
