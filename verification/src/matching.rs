//! The cycle-cost resolver: an ordered chain of override rules. A rule
//! matches on the mnemonic alone or on the mnemonic plus the exact resolved
//! operand-tag names; the most recently registered rule is evaluated first,
//! and a baseline cost of 1 applies when no rule matches.

use crate::instruction::Instruction;
use vstd::prelude::*;
use vstd::string::*;

verus! {

/// Failure of cycle resolution: the line's mnemonic was not known.
#[derive(Debug, Clone, Copy, PartialEq, Eq, Structural)]
pub struct MatchError;

impl MatchError {
    /// The failure rendered as text.
    pub fn message(&self) -> (r: String)
        ensures
            r@ == "Match Error"@,
    {
        String::from_str("Match Error")
    }
}

/// A cycle rule at specification level: which operand-tag lists it accepts
/// (`None` accepts any list), the mnemonic it is for, and its cost.
pub type RuleView = (Option<Seq<Seq<char>>>, Seq<char>, usize);

/// One registered cycle-cost override.
enum CycleRule {
    /// Matches every instruction with this mnemonic.
    Inst { name: String, cycle: usize },
    /// Matches only this mnemonic with exactly these operand-tag names.
    Specific { name: String, operands: Vec<String>, cycle: usize },
}

spec fn rule_view(r: CycleRule) -> RuleView {
    match r {
        CycleRule::Inst { name, cycle } => (None, name@, cycle),
        CycleRule::Specific { name, operands, cycle } => (
            Some(operands.deep_view()),
            name@,
            cycle,
        ),
    }
}

/// Whether one rule accepts the instruction `name` with operand-tag names
/// `ops`.
pub open spec fn rule_matches(r: RuleView, name: Seq<char>, ops: Seq<Seq<char>>) -> bool {
    &&& r.1 == name
    &&& match r.0 {
        None => true,
        Some(o) => o == ops,
    }
}

/// The cost the rule chain yields for `name` with operand-tag names `ops`:
/// the last rule of `rs` has the highest precedence, and the baseline cost 1
/// applies when no rule matches.
pub open spec fn chain_cycles(rs: Seq<RuleView>, name: Seq<char>, ops: Seq<Seq<char>>) -> usize
    decreases rs.len(),
{
    if rs.len() == 0 {
        1
    } else if rule_matches(rs.last(), name, ops) {
        rs.last().2
    } else {
        chain_cycles(rs.drop_last(), name, ops)
    }
}

/// The index of the highest-precedence rule of `rs` accepting the
/// instruction, or -1 when none does.
pub open spec fn last_match(rs: Seq<RuleView>, name: Seq<char>, ops: Seq<Seq<char>>) -> int
    decreases rs.len(),
{
    if rs.len() == 0 {
        -1
    } else if rule_matches(rs.last(), name, ops) {
        rs.len() - 1
    } else {
        last_match(rs.drop_last(), name, ops)
    }
}

/// The chain yields the cost of the highest-precedence matching rule, and
/// the baseline cost 1 exactly when no rule matches.
pub proof fn lemma_chain_last_match(rs: Seq<RuleView>, name: Seq<char>, ops: Seq<Seq<char>>)
    ensures
        last_match(rs, name, ops) == -1 ==> chain_cycles(rs, name, ops) == 1 && (forall|k: int|
            0 <= k < rs.len() ==> !rule_matches(rs[k], name, ops)),
        last_match(rs, name, ops) != -1 ==> {
            let m = last_match(rs, name, ops);
            &&& 0 <= m < rs.len()
            &&& rule_matches(rs[m], name, ops)
            &&& chain_cycles(rs, name, ops) == rs[m].2
            &&& forall|k: int| m < k < rs.len() ==> !rule_matches(rs[k], name, ops)
        },
    decreases rs.len(),
{
    if rs.len() > 0 && !rule_matches(rs.last(), name, ops) {
        lemma_chain_last_match(rs.drop_last(), name, ops);
        assert(forall|k: int| 0 <= k < rs.len() - 1 ==> rs.drop_last()[k] == rs[k]);
    }
}

/// An operand-shape-specific rule always outranks a mnemonic-only rule for
/// the same resolved instruction: in a chain where every operand-specific
/// rule is registered later (at higher precedence) than every mnemonic-only
/// rule, once any operand-specific rule accepts the instruction, the chain's
/// answer is the cost of an operand-specific rule that accepts it.
pub proof fn lemma_specific_rule_outranks(rs: Seq<RuleView>, name: Seq<char>, ops: Seq<Seq<char>>)
    requires
        forall|i: int, j: int|
            0 <= i < rs.len() && 0 <= j < rs.len() && (#[trigger] rs[i]).0 is Some && (
            #[trigger] rs[j]).0 is None ==> j < i,
        exists|i: int|
            0 <= i < rs.len() && (#[trigger] rs[i]).0 is Some && rule_matches(rs[i], name, ops),
    ensures
        exists|i: int|
            0 <= i < rs.len() && (#[trigger] rs[i]).0 is Some && rule_matches(rs[i], name, ops)
                && chain_cycles(rs, name, ops) == rs[i].2,
{
    let w = choose|i: int|
        0 <= i < rs.len() && (#[trigger] rs[i]).0 is Some && rule_matches(rs[i], name, ops);
    lemma_chain_last_match(rs, name, ops);
    let m = last_match(rs, name, ops);
    assert(m != -1);
    if rs[m].0 is None {
        assert(m < w);
        assert(!rule_matches(rs[w], name, ops));
        assert(false);
    }
    assert(rule_matches(rs[m], name, ops) && chain_cycles(rs, name, ops) == rs[m].2);
}

/// The cycle-cost matcher: the registered rules, oldest first.
pub struct BoxedMatcher {
    rules: Vec<CycleRule>,
}

fn string_list_eq(a: &Vec<String>, b: &Vec<String>) -> (r: bool)
    ensures
        r == (a.deep_view() == b.deep_view()),
{
    if a.len() != b.len() {
        proof {
            assert(a.deep_view().len() == a@.len());
            assert(b.deep_view().len() == b@.len());
        }
        return false;
    }
    let n = a.len();
    let mut i: usize = 0;
    while i < n
        invariant
            0 <= i <= n,
            n == a@.len() == b@.len(),
            forall|k: int| 0 <= k < i ==> a@[k]@ == b@[k]@,
        decreases n - i,
    {
        if !(a[i] == b[i]) {
            proof {
                assert(a.deep_view()[i as int] != b.deep_view()[i as int]);
            }
            return false;
        }
        i += 1;
    }
    proof {
        assert(a.deep_view() =~~= b.deep_view());
    }
    true
}

impl BoxedMatcher {
    /// The registered rules, oldest (lowest precedence) first.
    pub closed spec fn rules_view(&self) -> Seq<RuleView> {
        self.rules@.map_values(|r: CycleRule| rule_view(r))
    }

    fn new(rules: Vec<CycleRule>) -> (m: BoxedMatcher)
        ensures
            m.rules_view() == rules@.map_values(|r: CycleRule| rule_view(r)),
    {
        BoxedMatcher { rules }
    }

    /// Resolves the cycle cost of `inst` against the registered rules; the
    /// baseline fallback means the chain itself never fails.
    pub fn do_match(&self, inst: Instruction) -> (r: Result<usize, MatchError>)
        ensures
            r == Ok::<usize, MatchError>(
                chain_cycles(self.rules_view(), inst.name@, inst.operands.deep_view()),
            ),
    {
        let ghost full = self.rules_view();
        let ghost name = inst.name@;
        let ghost ops = inst.operands.deep_view();
        let n = self.rules.len();
        proof {
            assert(full.take(n as int) =~= full);
        }
        let mut i: usize = n;
        while i > 0
            invariant
                0 <= i <= n,
                n == self.rules@.len(),
                full == self.rules_view(),
                name == inst.name@,
                ops == inst.operands.deep_view(),
                chain_cycles(full, name, ops) == chain_cycles(full.take(i as int), name, ops),
            decreases i,
        {
            i -= 1;
            proof {
                assert(full.take(i + 1).last() == full[i as int]);
                assert(full.take(i + 1).drop_last() =~= full.take(i as int));
            }
            let rule = &self.rules[i];
            match rule {
                CycleRule::Inst { name: rn, cycle } => {
                    if *rn == inst.name {
                        proof {
                            assert(rule_matches(full[i as int], name, ops));
                        }
                        return Ok(*cycle);
                    }
                },
                CycleRule::Specific { name: rn, operands, cycle } => {
                    if *rn == inst.name && string_list_eq(operands, &inst.operands) {
                        proof {
                            assert(rule_matches(full[i as int], name, ops));
                        }
                        return Ok(*cycle);
                    }
                },
            }
            proof {
                assert(!rule_matches(full[i as int], name, ops));
            }
        }
        proof {
            assert(full.take(0) =~= Seq::<RuleView>::empty());
        }
        Ok(1)
    }

    /// Registers a mnemonic-only rule at the highest precedence.
    pub fn inst(self, name: &str, cycle: usize) -> (m: BoxedMatcher)
        ensures
            m.rules_view() == self.rules_view().push((None, name@, cycle)),
    {
        when_inst(self, String::from_str(name), cycle)
    }

    /// Registers a mnemonic-plus-operand-tags rule at the highest precedence.
    pub fn specific(self, name: &str, operands: Vec<&str>, cycle: usize) -> (m: BoxedMatcher)
        ensures
            m.rules_view() == self.rules_view().push(
                (Some(operands.deep_view()), name@, cycle),
            ),
    {
        let mut ops: Vec<String> = Vec::new();
        let n = operands.len();
        let mut i: usize = 0;
        while i < n
            invariant
                0 <= i <= n,
                n == operands@.len(),
                ops.deep_view() =~~= operands.deep_view().take(i as int),
            decreases n - i,
        {
            let t = String::from_str(operands[i]);
            let ghost prev = ops.deep_view();
            let ghost tv = t@;
            ops.push(t);
            proof {
                assert(ops.deep_view() =~~= prev.push(tv));
                assert(operands.deep_view()[i as int] == operands@[i as int]@);
                assert(ops.deep_view() =~~= operands.deep_view().take(i + 1));
            }
            i += 1;
        }
        proof {
            assert(ops.deep_view() =~~= operands.deep_view());
        }
        when_specific(self, String::from_str(name), ops, cycle)
    }
}

/// A matcher with no rules: every instruction gets the baseline cost 1.
pub fn unit() -> (m: BoxedMatcher)
    ensures
        m.rules_view() == Seq::<RuleView>::empty(),
{
    let m = BoxedMatcher::new(Vec::new());
    proof {
        assert(m.rules_view() =~= Seq::<RuleView>::empty());
    }
    m
}

/// Extends `matcher` with a mnemonic-only rule at the highest precedence.
pub fn when_inst(matcher: BoxedMatcher, name: String, cycle: usize) -> (m: BoxedMatcher)
    ensures
        m.rules_view() == matcher.rules_view().push((None, name@, cycle)),
{
    let ghost before = matcher.rules@;
    let mut rules = matcher.rules;
    rules.push(CycleRule::Inst { name, cycle });
    let m = BoxedMatcher::new(rules);
    proof {
        assert(m.rules_view() =~= before.map_values(|r: CycleRule| rule_view(r)).push(
            (None, name@, cycle),
        ));
    }
    m
}

/// The configured rule chain: the mnemonic-only defaults, oldest first, then
/// every operand-shape override at higher precedence.
pub open spec fn make_matcher_rules() -> Seq<RuleView> {
    seq![
        (None, "MUL"@, 4usize),
        (None, "DIV"@, 4usize),
        (None, "MOVC"@, 2usize),
        (None, "MOVX"@, 2usize),
        (None, "PUSH"@, 2usize),
        (None, "POP"@, 2usize),
        (None, "JC"@, 2usize),
        (None, "JNC"@, 2usize),
        (None, "JB"@, 2usize),
        (None, "JNB"@, 2usize),
        (None, "JZ"@, 2usize),
        (None, "JNZ"@, 2usize),
        (None, "JBC"@, 2usize),
        (None, "ACALL"@, 2usize),
        (None, "LCALL"@, 2usize),
        (None, "AJMP"@, 2usize),
        (None, "JMP"@, 2usize),
        (None, "SJMP"@, 2usize),
        (None, "CJNE"@, 2usize),
        (None, "DJNZ"@, 2usize),
        (None, "RET"@, 2usize),
        (None, "RETI"@, 2usize),
        (Some(seq!["DPTR"@]), "INC"@, 2usize),
        (Some(seq!["addr1B"@, "imm1B"@]), "ANL"@, 2usize),
        (Some(seq!["addr1B"@, "imm1B"@]), "ORL"@, 2usize),
        (Some(seq!["addr1B"@, "imm1B"@]), "XRL"@, 2usize),
        (Some(seq!["Rn"@, "addr1B"@]), "MOV"@, 2usize),
        (Some(seq!["addr1B"@, "Rn"@]), "MOV"@, 2usize),
        (Some(seq!["addr1B"@, "addr1B"@]), "MOV"@, 2usize),
        (Some(seq!["addr1B"@, "@Ri"@]), "MOV"@, 2usize),
        (Some(seq!["addr1B"@, "imm1B"@]), "MOV"@, 2usize),
        (Some(seq!["A"@, "addr1B"@]), "MOV"@, 2usize),
        (Some(seq!["@Ri"@, "direct"@]), "MOV"@, 2usize),
        (Some(seq!["DPTR"@, "imm2B"@]), "MOV"@, 2usize),
        (Some(seq!["bit"@, "C"@]), "MOV"@, 2usize),
        (Some(seq!["C"@, "bit"@]), "ANL"@, 2usize),
        (Some(seq!["C"@, "bit"@]), "ORL"@, 2usize),
    ]
}

fn ops1<'a>(a: &'a str) -> (r: Vec<&'a str>)
    ensures
        r.deep_view() == seq![a@],
{
    let mut r: Vec<&'a str> = Vec::new();
    r.push(a);
    proof {
        assert(r.deep_view() =~~= seq![a@]);
    }
    r
}

fn ops2<'a>(a: &'a str, b: &'a str) -> (r: Vec<&'a str>)
    ensures
        r.deep_view() == seq![a@, b@],
{
    let mut r: Vec<&'a str> = Vec::new();
    r.push(a);
    r.push(b);
    proof {
        assert(r.deep_view() =~~= seq![a@, b@]);
    }
    r
}

/// Builds the configured cycle-cost matcher: mnemonic-wide defaults first,
/// operand-shape-specific overrides registered after them, so the overrides
/// take precedence.
pub fn make_matcher() -> (m: BoxedMatcher)
    ensures
        m.rules_view() == make_matcher_rules(),
{
    let m = unit()
        .inst("MUL", 4)
        .inst("DIV", 4)
        .inst("MOVC", 2)
        .inst("MOVX", 2)
        .inst("PUSH", 2)
        .inst("POP", 2)
        .inst("JC", 2)
        .inst("JNC", 2)
        .inst("JB", 2)
        .inst("JNB", 2)
        .inst("JZ", 2)
        .inst("JNZ", 2)
        .inst("JBC", 2)
        .inst("ACALL", 2)
        .inst("LCALL", 2)
        .inst("AJMP", 2)
        .inst("JMP", 2)
        .inst("SJMP", 2)
        .inst("CJNE", 2)
        .inst("DJNZ", 2)
        .inst("RET", 2)
        .inst("RETI", 2)
        .specific("INC", ops1("DPTR"), 2)
        .specific("ANL", ops2("addr1B", "imm1B"), 2)
        .specific("ORL", ops2("addr1B", "imm1B"), 2)
        .specific("XRL", ops2("addr1B", "imm1B"), 2)
        .specific("MOV", ops2("Rn", "addr1B"), 2)
        .specific("MOV", ops2("addr1B", "Rn"), 2)
        .specific("MOV", ops2("addr1B", "addr1B"), 2)
        .specific("MOV", ops2("addr1B", "@Ri"), 2)
        .specific("MOV", ops2("addr1B", "imm1B"), 2)
        .specific("MOV", ops2("A", "addr1B"), 2)
        // "direct" is a tag name the variant table never yields, so this
        // rule is inert as configured; it stays registered all the same.
        .specific("MOV", ops2("@Ri", "direct"), 2)
        .specific("MOV", ops2("DPTR", "imm2B"), 2)
        .specific("MOV", ops2("bit", "C"), 2)
        .specific("ANL", ops2("C", "bit"), 2)
        .specific("ORL", ops2("C", "bit"), 2);
    proof {
        assert(m.rules_view() =~~= make_matcher_rules());
    }
    m
}

/// In the chain that `make_matcher` builds, every operand-shape-specific
/// rule stands at higher precedence than every mnemonic-only rule.
pub proof fn lemma_make_matcher_layout()
    ensures
        forall|i: int, j: int|
            0 <= i < make_matcher_rules().len() && 0 <= j < make_matcher_rules().len() && (
            #[trigger] make_matcher_rules()[i]).0 is Some && (#[trigger] make_matcher_rules()[j]).0
                is None ==> j < i,
{
    let rs = make_matcher_rules();
    assert(rs[0].0 is None);
    assert(rs[1].0 is None);
    assert(rs[2].0 is None);
    assert(rs[3].0 is None);
    assert(rs[4].0 is None);
    assert(rs[5].0 is None);
    assert(rs[6].0 is None);
    assert(rs[7].0 is None);
    assert(rs[8].0 is None);
    assert(rs[9].0 is None);
    assert(rs[10].0 is None);
    assert(rs[11].0 is None);
    assert(rs[12].0 is None);
    assert(rs[13].0 is None);
    assert(rs[14].0 is None);
    assert(rs[15].0 is None);
    assert(rs[16].0 is None);
    assert(rs[17].0 is None);
    assert(rs[18].0 is None);
    assert(rs[19].0 is None);
    assert(rs[20].0 is None);
    assert(rs[21].0 is None);
    assert(rs[22].0 is Some);
    assert(rs[23].0 is Some);
    assert(rs[24].0 is Some);
    assert(rs[25].0 is Some);
    assert(rs[26].0 is Some);
    assert(rs[27].0 is Some);
    assert(rs[28].0 is Some);
    assert(rs[29].0 is Some);
    assert(rs[30].0 is Some);
    assert(rs[31].0 is Some);
    assert(rs[32].0 is Some);
    assert(rs[33].0 is Some);
    assert(rs[34].0 is Some);
    assert(rs[35].0 is Some);
    assert(rs[36].0 is Some);
    assert(rs.len() == 37);
}

/// In the shipped chain, an operand-shape-specific rule always outranks a
/// mnemonic-only rule for the same resolved instruction: whenever any
/// operand-specific rule accepts the instruction, the cost resolved through
/// `make_matcher`'s rules is that of an operand-specific rule accepting it.
pub proof fn lemma_make_matcher_specific_outranks(name: Seq<char>, ops: Seq<Seq<char>>)
    requires
        exists|i: int|
            0 <= i < make_matcher_rules().len() && (#[trigger] make_matcher_rules()[i]).0 is Some
                && rule_matches(make_matcher_rules()[i], name, ops),
    ensures
        exists|i: int|
            0 <= i < make_matcher_rules().len() && (#[trigger] make_matcher_rules()[i]).0 is Some
                && rule_matches(make_matcher_rules()[i], name, ops) && chain_cycles(
                make_matcher_rules(),
                name,
                ops,
            ) == make_matcher_rules()[i].2,
{
    lemma_make_matcher_layout();
    lemma_specific_rule_outranks(make_matcher_rules(), name, ops);
}

/// Extends `matcher` with a mnemonic-plus-operand-tags rule at the highest
/// precedence.
pub fn when_specific(matcher: BoxedMatcher, name: String, operands: Vec<String>, cycle: usize) -> (m:
    BoxedMatcher)
    ensures
        m.rules_view() == matcher.rules_view().push(
            (Some(operands.deep_view()), name@, cycle),
        ),
{
    let ghost before = matcher.rules@;
    let mut rules = matcher.rules;
    rules.push(CycleRule::Specific { name, operands, cycle });
    let m = BoxedMatcher::new(rules);
    proof {
        assert(m.rules_view() =~= before.map_values(|r: CycleRule| rule_view(r)).push(
            (Some(operands.deep_view()), name@, cycle),
        ));
    }
    m
}

} // verus!
