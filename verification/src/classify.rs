//! The operand classifier: for every operand tag, a predicate over the raw
//! operand token deciding whether the token's surface syntax belongs to the
//! tag's category.
//!
//! Numeric tokens come in three literal grammars: hexadecimal (leading zeros,
//! then a bounded run of hex digits led by a digit, then `H`), binary (leading
//! zeros, then a bounded run of bits, then `B`) and decimal (leading zeros,
//! then a bounded run of digits, then an optional `D`). The remaining tags are
//! register names, register-indirect forms, indexed forms, bit names and
//! symbolic labels.

use vstd::prelude::*;
use vstd::string::*;

verus! {

/// A symbolic operand category: one entry per tag of the classifier table.
#[derive(Clone, Copy, Debug, PartialEq, Eq, Structural)]
pub enum OperandTag {
    /// The accumulator register `A`.
    A,
    /// The register pair `AB`.
    Ab,
    /// The carry flag `C`.
    C,
    /// The data pointer `DPTR`.
    Dptr,
    /// Indexed access `@A+DPTR`.
    AtADptr,
    /// Indexed access `@A+PC`.
    AtAPc,
    /// Register-indirect access `@DPTR`.
    AtDptr,
    /// Register-indirect access `@R0` or `@R1`.
    AtRi,
    /// A working register `R0` .. `R7`.
    Rn,
    /// A one-byte direct address.
    Addr1B,
    /// A one-byte immediate.
    Imm1B,
    /// A two-byte direct address.
    Addr2B,
    /// A two-byte immediate.
    Imm2B,
    /// A one-byte relative target: a numeral or a label.
    Rel1B,
    /// A bit address.
    Bit,
}

pub open spec fn is_digit(c: char) -> bool {
    '0' <= c && c <= '9'
}

pub open spec fn is_nonzero_digit(c: char) -> bool {
    '1' <= c && c <= '9'
}

pub open spec fn is_hex_digit(c: char) -> bool {
    is_digit(c) || ('A' <= c && c <= 'F')
}

pub open spec fn is_bin_digit(c: char) -> bool {
    c == '0' || c == '1'
}

pub open spec fn is_upper(c: char) -> bool {
    'A' <= c && c <= 'Z'
}

pub open spec fn is_label_char(c: char) -> bool {
    is_upper(c) || is_digit(c) || c == '_' || c == '-'
}

pub open spec fn all_zeros(s: Seq<char>) -> bool {
    forall|i: int| 0 <= i < s.len() ==> s[i] == '0'
}

/// The digits of a hexadecimal numeral: a leading digit, then at least one
/// more hex digit — at most `k_nonzero` more when the lead is nonzero, at
/// most `k_zero` more when the lead is `0`.
pub open spec fn hex_body(b: Seq<char>, k_nonzero: int, k_zero: int) -> bool {
    &&& b.len() >= 2
    &&& (forall|i: int| 1 <= i < b.len() ==> is_hex_digit(b[i]))
    &&& ((is_nonzero_digit(b[0]) && b.len() <= 1 + k_nonzero) || (b[0] == '0' && b.len() <= 1
        + k_zero))
}

/// Optional leading zeros, then a hex body covering the rest of `u`.
pub open spec fn zeros_then_hex(u: Seq<char>, k_nonzero: int, k_zero: int) -> bool {
    exists|j: int|
        0 <= j <= u.len() && all_zeros(u.subrange(0, j)) && hex_body(
            u.subrange(j, u.len() as int),
            k_nonzero,
            k_zero,
        )
}

/// A hexadecimal numeral: optional leading zeros, a hex body, then `H`.
pub open spec fn hex_numeral(s: Seq<char>, k_nonzero: int, k_zero: int) -> bool {
    &&& s.len() >= 1
    &&& s.last() == 'H'
    &&& zeros_then_hex(s.drop_last(), k_nonzero, k_zero)
}

/// The bits of a binary numeral: one to `maxlen` binary digits.
pub open spec fn bin_body(b: Seq<char>, maxlen: int) -> bool {
    1 <= b.len() <= maxlen && (forall|i: int| 0 <= i < b.len() ==> is_bin_digit(b[i]))
}

/// Optional leading zeros, then a binary body covering the rest of `u`.
pub open spec fn zeros_then_bin(u: Seq<char>, maxlen: int) -> bool {
    exists|j: int|
        0 <= j <= u.len() && all_zeros(u.subrange(0, j)) && bin_body(
            u.subrange(j, u.len() as int),
            maxlen,
        )
}

/// A binary numeral: optional leading zeros, one to `maxlen` bits, then `B`.
pub open spec fn bin_numeral(s: Seq<char>, maxlen: int) -> bool {
    &&& s.len() >= 1
    &&& s.last() == 'B'
    &&& zeros_then_bin(s.drop_last(), maxlen)
}

/// The digits of a decimal numeral: one to `maxlen` digits.
pub open spec fn dec_body(b: Seq<char>, maxlen: int) -> bool {
    1 <= b.len() <= maxlen && (forall|i: int| 0 <= i < b.len() ==> is_digit(b[i]))
}

/// Optional leading zeros, then one to `maxlen` decimal digits.
pub open spec fn dec_core(u: Seq<char>, maxlen: int) -> bool {
    exists|j: int|
        0 <= j <= u.len() && all_zeros(u.subrange(0, j)) && dec_body(
            u.subrange(j, u.len() as int),
            maxlen,
        )
}

/// A decimal numeral, with an optional trailing `D` marker.
pub open spec fn dec_numeral(s: Seq<char>, maxlen: int) -> bool {
    if s.len() >= 1 && s.last() == 'D' {
        dec_core(s.drop_last(), maxlen)
    } else {
        dec_core(s, maxlen)
    }
}

/// A decimal numeral with an optional leading minus sign.
pub open spec fn signed_dec_numeral(s: Seq<char>, maxlen: int) -> bool {
    dec_numeral(s, maxlen) || (s.len() >= 1 && s[0] == '-' && dec_numeral(s.drop_first(), maxlen))
}

/// A numeral small enough for one byte: two hex digits, eight bits or three
/// decimal digits.
pub open spec fn numeric_1b(s: Seq<char>) -> bool {
    hex_numeral(s, 1, 2) || bin_numeral(s, 8) || dec_numeral(s, 3)
}

/// A numeral small enough for two bytes: four hex digits, sixteen bits or
/// five decimal digits.
pub open spec fn numeric_2b(s: Seq<char>) -> bool {
    hex_numeral(s, 3, 4) || bin_numeral(s, 16) || dec_numeral(s, 5)
}

/// A special-function-register name accepted as a one-byte direct address.
pub open spec fn is_sfr_name(s: Seq<char>) -> bool {
    ||| s == seq!['T', 'M', 'O', 'D']
    ||| s == seq!['T', 'L', '0']
    ||| s == seq!['T', 'L', '1']
    ||| s == seq!['T', 'H', '0']
    ||| s == seq!['T', 'H', '1']
    ||| s == seq!['S', 'C', 'O', 'N']
    ||| s == seq!['P', 'C', 'O', 'N']
    ||| s == seq!['S', 'B', 'U', 'F']
}

/// A symbolic label: an upper-case letter, then upper-case letters, digits,
/// underscores or hyphens.
pub open spec fn is_label(s: Seq<char>) -> bool {
    s.len() >= 1 && is_upper(s[0]) && (forall|i: int| 1 <= i < s.len() ==> is_label_char(s[i]))
}

/// A run of spaces, a `+`, and another run of spaces, filling `s[from..to)`.
pub open spec fn spaced_plus(s: Seq<char>, from: int, to: int) -> bool {
    exists|k: int|
        from <= k < to && s[k] == '+' && (forall|i: int| from <= i < k ==> s[i] == ' ') && (forall|
            i: int,
        |
            k < i < to ==> s[i] == ' ')
}

/// The indexed form `@A+DPTR`, with optional spaces around the `+`.
pub open spec fn is_indexed_dptr(s: Seq<char>) -> bool {
    &&& s.len() >= 7
    &&& s[0] == '@'
    &&& s[1] == 'A'
    &&& s[s.len() - 4] == 'D'
    &&& s[s.len() - 3] == 'P'
    &&& s[s.len() - 2] == 'T'
    &&& s[s.len() - 1] == 'R'
    &&& spaced_plus(s, 2, s.len() - 4)
}

/// The indexed form `@A+PC`, with optional spaces around the `+`.
pub open spec fn is_indexed_pc(s: Seq<char>) -> bool {
    &&& s.len() >= 5
    &&& s[0] == '@'
    &&& s[1] == 'A'
    &&& s[s.len() - 2] == 'P'
    &&& s[s.len() - 1] == 'C'
    &&& spaced_plus(s, 2, s.len() - 2)
}

/// A bit named through a port or the accumulator: `P0`..`P7` or `ACC`, one
/// separator character (anything but a newline), then a bit number `0`..`7`.
pub open spec fn is_port_bit(s: Seq<char>) -> bool {
    ||| (s.len() == 4 && s[0] == 'P' && '0' <= s[1] && s[1] <= '7' && s[2] != '\n' && '0' <= s[3]
        && s[3] <= '7')
    ||| (s.len() == 5 && s[0] == 'A' && s[1] == 'C' && s[2] == 'C' && s[3] != '\n' && '0' <= s[4]
        && s[4] <= '7')
}

/// A timer flag or run-control bit: `TF0`, `TF1`, `TR0` or `TR1`.
pub open spec fn is_timer_bit(s: Seq<char>) -> bool {
    s.len() == 3 && s[0] == 'T' && (s[1] == 'F' || s[1] == 'R') && (s[2] == '0' || s[2] == '1')
}

/// A serial interrupt bit: `TI` or `RI`.
pub open spec fn is_serial_bit(s: Seq<char>) -> bool {
    s.len() == 2 && (s[0] == 'T' || s[0] == 'R') && s[1] == 'I'
}

/// A bit-address token: a one-byte numeral or one of the named bits.
pub open spec fn is_bit_token(s: Seq<char>) -> bool {
    numeric_1b(s) || is_port_bit(s) || is_timer_bit(s) || is_serial_bit(s)
}

/// Whether token `tok` belongs to the syntactic category named by `tag`.
pub open spec fn classify_spec(tag: OperandTag, tok: Seq<char>) -> bool {
    match tag {
        OperandTag::A => tok == seq!['A'],
        OperandTag::Ab => tok == seq!['A', 'B'],
        OperandTag::C => tok == seq!['C'],
        OperandTag::Dptr => tok == seq!['D', 'P', 'T', 'R'],
        OperandTag::AtADptr => is_indexed_dptr(tok),
        OperandTag::AtAPc => is_indexed_pc(tok),
        OperandTag::AtDptr => tok == seq!['@', 'D', 'P', 'T', 'R'],
        OperandTag::AtRi => tok.len() == 3 && tok[0] == '@' && tok[1] == 'R' && (tok[2] == '0'
            || tok[2] == '1'),
        OperandTag::Rn => tok.len() == 2 && tok[0] == 'R' && '0' <= tok[1] && tok[1] <= '7',
        OperandTag::Addr1B => numeric_1b(tok) || tok == seq!['B'] || is_sfr_name(tok),
        OperandTag::Imm1B => tok.len() >= 1 && tok[0] == '#' && (hex_numeral(tok.drop_first(), 1, 2)
            || bin_numeral(tok.drop_first(), 8) || signed_dec_numeral(tok.drop_first(), 3)),
        OperandTag::Addr2B => numeric_2b(tok) || tok == seq!['B'],
        OperandTag::Imm2B => tok.len() >= 1 && tok[0] == '#' && numeric_2b(tok.drop_first()),
        OperandTag::Rel1B => numeric_1b(tok) || is_label(tok),
        OperandTag::Bit => is_bit_token(tok),
    }
}

fn is_digit_exec(c: char) -> (r: bool)
    ensures
        r == is_digit(c),
{
    '0' <= c && c <= '9'
}

fn is_hex_digit_exec(c: char) -> (r: bool)
    ensures
        r == is_hex_digit(c),
{
    ('0' <= c && c <= '9') || ('A' <= c && c <= 'F')
}

fn is_bin_digit_exec(c: char) -> (r: bool)
    ensures
        r == is_bin_digit(c),
{
    c == '0' || c == '1'
}

/// Checks that `v[from..to)` holds hex digits only.
fn range_hex(v: &Vec<char>, from: usize, to: usize) -> (r: bool)
    requires
        from <= to <= v@.len(),
    ensures
        r == forall|i: int| from <= i < to ==> is_hex_digit(v@[i]),
{
    let mut i: usize = from;
    while i < to
        invariant
            from <= i <= to <= v@.len(),
            forall|k: int| from <= k < i ==> is_hex_digit(v@[k]),
        decreases to - i,
    {
        if !is_hex_digit_exec(v[i]) {
            return false;
        }
        i += 1;
    }
    true
}

/// Checks that `v[from..to)` holds binary digits only.
fn range_bin(v: &Vec<char>, from: usize, to: usize) -> (r: bool)
    requires
        from <= to <= v@.len(),
    ensures
        r == forall|i: int| from <= i < to ==> is_bin_digit(v@[i]),
{
    let mut i: usize = from;
    while i < to
        invariant
            from <= i <= to <= v@.len(),
            forall|k: int| from <= k < i ==> is_bin_digit(v@[k]),
        decreases to - i,
    {
        if !is_bin_digit_exec(v[i]) {
            return false;
        }
        i += 1;
    }
    true
}

/// Checks that `v[from..to)` holds decimal digits only.
fn range_digit(v: &Vec<char>, from: usize, to: usize) -> (r: bool)
    requires
        from <= to <= v@.len(),
    ensures
        r == forall|i: int| from <= i < to ==> is_digit(v@[i]),
{
    let mut i: usize = from;
    while i < to
        invariant
            from <= i <= to <= v@.len(),
            forall|k: int| from <= k < i ==> is_digit(v@[k]),
        decreases to - i,
    {
        if !is_digit_exec(v[i]) {
            return false;
        }
        i += 1;
    }
    true
}

/// The body language of one numeral `kind`: 0 is hexadecimal (`k1` and `k2`
/// bound the body), 1 is binary and 2 is decimal (`k1` bounds the body).
spec fn split_body(kind: u8, b: Seq<char>, k1: int, k2: int) -> bool {
    if kind == 0 {
        hex_body(b, k1, k2)
    } else if kind == 1 {
        bin_body(b, k1)
    } else {
        dec_body(b, k1)
    }
}

/// Decides `hex_body` on the whole of `b`.
fn check_hex_body(b: &Vec<char>, k_nonzero: usize, k_zero: usize) -> (r: bool)
    ensures
        r == hex_body(b@, k_nonzero as int, k_zero as int),
{
    let n = b.len();
    if n < 2 {
        return false;
    }
    let lead = b[0];
    let lead_ok = (('1' <= lead && lead <= '9') && n - 1 <= k_nonzero) || (lead == '0' && n - 1
        <= k_zero);
    if !lead_ok {
        return false;
    }
    range_hex(b, 1, n)
}

/// Decides `bin_body` on the whole of `b`.
fn check_bin_body(b: &Vec<char>, maxlen: usize) -> (r: bool)
    ensures
        r == bin_body(b@, maxlen as int),
{
    let n = b.len();
    if n < 1 || n > maxlen {
        return false;
    }
    range_bin(b, 0, n)
}

/// Decides `dec_body` on the whole of `b`.
fn check_dec_body(b: &Vec<char>, maxlen: usize) -> (r: bool)
    ensures
        r == dec_body(b@, maxlen as int),
{
    let n = b.len();
    if n < 1 || n > maxlen {
        return false;
    }
    range_digit(b, 0, n)
}

/// Searches for a split of `v` into a run of zeros and a numeral body of the
/// given `kind`.
fn search_zeros_split(v: &Vec<char>, kind: u8, k1: usize, k2: usize) -> (r: bool)
    requires
        kind == 0 || kind == 1 || kind == 2,
    ensures
        kind == 0 ==> r == zeros_then_hex(v@, k1 as int, k2 as int),
        kind == 1 ==> r == zeros_then_bin(v@, k1 as int),
        kind == 2 ==> r == dec_core(v@, k1 as int),
{
    let n = v.len();
    let mut j: usize = 0;
    loop
        invariant
            0 <= j <= n,
            n == v@.len(),
            kind == 0 || kind == 1 || kind == 2,
            all_zeros(v@.subrange(0, j as int)),
            forall|k: int|
                0 <= k < j ==> !(all_zeros(v@.subrange(0, k)) && split_body(
                    kind,
                    v@.subrange(k, n as int),
                    k1 as int,
                    k2 as int,
                )),
        decreases n - j,
    {
        let body = crate::text::subvec(v, j, n);
        let hit: bool = if kind == 0 {
            check_hex_body(&body, k1, k2)
        } else if kind == 1 {
            check_bin_body(&body, k1)
        } else {
            check_dec_body(&body, k1)
        };
        if hit {
            proof {
                assert(all_zeros(v@.subrange(0, j as int)) && split_body(
                    kind,
                    v@.subrange(j as int, n as int),
                    k1 as int,
                    k2 as int,
                ));
            }
            return true;
        }
        if j == n || v[j] != '0' {
            proof {
                assert forall|k: int| 0 <= k <= n implies !(all_zeros(v@.subrange(0, k))
                    && split_body(kind, v@.subrange(k, n as int), k1 as int, k2 as int)) by {
                    if k == j {
                        assert(!split_body(kind, v@.subrange(j as int, n as int), k1 as int, k2 as int));
                    } else if k > j {
                        assert(v@.subrange(0, k)[j as int] == v@[j as int]);
                        assert(!all_zeros(v@.subrange(0, k)));
                    }
                }
            }
            return false;
        }
        proof {
            assert forall|i: int| 0 <= i < j + 1 implies #[trigger] v@.subrange(0, j + 1)[i]
                == '0' by {
                if i < j {
                    assert(v@.subrange(0, j as int)[i] == '0');
                }
            }
        }
        j += 1;
    }
}

/// Decides `hex_numeral` on the whole of `v`.
fn check_hex_numeral(v: &Vec<char>, k_nonzero: usize, k_zero: usize) -> (r: bool)
    ensures
        r == hex_numeral(v@, k_nonzero as int, k_zero as int),
{
    let n = v.len();
    if n < 1 || v[n - 1] != 'H' {
        return false;
    }
    let core = crate::text::subvec(v, 0, n - 1);
    proof {
        assert(core@ =~= v@.drop_last());
    }
    search_zeros_split(&core, 0, k_nonzero, k_zero)
}

/// Decides `bin_numeral` on the whole of `v`.
fn check_bin_numeral(v: &Vec<char>, maxlen: usize) -> (r: bool)
    ensures
        r == bin_numeral(v@, maxlen as int),
{
    let n = v.len();
    if n < 1 || v[n - 1] != 'B' {
        return false;
    }
    let core = crate::text::subvec(v, 0, n - 1);
    proof {
        assert(core@ =~= v@.drop_last());
    }
    search_zeros_split(&core, 1, maxlen, 0)
}

/// Decides `dec_numeral` on the whole of `v`.
fn check_dec_numeral(v: &Vec<char>, maxlen: usize) -> (r: bool)
    ensures
        r == dec_numeral(v@, maxlen as int),
{
    let n = v.len();
    if n >= 1 && v[n - 1] == 'D' {
        let core = crate::text::subvec(v, 0, n - 1);
        proof {
            assert(core@ =~= v@.drop_last());
        }
        search_zeros_split(&core, 2, maxlen, 0)
    } else {
        proof {
            assert(v@.subrange(0, n as int) =~= v@);
        }
        search_zeros_split(v, 2, maxlen, 0)
    }
}

/// Decides `numeric_1b` on the whole of `v`.
fn check_numeric_1b(v: &Vec<char>) -> (r: bool)
    ensures
        r == numeric_1b(v@),
{
    check_hex_numeral(v, 1, 2) || check_bin_numeral(v, 8) || check_dec_numeral(v, 3)
}

/// Decides `numeric_2b` on the whole of `v`.
fn check_numeric_2b(v: &Vec<char>) -> (r: bool)
    ensures
        r == numeric_2b(v@),
{
    check_hex_numeral(v, 3, 4) || check_bin_numeral(v, 16) || check_dec_numeral(v, 5)
}

/// Decides `spaced_plus` on `v[from..to)`.
fn check_spaced_plus(v: &Vec<char>, from: usize, to: usize) -> (r: bool)
    requires
        from <= to <= v@.len(),
    ensures
        r == spaced_plus(v@, from as int, to as int),
{
    let mut i: usize = from;
    while i < to && v[i] == ' '
        invariant
            from <= i <= to <= v@.len(),
            forall|k: int| from <= k < i ==> v@[k] == ' ',
        decreases to - i,
    {
        i += 1;
    }
    if i == to {
        proof {
            assert forall|k: int| from <= k < to implies v@[k] != '+' by {
                assert(v@[k] == ' ');
            }
        }
        return false;
    }
    if v[i] != '+' {
        proof {
            assert forall|k: int|
                from <= k < to && v@[k] == '+' implies !((forall|x: int|
                from <= x < k ==> v@[x] == ' ') && (forall|x: int| k < x < to ==> v@[x] == ' ')) by {
                if k < i {
                    assert(v@[k] == ' ');
                } else if k == i {
                } else {
                    if (forall|x: int| from <= x < k ==> v@[x] == ' ') {
                        assert(v@[i as int] == ' ');
                    }
                }
            }
        }
        return false;
    }
    let mut j: usize = i + 1;
    while j < to && v[j] == ' '
        invariant
            from <= i < j <= to <= v@.len(),
            forall|k: int| i < k < j ==> v@[k] == ' ',
        decreases to - j,
    {
        j += 1;
    }
    if j == to {
        return true;
    }
    proof {
        assert forall|k: int|
            from <= k < to && v@[k] == '+' implies !((forall|x: int| from <= x < k ==> v@[x] == ' ')
            && (forall|x: int| k < x < to ==> v@[x] == ' ')) by {
            if k < i {
                assert(v@[k] == ' ');
            } else if k == i {
                assert(v@[j as int] != ' ');
            } else {
                if (forall|x: int| from <= x < k ==> v@[x] == ' ') {
                    assert(v@[i as int] == ' ');
                }
            }
        }
    }
    false
}

/// Decides `is_label` on the whole of `v`.
fn check_label(v: &Vec<char>) -> (r: bool)
    ensures
        r == is_label(v@),
{
    let n = v.len();
    if n == 0 {
        return false;
    }
    let c0 = v[0];
    if !('A' <= c0 && c0 <= 'Z') {
        return false;
    }
    let mut i: usize = 1;
    while i < n
        invariant
            1 <= i <= n,
            n == v@.len(),
            forall|k: int| 1 <= k < i ==> is_label_char(v@[k]),
        decreases n - i,
    {
        let c = v[i];
        if !(('A' <= c && c <= 'Z') || ('0' <= c && c <= '9') || c == '_' || c == '-') {
            return false;
        }
        i += 1;
    }
    true
}

/// Decides whether `v` spells out the word `w`.
fn is_word(v: &Vec<char>, w: &str) -> (r: bool)
    ensures
        r == (v@ == w@),
{
    let wc = crate::text::str_to_chars(w);
    crate::text::chars_eq(v, &wc)
}

/// Decides `classify_spec(tag, tok@)`: whether `tok`'s syntax belongs to the
/// category named by `tag`.
pub fn classify_token(tag: OperandTag, tok: &Vec<char>) -> (r: bool)
    ensures
        r == classify_spec(tag, tok@),
{
    let n = tok.len();
    match tag {
        OperandTag::A => {
            let r = n == 1 && tok[0] == 'A';
            proof {
                if r {
                    assert(tok@ =~= seq!['A']);
                }
            }
            r
        },
        OperandTag::Ab => {
            let r = n == 2 && tok[0] == 'A' && tok[1] == 'B';
            proof {
                if r {
                    assert(tok@ =~= seq!['A', 'B']);
                }
            }
            r
        },
        OperandTag::C => {
            let r = n == 1 && tok[0] == 'C';
            proof {
                if r {
                    assert(tok@ =~= seq!['C']);
                }
            }
            r
        },
        OperandTag::Dptr => {
            let r = n == 4 && tok[0] == 'D' && tok[1] == 'P' && tok[2] == 'T' && tok[3] == 'R';
            proof {
                if r {
                    assert(tok@ =~= seq!['D', 'P', 'T', 'R']);
                }
            }
            r
        },
        OperandTag::AtADptr => {
            if n >= 7 && tok[0] == '@' && tok[1] == 'A' && tok[n - 4] == 'D' && tok[n - 3] == 'P'
                && tok[n - 2] == 'T' && tok[n - 1] == 'R' {
                check_spaced_plus(tok, 2, n - 4)
            } else {
                false
            }
        },
        OperandTag::AtAPc => {
            if n >= 5 && tok[0] == '@' && tok[1] == 'A' && tok[n - 2] == 'P' && tok[n - 1] == 'C' {
                check_spaced_plus(tok, 2, n - 2)
            } else {
                false
            }
        },
        OperandTag::AtDptr => {
            let r = n == 5 && tok[0] == '@' && tok[1] == 'D' && tok[2] == 'P' && tok[3] == 'T'
                && tok[4] == 'R';
            proof {
                if r {
                    assert(tok@ =~= seq!['@', 'D', 'P', 'T', 'R']);
                }
            }
            r
        },
        OperandTag::AtRi => n == 3 && tok[0] == '@' && tok[1] == 'R' && (tok[2] == '0' || tok[2]
            == '1'),
        OperandTag::Rn => n == 2 && tok[0] == 'R' && '0' <= tok[1] && tok[1] <= '7',
        OperandTag::Addr1B => {
            if check_numeric_1b(tok) {
                return true;
            }
            if n == 1 && tok[0] == 'B' {
                proof {
                    assert(tok@ =~= seq!['B']);
                }
                return true;
            }
            proof {
                reveal_strlit("TMOD");
                reveal_strlit("TL0");
                reveal_strlit("TL1");
                reveal_strlit("TH0");
                reveal_strlit("TH1");
                reveal_strlit("SCON");
                reveal_strlit("PCON");
                reveal_strlit("SBUF");
                assert("TMOD"@ =~= seq!['T', 'M', 'O', 'D']);
                assert("TL0"@ =~= seq!['T', 'L', '0']);
                assert("TL1"@ =~= seq!['T', 'L', '1']);
                assert("TH0"@ =~= seq!['T', 'H', '0']);
                assert("TH1"@ =~= seq!['T', 'H', '1']);
                assert("SCON"@ =~= seq!['S', 'C', 'O', 'N']);
                assert("PCON"@ =~= seq!['P', 'C', 'O', 'N']);
                assert("SBUF"@ =~= seq!['S', 'B', 'U', 'F']);
            }
            is_word(tok, "TMOD") || is_word(tok, "TL0") || is_word(tok, "TL1") || is_word(
                tok,
                "TH0",
            ) || is_word(tok, "TH1") || is_word(tok, "SCON") || is_word(tok, "PCON") || is_word(
                tok,
                "SBUF",
            )
        },
        OperandTag::Imm1B => {
            if n < 1 || tok[0] != '#' {
                return false;
            }
            let rest = crate::text::subvec(tok, 1, n);
            proof {
                assert(rest@ =~= tok@.drop_first());
            }
            if check_hex_numeral(&rest, 1, 2) || check_bin_numeral(&rest, 8) || check_dec_numeral(
                &rest,
                3,
            ) {
                return true;
            }
            if rest.len() >= 1 {
                let r0 = rest[0];
                if r0 == '-' {
                    let body = crate::text::subvec(&rest, 1, rest.len());
                    proof {
                        assert(body@ =~= rest@.drop_first());
                    }
                    return check_dec_numeral(&body, 3);
                }
            }
            false
        },
        OperandTag::Addr2B => {
            if check_numeric_2b(tok) {
                return true;
            }
            let r = n == 1 && tok[0] == 'B';
            proof {
                if r {
                    assert(tok@ =~= seq!['B']);
                }
            }
            r
        },
        OperandTag::Imm2B => {
            if n < 1 || tok[0] != '#' {
                return false;
            }
            let rest = crate::text::subvec(tok, 1, n);
            proof {
                assert(rest@ =~= tok@.drop_first());
            }
            check_numeric_2b(&rest)
        },
        OperandTag::Rel1B => check_numeric_1b(tok) || check_label(tok),
        OperandTag::Bit => {
            if check_numeric_1b(tok) {
                return true;
            }
            if n == 4 && tok[0] == 'P' && '0' <= tok[1] && tok[1] <= '7' && tok[2] != '\n' && '0'
                <= tok[3] && tok[3] <= '7' {
                return true;
            }
            if n == 5 && tok[0] == 'A' && tok[1] == 'C' && tok[2] == 'C' && tok[3] != '\n' && '0'
                <= tok[4] && tok[4] <= '7' {
                return true;
            }
            if n == 3 && tok[0] == 'T' && (tok[1] == 'F' || tok[1] == 'R') && (tok[2] == '0'
                || tok[2] == '1') {
                return true;
            }
            n == 2 && (tok[0] == 'T' || tok[0] == 'R') && tok[1] == 'I'
        },
    }
}

/// The symbolic name of an operand tag, as the variant table and the
/// cycle-cost rules spell it.
pub open spec fn tag_name_spec(tag: OperandTag) -> Seq<char> {
    match tag {
        OperandTag::A => "A"@,
        OperandTag::Ab => "AB"@,
        OperandTag::C => "C"@,
        OperandTag::Dptr => "DPTR"@,
        OperandTag::AtADptr => "@A+DPTR"@,
        OperandTag::AtAPc => "@A+PC"@,
        OperandTag::AtDptr => "@DPTR"@,
        OperandTag::AtRi => "@Ri"@,
        OperandTag::Rn => "Rn"@,
        OperandTag::Addr1B => "addr1B"@,
        OperandTag::Imm1B => "imm1B"@,
        OperandTag::Addr2B => "addr2B"@,
        OperandTag::Imm2B => "imm2B"@,
        OperandTag::Rel1B => "rel1B"@,
        OperandTag::Bit => "bit"@,
    }
}

/// The symbolic name of an operand tag.
pub fn tag_name(tag: OperandTag) -> (r: String)
    ensures
        r@ == tag_name_spec(tag),
{
    match tag {
        OperandTag::A => String::from_str("A"),
        OperandTag::Ab => String::from_str("AB"),
        OperandTag::C => String::from_str("C"),
        OperandTag::Dptr => String::from_str("DPTR"),
        OperandTag::AtADptr => String::from_str("@A+DPTR"),
        OperandTag::AtAPc => String::from_str("@A+PC"),
        OperandTag::AtDptr => String::from_str("@DPTR"),
        OperandTag::AtRi => String::from_str("@Ri"),
        OperandTag::Rn => String::from_str("Rn"),
        OperandTag::Addr1B => String::from_str("addr1B"),
        OperandTag::Imm1B => String::from_str("imm1B"),
        OperandTag::Addr2B => String::from_str("addr2B"),
        OperandTag::Imm2B => String::from_str("imm2B"),
        OperandTag::Rel1B => String::from_str("rel1B"),
        OperandTag::Bit => String::from_str("bit"),
    }
}

/// Tests whether a raw operand token belongs to the category named by `tag`.
pub fn classify(tag: OperandTag, token: &str) -> (r: bool)
    ensures
        r == classify_spec(tag, token@),
{
    let tok = crate::text::str_to_chars(token);
    classify_token(tag, &tok)
}

} // verus!
