//! Character-sequence utilities shared by the line parser: trimming,
//! first-occurrence search, comma splitting, and `&str` conversion.

use vstd::prelude::*;
use vstd::string::*;

verus! {

/// Whitespace as the line cleaner understands it: the ASCII blank characters.
pub open spec fn is_space_char(c: char) -> bool {
    c == ' ' || c == '\t' || c == '\n' || c == '\r' || c == '\u{b}' || c == '\u{c}'
}

/// `s` without its leading whitespace.
pub open spec fn trim_start_spec(s: Seq<char>) -> Seq<char>
    decreases s.len(),
{
    if s.len() > 0 && is_space_char(s[0]) {
        trim_start_spec(s.drop_first())
    } else {
        s
    }
}

/// `s` without its trailing whitespace.
pub open spec fn trim_end_spec(s: Seq<char>) -> Seq<char>
    decreases s.len(),
{
    if s.len() > 0 && is_space_char(s.last()) {
        trim_end_spec(s.drop_last())
    } else {
        s
    }
}

/// `s` without leading and trailing whitespace.
pub open spec fn trim_spec(s: Seq<char>) -> Seq<char> {
    trim_end_spec(trim_start_spec(s))
}

/// Index of the first occurrence of `c` in `s`, or -1 when `c` does not occur.
pub open spec fn first_occur(s: Seq<char>, c: char) -> int
    decreases s.len(),
{
    if s.len() == 0 {
        -1
    } else if s[0] == c {
        0
    } else if first_occur(s.drop_first(), c) == -1 {
        -1
    } else {
        1 + first_occur(s.drop_first(), c)
    }
}

pub proof fn lemma_first_occur_none(s: Seq<char>, c: char)
    requires
        forall|i: int| 0 <= i < s.len() ==> s[i] != c,
    ensures
        first_occur(s, c) == -1,
    decreases s.len(),
{
    if s.len() > 0 {
        assert(forall|i: int| 0 <= i < s.drop_first().len() ==> s.drop_first()[i] == s[i + 1]);
        lemma_first_occur_none(s.drop_first(), c);
    }
}

pub proof fn lemma_first_occur_at(s: Seq<char>, c: char, i: int)
    requires
        0 <= i < s.len(),
        s[i] == c,
        forall|k: int| 0 <= k < i ==> s[k] != c,
    ensures
        first_occur(s, c) == i,
    decreases s.len(),
{
    if i == 0 {
    } else {
        assert(forall|k: int| 0 <= k < s.drop_first().len() ==> s.drop_first()[k] == s[k + 1]);
        lemma_first_occur_at(s.drop_first(), c, i - 1);
    }
}

/// Properties of `first_occur` when it reports an occurrence.
pub proof fn lemma_first_occur_found(s: Seq<char>, c: char)
    requires
        first_occur(s, c) != -1,
    ensures
        0 <= first_occur(s, c) < s.len(),
        s[first_occur(s, c)] == c,
        forall|k: int| 0 <= k < first_occur(s, c) ==> s[k] != c,
    decreases s.len(),
{
    if s.len() > 0 && s[0] != c {
        assert(forall|i: int| 0 <= i < s.drop_first().len() ==> s.drop_first()[i] == s[i + 1]);
        lemma_first_occur_found(s.drop_first(), c);
        assert forall|k: int| 0 <= k < first_occur(s, c) implies s[k] != c by {
            if k > 0 {
                assert(s.drop_first()[k - 1] != c);
            }
        }
    }
}

/// Finds the first occurrence of `c` in `v`.
pub fn find_first(v: &Vec<char>, c: char) -> (r: Option<usize>)
    ensures
        match r {
            Some(i) => first_occur(v@, c) == i,
            None => first_occur(v@, c) == -1,
        },
{
    let n = v.len();
    let mut i: usize = 0;
    while i < n
        invariant
            0 <= i <= n,
            n == v@.len(),
            forall|k: int| 0 <= k < i ==> v@[k] != c,
        decreases n - i,
    {
        if v[i] == c {
            proof {
                lemma_first_occur_at(v@, c, i as int);
            }
            return Some(i);
        }
        i += 1;
    }
    proof {
        lemma_first_occur_none(v@, c);
    }
    None
}

/// Copies `v[from..to]` into a fresh vector.
pub fn subvec(v: &Vec<char>, from: usize, to: usize) -> (r: Vec<char>)
    requires
        from <= to <= v@.len(),
    ensures
        r@ == v@.subrange(from as int, to as int),
{
    let mut r: Vec<char> = Vec::new();
    let mut i: usize = from;
    while i < to
        invariant
            from <= i <= to <= v@.len(),
            r@ == v@.subrange(from as int, i as int),
        decreases to - i,
    {
        r.push(v[i]);
        proof {
            assert(r@ =~= v@.subrange(from as int, i + 1 as int));
        }
        i += 1;
    }
    r
}

/// Tests whether `c` is whitespace.
pub fn is_space(c: char) -> (r: bool)
    ensures
        r == is_space_char(c),
{
    c == ' ' || c == '\t' || c == '\n' || c == '\r' || c == '\u{b}' || c == '\u{c}'
}

proof fn lemma_trim_start_at(s: Seq<char>, lo: int)
    requires
        0 <= lo <= s.len(),
        forall|k: int| 0 <= k < lo ==> is_space_char(s[k]),
        lo < s.len() ==> !is_space_char(s[lo]),
    ensures
        trim_start_spec(s) == s.subrange(lo, s.len() as int),
    decreases s.len(),
{
    if s.len() == 0 {
        assert(trim_start_spec(s) =~= s.subrange(0, 0));
    } else if lo == 0 {
        assert(trim_start_spec(s) =~= s.subrange(0, s.len() as int));
    } else {
        assert(forall|i: int| 0 <= i < s.drop_first().len() ==> s.drop_first()[i] == s[i + 1]);
        lemma_trim_start_at(s.drop_first(), lo - 1);
        assert(s.drop_first().subrange(lo - 1, s.drop_first().len() as int) =~= s.subrange(
            lo,
            s.len() as int,
        ));
    }
}

proof fn lemma_trim_end_at(s: Seq<char>, hi: int)
    requires
        0 <= hi <= s.len(),
        forall|k: int| hi <= k < s.len() ==> is_space_char(s[k]),
        hi > 0 ==> !is_space_char(s[hi - 1]),
    ensures
        trim_end_spec(s) == s.subrange(0, hi),
    decreases s.len(),
{
    if s.len() == 0 {
        assert(trim_end_spec(s) =~= s.subrange(0, 0));
    } else if hi == s.len() {
        assert(trim_end_spec(s) =~= s.subrange(0, s.len() as int));
    } else {
        lemma_trim_end_at(s.drop_last(), hi);
        assert(s.drop_last().subrange(0, hi) =~= s.subrange(0, hi));
    }
}

/// Removes leading and trailing whitespace from `v`.
pub fn trim_chars(v: &Vec<char>) -> (r: Vec<char>)
    ensures
        r@ == trim_spec(v@),
{
    let n = v.len();
    let mut lo: usize = 0;
    while lo < n && is_space(v[lo])
        invariant
            0 <= lo <= n,
            n == v@.len(),
            forall|k: int| 0 <= k < lo ==> is_space_char(v@[k]),
        decreases n - lo,
    {
        lo += 1;
    }
    proof {
        lemma_trim_start_at(v@, lo as int);
    }
    let ghost t = v@.subrange(lo as int, n as int);
    let mut hi: usize = n;
    while hi > lo && is_space(v[hi - 1])
        invariant
            lo <= hi <= n,
            n == v@.len(),
            forall|k: int| hi <= k < n ==> is_space_char(v@[k]),
        decreases hi,
    {
        hi -= 1;
    }
    proof {
        assert(forall|k: int| hi - lo <= k < t.len() ==> is_space_char(#[trigger] t[k]));
        lemma_trim_end_at(t, hi - lo);
        assert(t.subrange(0, hi - lo) =~= v@.subrange(lo as int, hi as int));
    }
    subvec(v, lo, hi)
}

/// The pieces of `s` between commas, in order; a sequence without a comma is
/// one piece, so the result is never empty.
pub open spec fn split_commas(s: Seq<char>) -> Seq<Seq<char>>
    decreases s.len(),
{
    let i = first_occur(s, ',');
    if 0 <= i < s.len() {
        seq![s.subrange(0, i)] + split_commas(s.subrange(i + 1, s.len() as int))
    } else {
        seq![s]
    }
}

/// The comma-separated pieces of `s`, each trimmed of whitespace.
pub open spec fn split_trim_commas_spec(s: Seq<char>) -> Seq<Seq<char>> {
    split_commas(s).map_values(|p: Seq<char>| trim_spec(p))
}

fn split_commas_exec(v: Vec<char>) -> (r: Vec<Vec<char>>)
    ensures
        r.deep_view() == split_commas(v@),
    decreases v@.len(),
{
    let ghost s = v@;
    match find_first(&v, ',') {
        None => {
            let mut r: Vec<Vec<char>> = Vec::new();
            r.push(v);
            proof {
                assert(r.deep_view() =~~= seq![s]);
                assert(split_commas(s) == seq![s]);
            }
            r
        },
        Some(i) => {
            proof {
                lemma_first_occur_found(v@, ',');
            }
            let n = v.len();
            let head = subvec(&v, 0, i);
            let tail = subvec(&v, i + 1, n);
            let ghost tail_view = tail@;
            let mut rest = split_commas_exec(tail);
            let ghost rest_view = rest.deep_view();
            rest.insert(0, head);
            proof {
                assert(rest.deep_view() =~~= seq![s.subrange(0, i as int)] + rest_view);
                assert(rest.deep_view() =~~= split_commas(s));
            }
            rest
        },
    }
}

/// Splits `v` on commas and trims each piece.
pub fn split_trim_commas(v: Vec<char>) -> (r: Vec<Vec<char>>)
    ensures
        r.deep_view() == split_trim_commas_spec(v@),
{
    let ghost s = v@;
    let pieces = split_commas_exec(v);
    let mut r: Vec<Vec<char>> = Vec::new();
    let n = pieces.len();
    let mut i: usize = 0;
    while i < n
        invariant
            0 <= i <= n,
            n == pieces@.len(),
            pieces.deep_view() == split_commas(s),
            r.deep_view() =~= split_commas(s).map_values(|p: Seq<char>| trim_spec(p)).take(
                i as int,
            ),
        decreases n - i,
    {
        let t = trim_chars(&pieces[i]);
        proof {
            assert(pieces[i as int]@ == pieces.deep_view()[i as int]);
        }
        let ghost prev = r.deep_view();
        let ghost tv = t@;
        r.push(t);
        proof {
            let m = split_commas(s).map_values(|p: Seq<char>| trim_spec(p));
            assert(r.deep_view() =~~= prev.push(tv));
            assert(tv == m[i as int]);
            assert(m.take(i as int).push(m[i as int]) =~= m.take(i + 1));
            assert(r.deep_view() =~~= m.take(i + 1));
        }
        i += 1;
    }
    proof {
        assert(r.deep_view() =~~= split_trim_commas_spec(s));
    }
    r
}

/// A raw line stripped of decoration: everything after the first colon (a
/// `label:` prefix), then everything before the first semicolon (a comment),
/// then trimmed of whitespace.
pub open spec fn strip_line_spec(raw: Seq<char>) -> Seq<char> {
    let c = first_occur(raw, ':');
    let after = if 0 <= c < raw.len() {
        raw.subrange(c + 1, raw.len() as int)
    } else {
        raw
    };
    let s = first_occur(after, ';');
    let before = if 0 <= s < after.len() {
        after.subrange(0, s)
    } else {
        after
    };
    trim_spec(before)
}

/// Strips label prefix, comment suffix and surrounding whitespace from a raw
/// line.
pub fn strip_line_exec(raw: &Vec<char>) -> (r: Vec<char>)
    ensures
        r@ == strip_line_spec(raw@),
{
    let n = raw.len();
    let after = match find_first(raw, ':') {
        Some(c) => {
            proof {
                lemma_first_occur_found(raw@, ':');
            }
            subvec(raw, c + 1, n)
        },
        None => {
            let copy = subvec(raw, 0, n);
            proof {
                assert(copy@ =~= raw@);
            }
            copy
        },
    };
    let m = after.len();
    let before = match find_first(&after, ';') {
        Some(s) => {
            proof {
                lemma_first_occur_found(after@, ';');
            }
            subvec(&after, 0, s)
        },
        None => after,
    };
    trim_chars(&before)
}

/// Relies on `String`'s `FromIterator` over `char`: collecting characters
/// yields the string of exactly those characters, in order.
#[verifier::external_body]
pub fn chars_to_string(v: &Vec<char>) -> (r: String)
    ensures
        r@ == v@,
{
    v.iter().collect()
}

/// Converts a string slice to the vector of its characters.
pub fn str_to_chars(s: &str) -> (r: Vec<char>)
    ensures
        r@ == s@,
{
    let n = s.unicode_len();
    let mut r: Vec<char> = Vec::new();
    let mut i: usize = 0;
    while i < n
        invariant
            0 <= i <= n,
            n == s@.len(),
            r@ == s@.take(i as int),
        decreases n - i,
    {
        r.push(s.get_char(i));
        proof {
            assert(r@ =~= s@.take(i + 1 as int));
        }
        i += 1;
    }
    proof {
        assert(r@ =~= s@);
    }
    r
}

/// Tests whether two character vectors hold the same characters.
pub fn chars_eq(a: &Vec<char>, b: &Vec<char>) -> (r: bool)
    ensures
        r == (a@ == b@),
{
    if a.len() != b.len() {
        proof {
            assert(a@.len() != b@.len());
        }
        return false;
    }
    let n = a.len();
    let mut i: usize = 0;
    while i < n
        invariant
            0 <= i <= n,
            n == a@.len() == b@.len(),
            forall|k: int| 0 <= k < i ==> a@[k] == b@[k],
        decreases n - i,
    {
        if a[i] != b[i] {
            return false;
        }
        i += 1;
    }
    proof {
        assert(a@ =~= b@);
    }
    true
}

} // verus!
