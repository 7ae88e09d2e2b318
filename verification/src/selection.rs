//! Interpretation of oracle answers. The application owns the terminal; the
//! library decides what an answer line means: yes or no, a single option
//! index, the literal `other` escape, or a comma-separated multi-selection
//! joined with `" & "`.

use crate::text::{
    join_strings, lower_seq, split_str, spec_join, spec_split, spec_trim, str_eq, str_eq_lower,
    trim_str,
};
use vstd::prelude::*;

verus! {

pub open spec fn is_digit(c: char) -> bool {
    '0' <= c && c <= '9'
}

pub open spec fn digit_val(c: char) -> int {
    c as int - 48
}

pub open spec fn all_digits(s: Seq<char>) -> bool {
    forall|k: int| 0 <= k < s.len() ==> is_digit(s[k])
}

/// The number a digit string denotes, most significant digit first.
pub open spec fn digits_value(s: Seq<char>) -> int
    decreases s.len(),
{
    if s.len() == 0 {
        0
    } else {
        digits_value(s.drop_last()) * 10 + digit_val(s.last())
    }
}

/// A string that `parse_usize` accepts: non-empty, digits only, value in
/// range.
pub open spec fn valid_index_str(s: Seq<char>) -> bool {
    s.len() > 0 && all_digits(s) && digits_value(s) <= usize::MAX as int
}

proof fn lemma_digits_value_nonneg(s: Seq<char>)
    requires
        all_digits(s),
    ensures
        digits_value(s) >= 0,
    decreases s.len(),
{
    if s.len() > 0 {
        assert(forall|k: int| 0 <= k < s.drop_last().len() ==> is_digit(s.drop_last()[k]));
        lemma_digits_value_nonneg(s.drop_last());
    }
}

proof fn lemma_digits_value_prefix(s: Seq<char>, j: int)
    requires
        all_digits(s),
        0 <= j <= s.len(),
    ensures
        digits_value(s.take(j)) <= digits_value(s),
    decreases s.len() - j,
{
    if j == s.len() {
        assert(s.take(j) =~= s);
    } else {
        let p = s.take(j + 1);
        assert(p.drop_last() =~= s.take(j));
        assert(p.last() == s[j]);
        assert(forall|k: int| 0 <= k < s.take(j).len() ==> is_digit(s.take(j)[k]));
        lemma_digits_value_nonneg(s.take(j));
        assert(digits_value(p) == digits_value(s.take(j)) * 10 + digit_val(s[j]));
        lemma_digits_value_prefix(s, j + 1);
    }
}

/// Parses a non-empty, all-digit string as a number; anything else, and any
/// value that does not fit a `usize`, is rejected.
pub fn parse_usize(s: &str) -> (r: Option<usize>)
    ensures
        match r {
            Some(v) => valid_index_str(s@) && v as int == digits_value(s@),
            None => !valid_index_str(s@),
        },
{
    let n = s.unicode_len();
    if n == 0 {
        return None;
    }
    let mut acc: usize = 0;
    let mut i: usize = 0;
    while i < n
        invariant
            i <= n,
            n == s@.len(),
            forall|k: int| 0 <= k < i ==> is_digit(s@[k]),
            acc as int == digits_value(s@.take(i as int)),
        decreases n - i,
    {
        let c = s.get_char(i);
        if !('0' <= c && c <= '9') {
            return None;
        }
        let d: usize = (c as usize) - 48;
        proof {
            let p = s@.take(i + 1);
            assert(p.drop_last() =~= s@.take(i as int));
            assert(p.last() == s@[i as int]);
        }
        let next = match acc.checked_mul(10) {
            Some(m) => m.checked_add(d),
            None => None,
        };
        match next {
            Some(v) => {
                acc = v;
            },
            None => {
                proof {
                    assert(digits_value(s@.take(i + 1)) > usize::MAX as int);
                    if all_digits(s@) {
                        lemma_digits_value_prefix(s@, i + 1);
                    }
                }
                return None;
            },
        }
        i += 1;
    }
    proof {
        assert(s@.take(n as int) =~= s@);
    }
    Some(acc)
}

/// What a yes/no answer means: `y`/`yes` and `n`/`no`, up to ASCII case;
/// anything else must be asked again.
pub fn interpret_yes_no(response: &str) -> (r: Option<bool>)
    ensures
        match r {
            Some(b) => b == (lower_seq(response@) == seq!['y'] || lower_seq(response@) == seq![
                'y',
                'e',
                's',
            ]) && (b || lower_seq(response@) == seq!['n'] || lower_seq(response@) == seq![
                'n',
                'o',
            ]),
            None => {
                &&& lower_seq(response@) != seq!['y']
                &&& lower_seq(response@) != seq!['y', 'e', 's']
                &&& lower_seq(response@) != seq!['n']
                &&& lower_seq(response@) != seq!['n', 'o']
            },
        },
{
    proof {
        reveal_strlit("y");
        reveal_strlit("yes");
        reveal_strlit("n");
        reveal_strlit("no");
        assert(lower_seq("y"@) =~= seq!['y']);
        assert(lower_seq("yes"@) =~= seq!['y', 'e', 's']);
        assert(lower_seq("n"@) =~= seq!['n']);
        assert(lower_seq("no"@) =~= seq!['n', 'o']);
    }
    if str_eq_lower(response, "y") || str_eq_lower(response, "yes") {
        Some(true)
    } else if str_eq_lower(response, "n") || str_eq_lower(response, "no") {
        Some(false)
    } else {
        None
    }
}

/// What a selection answer came to.
#[derive(Clone, Debug, PartialEq, Eq)]
pub enum Selection {
    /// The chosen option, or the chosen options joined with `" & "`.
    Chosen(String),
    /// The literal answer `other`: the oracle must ask for free text.
    Other,
    /// Not a selection; the oracle must ask again.
    Invalid,
}

pub open spec fn other_token() -> Seq<char> {
    seq!['o', 't', 'h', 'e', 'r']
}

pub open spec fn amp_sep() -> Seq<char> {
    seq![' ', '&', ' ']
}

/// The indices a comma-separated answer names: each piece is trimmed, the
/// pieces that parse as numbers are kept in order, the rest are dropped.
pub open spec fn spec_indices(parts: Seq<Seq<char>>) -> Seq<int>
    decreases parts.len(),
{
    if parts.len() == 0 {
        Seq::empty()
    } else {
        let t = spec_trim(parts[0]);
        let rest = spec_indices(parts.drop_first());
        if valid_index_str(t) {
            seq![digits_value(t)] + rest
        } else {
            rest
        }
    }
}

/// What `interpret_selection` must answer: the `other` escape; a single
/// in-range index, choosing that option; a comma-separated answer whose
/// parsed indices are all in range, choosing those options joined with
/// `" & "`; anything else is invalid. An out-of-range index, single or
/// among many, is invalid.
pub open spec fn selection_post(r: Selection, resp: Seq<char>, opts: Seq<Seq<char>>) -> bool {
    if resp == other_token() {
        r == Selection::Other
    } else if valid_index_str(resp) {
        if digits_value(resp) < opts.len() {
            r matches Selection::Chosen(s) && s@ == opts[digits_value(resp)]
        } else {
            r == Selection::Invalid
        }
    } else if spec_split(resp, ',').len() >= 2 {
        let idx = spec_indices(spec_split(resp, ','));
        if forall|k: int| 0 <= k < idx.len() ==> idx[k] < opts.len() {
            r matches Selection::Chosen(s) && s@ == spec_join(
                idx.map_values(|i: int| opts[i]),
                amp_sep(),
            )
        } else {
            r == Selection::Invalid
        }
    } else {
        r == Selection::Invalid
    }
}

/// Interprets one answer line against the offered options.
#[verifier::loop_isolation(false)]
pub fn interpret_selection(response: &str, options: &Vec<String>) -> (r: Selection)
    ensures
        selection_post(r, response@, options.deep_view()),
{
    proof {
        reveal_strlit("other");
        assert("other"@ =~= other_token());
    }
    if str_eq(response, "other") {
        return Selection::Other;
    }
    match parse_usize(response) {
        Some(i) => {
            if i < options.len() {
                return Selection::Chosen(options[i].clone());
            } else {
                return Selection::Invalid;
            }
        },
        None => {},
    }
    let parts = split_str(response, ',');
    if parts.len() < 2 {
        return Selection::Invalid;
    }
    let ghost all_idx = spec_indices(parts.deep_view());
    let n = parts.len();
    let mut idx: Vec<usize> = Vec::new();
    proof {
        assert(parts.deep_view().subrange(0, n as int) =~= parts.deep_view());
        assert(idx@.map_values(|v: usize| v as int) + spec_indices(parts.deep_view())
            =~= spec_indices(parts.deep_view()));
    }
    let mut k: usize = 0;
    while k < n
        invariant
            k <= n,
            n == parts.len(),
            all_idx == spec_indices(parts.deep_view()),
            all_idx == idx@.map_values(|v: usize| v as int) + spec_indices(
                parts.deep_view().subrange(k as int, n as int),
            ),
        decreases n - k,
    {
        let t = trim_str(parts[k].as_str());
        let ghost rem = parts.deep_view().subrange(k as int, n as int);
        proof {
            assert(rem[0] == parts.deep_view()[k as int]);
            assert(rem.drop_first() =~= parts.deep_view().subrange(k + 1, n as int));
        }
        match parse_usize(t.as_str()) {
            Some(v) => {
                idx.push(v);
                proof {
                    assert(idx@.map_values(|v: usize| v as int) =~= idx@.drop_last().map_values(
                        |v: usize| v as int,
                    ).push(v as int));
                    assert(idx@.drop_last().map_values(|v: usize| v as int).push(v as int) + spec_indices(
                        rem.drop_first(),
                    ) =~= idx@.drop_last().map_values(|v: usize| v as int) + (seq![v as int]
                        + spec_indices(rem.drop_first())));
                }
            },
            None => {},
        }
        k += 1;
    }
    proof {
        assert(parts.deep_view().subrange(n as int, n as int) =~= Seq::<Seq<char>>::empty());
        assert(all_idx =~= idx@.map_values(|v: usize| v as int));
    }
    let m = idx.len();
    let mut k2: usize = 0;
    while k2 < m
        invariant
            k2 <= m,
            m == idx.len(),
            all_idx == idx@.map_values(|v: usize| v as int),
            forall|j: int| 0 <= j < k2 ==> idx@[j] < options.len(),
        decreases m - k2,
    {
        if idx[k2] >= options.len() {
            proof {
                assert(all_idx[k2 as int] == idx@[k2 as int] as int);
                assert(options.deep_view().len() == options@.len());
                assert(!(forall|j: int|
                    0 <= j < all_idx.len() ==> all_idx[j] < options.deep_view().len()));
            }
            return Selection::Invalid;
        }
        k2 += 1;
    }
    let mut selected: Vec<String> = Vec::new();
    let mut k3: usize = 0;
    while k3 < m
        invariant
            k3 <= m,
            m == idx.len(),
            all_idx == idx@.map_values(|v: usize| v as int),
            forall|j: int| 0 <= j < m ==> idx@[j] < options.len(),
            selected.deep_view() =~= all_idx.subrange(0, k3 as int).map_values(
                |i: int| options.deep_view()[i],
            ),
        decreases m - k3,
    {
        selected.push(options[idx[k3]].clone());
        proof {
            assert(selected.deep_view() =~= selected.deep_view().drop_last().push(
                options.deep_view()[idx@[k3 as int] as int],
            ));
            assert(all_idx.subrange(0, k3 + 1).map_values(|i: int| options.deep_view()[i])
                =~= all_idx.subrange(0, k3 as int).map_values(|i: int| options.deep_view()[i]).push(
                options.deep_view()[all_idx[k3 as int]],
            ));
        }
        k3 += 1;
    }
    proof {
        assert(all_idx.subrange(0, m as int) =~= all_idx);
        reveal_strlit(" & ");
        assert(" & "@ =~= amp_sep());
    }
    let joined = join_strings(&selected, " & ");
    Selection::Chosen(joined)
}

} // verus!
