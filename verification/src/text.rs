//! Character and string utilities the sorting engine is built on: whitespace
//! trimming, searching, splitting, joining, case folding of ASCII letters,
//! and the `"Last, First"` name flip.

use vstd::prelude::*;

verus! {

/// The whitespace characters that trimming removes.
pub open spec fn is_space_char(c: char) -> bool {
    c == ' ' || c == '\t' || c == '\n' || c == '\r'
}

/// Exec mirror of [`is_space_char`].
pub fn is_space(c: char) -> (r: bool)
    ensures
        r == is_space_char(c),
{
    c == ' ' || c == '\t' || c == '\n' || c == '\r'
}

/// Index of the first occurrence of `c` in `s`, or `-1` when absent.
pub open spec fn first_index(s: Seq<char>, c: char) -> int
    decreases s.len(),
{
    if s.len() == 0 {
        -1
    } else if s[0] == c {
        0
    } else {
        let r = first_index(s.drop_first(), c);
        if r < 0 {
            -1
        } else {
            r + 1
        }
    }
}

/// `first_index` returns a valid index of `c` preceded only by other
/// characters, or `-1` exactly when `c` does not occur.
pub proof fn lemma_first_index(s: Seq<char>, c: char)
    ensures
        first_index(s, c) >= 0 ==> {
            &&& first_index(s, c) < s.len()
            &&& s[first_index(s, c)] == c
            &&& forall|k: int| 0 <= k < first_index(s, c) ==> s[k] != c
        },
        first_index(s, c) < 0 ==> forall|k: int| 0 <= k < s.len() ==> s[k] != c,
    decreases s.len(),
{
    if s.len() == 0 {
    } else if s[0] == c {
    } else {
        let t = s.drop_first();
        lemma_first_index(t, c);
        let r = first_index(t, c);
        if r >= 0 {
            assert(s[r + 1] == t[r]);
            assert forall|k: int| 0 <= k < r + 1 implies s[k] != c by {
                if k > 0 {
                    assert(t[k - 1] == s[k]);
                }
            }
        } else {
            assert forall|k: int| 0 <= k < s.len() implies s[k] != c by {
                if k > 0 {
                    assert(t[k - 1] == s[k]);
                }
            }
        }
    }
}

/// First occurrence of `c` in `s`, as an option over exec indices.
pub fn find_char(s: &str, c: char) -> (r: Option<usize>)
    ensures
        match r {
            Some(i) => first_index(s@, c) == i as int && i < s@.len(),
            None => first_index(s@, c) < 0,
        },
{
    let n = s.unicode_len();
    let mut i: usize = 0;
    while i < n
        invariant
            i <= n,
            n == s@.len(),
            forall|k: int| 0 <= k < i ==> s@[k] != c,
        decreases n - i,
    {
        if s.get_char(i) == c {
            proof {
                lemma_first_index(s@, c);
            }
            return Some(i);
        }
        i += 1;
    }
    proof {
        lemma_first_index(s@, c);
    }
    None
}

/// Character-wise string equality, decided in exec code.
pub fn str_eq(a: &str, b: &str) -> (r: bool)
    ensures
        r == (a@ == b@),
{
    let na = a.unicode_len();
    let nb = b.unicode_len();
    if na != nb {
        return false;
    }
    let mut i: usize = 0;
    while i < na
        invariant
            i <= na,
            na == a@.len(),
            nb == b@.len(),
            na == nb,
            forall|k: int| 0 <= k < i ==> a@[k] == b@[k],
        decreases na - i,
    {
        if a.get_char(i) != b.get_char(i) {
            return false;
        }
        i += 1;
    }
    proof {
        assert(a@ =~= b@);
    }
    true
}

/// Lower-case image of an ASCII letter; any other character is unchanged.
pub open spec fn lower_char(c: char) -> char {
    if 'A' <= c && c <= 'Z' {
        ((c as u8) + 32) as char
    } else {
        c
    }
}

/// `s` folded character by character through [`lower_char`].
pub open spec fn lower_seq(s: Seq<char>) -> Seq<char> {
    s.map_values(|c: char| lower_char(c))
}

/// Exec mirror of [`lower_char`].
pub fn to_lower_char(c: char) -> (r: char)
    ensures
        r == lower_char(c),
{
    if 'A' <= c && c <= 'Z' {
        ((c as u8) + 32) as char
    } else {
        c
    }
}

/// String equality up to ASCII case.
pub fn str_eq_lower(a: &str, b: &str) -> (r: bool)
    ensures
        r == (lower_seq(a@) == lower_seq(b@)),
{
    let na = a.unicode_len();
    let nb = b.unicode_len();
    if na != nb {
        proof {
            assert(lower_seq(a@).len() != lower_seq(b@).len());
        }
        return false;
    }
    let mut i: usize = 0;
    while i < na
        invariant
            i <= na,
            na == a@.len(),
            nb == b@.len(),
            na == nb,
            forall|k: int| 0 <= k < i ==> lower_char(a@[k]) == lower_char(b@[k]),
        decreases na - i,
    {
        if to_lower_char(a.get_char(i)) != to_lower_char(b.get_char(i)) {
            proof {
                assert(lower_seq(a@)[i as int] != lower_seq(b@)[i as int]);
            }
            return false;
        }
        i += 1;
    }
    proof {
        assert(lower_seq(a@) =~= lower_seq(b@));
    }
    true
}

/// Relies on `String::push`: appends exactly the one character.
#[verifier::external_body]
pub fn push_char(s: &mut String, c: char)
    ensures
        final(s)@ == old(s)@.push(c),
{
    s.push(c);
}

/// `s` with leading whitespace removed.
pub open spec fn trim_front(s: Seq<char>) -> Seq<char>
    decreases s.len(),
{
    if s.len() == 0 {
        s
    } else if is_space_char(s[0]) {
        trim_front(s.drop_first())
    } else {
        s
    }
}

/// `s` with trailing whitespace removed.
pub open spec fn trim_back(s: Seq<char>) -> Seq<char>
    decreases s.len(),
{
    if s.len() == 0 {
        s
    } else if is_space_char(s[s.len() - 1]) {
        trim_back(s.drop_last())
    } else {
        s
    }
}

/// `s` with whitespace removed from both ends.
pub open spec fn spec_trim(s: Seq<char>) -> Seq<char> {
    trim_back(trim_front(s))
}

proof fn lemma_trim_front_at(s: Seq<char>, i: int)
    requires
        0 <= i <= s.len(),
        forall|k: int| 0 <= k < i ==> is_space_char(s[k]),
        i < s.len() ==> !is_space_char(s[i]),
    ensures
        trim_front(s) == s.subrange(i, s.len() as int),
    decreases i,
{
    if i == 0 {
        if s.len() == 0 {
            assert(s.subrange(0, 0) =~= s);
        } else {
            assert(s.subrange(0, s.len() as int) =~= s);
        }
    } else {
        let t = s.drop_first();
        assert(is_space_char(s[0]));
        lemma_trim_front_at(t, i - 1);
        assert(t.subrange(i - 1, t.len() as int) =~= s.subrange(i, s.len() as int));
    }
}

proof fn lemma_trim_back_at(s: Seq<char>, j: int)
    requires
        0 <= j <= s.len(),
        forall|k: int| j <= k < s.len() ==> is_space_char(s[k]),
        j > 0 ==> !is_space_char(s[j - 1]),
    ensures
        trim_back(s) == s.subrange(0, j),
    decreases s.len(),
{
    if j == s.len() {
        if s.len() == 0 {
            assert(s.subrange(0, 0) =~= s);
        } else {
            assert(!is_space_char(s[s.len() - 1]));
            assert(s.subrange(0, s.len() as int) =~= s);
        }
    } else {
        let t = s.drop_last();
        assert(is_space_char(s[s.len() - 1]));
        lemma_trim_back_at(t, j);
        assert(t.subrange(0, j) =~= s.subrange(0, j));
    }
}

/// Removes the whitespace at both ends of `s`.
pub fn trim_str(s: &str) -> (r: String)
    ensures
        r@ == spec_trim(s@),
{
    let n = s.unicode_len();
    let mut i: usize = 0;
    while i < n && is_space(s.get_char(i))
        invariant
            i <= n,
            n == s@.len(),
            forall|k: int| 0 <= k < i ==> is_space_char(s@[k]),
        decreases n - i,
    {
        i += 1;
    }
    let mut j: usize = n;
    while j > i && is_space(s.get_char(j - 1))
        invariant
            i <= j <= n,
            n == s@.len(),
            forall|k: int| j <= k < n ==> is_space_char(s@[k]),
        decreases j,
    {
        j -= 1;
    }
    let out = s.substring_char(i, j);
    proof {
        lemma_trim_front_at(s@, i as int);
        let t = s@.subrange(i as int, n as int);
        lemma_trim_back_at(t, j - i);
        assert(t.subrange(0, j - i) =~= s@.subrange(i as int, j as int));
    }
    out.to_owned()
}

/// `s` split at every occurrence of `sep`; the separators themselves are
/// dropped, empty pieces are kept.
pub open spec fn spec_split(s: Seq<char>, sep: char) -> Seq<Seq<char>>
    decreases s.len(),
{
    let i = first_index(s, sep);
    if 0 <= i && i < s.len() {
        seq![s.subrange(0, i)] + spec_split(s.subrange(i + 1, s.len() as int), sep)
    } else {
        seq![s]
    }
}

/// Exec mirror of [`spec_split`], producing owned pieces.
pub fn split_str(s: &str, sep: char) -> (r: Vec<String>)
    ensures
        r.deep_view() == spec_split(s@, sep),
    decreases s@.len(),
{
    let n = s.unicode_len();
    match find_char(s, sep) {
        None => {
            let mut v: Vec<String> = Vec::new();
            v.push(s.to_owned());
            proof {
                assert(v.deep_view() =~= seq![s@]);
            }
            v
        },
        Some(i) => {
            let head = s.substring_char(0, i).to_owned();
            let tail = s.substring_char(i + 1, n);
            let mut rest = split_str(tail, sep);
            let mut v: Vec<String> = Vec::new();
            v.push(head);
            v.append(&mut rest);
            proof {
                assert(v.deep_view() =~= seq![s@.subrange(0, i as int)] + spec_split(
                    s@.subrange(i + 1, s@.len() as int),
                    sep,
                ));
            }
            v
        },
    }
}

/// The pieces of `parts` glued together with `sep` between neighbours.
pub open spec fn spec_join(parts: Seq<Seq<char>>, sep: Seq<char>) -> Seq<char>
    decreases parts.len(),
{
    if parts.len() == 0 {
        Seq::empty()
    } else if parts.len() == 1 {
        parts[0]
    } else {
        parts[0] + sep + spec_join(parts.drop_first(), sep)
    }
}

/// Glues the strings of `parts` together with `sep` between neighbours.
pub fn join_strings(parts: &Vec<String>, sep: &str) -> (r: String)
    ensures
        r@ == spec_join(parts.deep_view(), sep@),
{
    let r = join_from(parts, 0, sep);
    proof {
        assert(parts.deep_view().subrange(0, parts.len() as int) =~= parts.deep_view());
    }
    r
}

fn join_from(parts: &Vec<String>, start: usize, sep: &str) -> (r: String)
    requires
        start <= parts.len(),
    ensures
        r@ == spec_join(parts.deep_view().subrange(start as int, parts.len() as int), sep@),
    decreases parts.len() - start,
{
    let n = parts.len();
    if start == n {
        proof {
            assert(parts.deep_view().subrange(start as int, n as int) =~= Seq::<
                Seq<char>,
            >::empty());
        }
        String::new()
    } else if start == n - 1 {
        proof {
            let sub = parts.deep_view().subrange(start as int, n as int);
            assert(sub.len() == 1);
            assert(sub[0] == parts.deep_view()[start as int]);
        }
        parts[start].clone()
    } else {
        let mut out = parts[start].clone();
        out.append(sep);
        let rest = join_from(parts, start + 1, sep);
        out.append(rest.as_str());
        proof {
            let sub = parts.deep_view().subrange(start as int, n as int);
            assert(sub.drop_first() =~= parts.deep_view().subrange(start as int + 1, n as int));
            assert(sub[0] == parts.deep_view()[start as int]);
        }
        out
    }
}

/// `s` with each leftmost, non-overlapping pair of spaces contracted to a
/// single space (the behaviour of replacing `"  "` with `" "` once over).
pub open spec fn collapse_space(s: Seq<char>) -> Seq<char>
    decreases s.len(),
{
    if s.len() < 2 {
        s
    } else if s[0] == ' ' && s[1] == ' ' {
        seq![' '] + collapse_space(s.subrange(2, s.len() as int))
    } else {
        seq![s[0]] + collapse_space(s.drop_first())
    }
}

/// Exec mirror of [`collapse_space`].
pub fn replace_double_space(s: &str) -> (r: String)
    ensures
        r@ == collapse_space(s@),
    decreases s@.len(),
{
    let n = s.unicode_len();
    if n < 2 {
        return s.to_owned();
    }
    let c0 = s.get_char(0);
    let c1 = s.get_char(1);
    if c0 == ' ' && c1 == ' ' {
        let rest = replace_double_space(s.substring_char(2, n));
        let mut out = String::new();
        push_char(&mut out, ' ');
        out.append(rest.as_str());
        proof {
            assert(out@ =~= seq![' '] + collapse_space(s@.subrange(2, s@.len() as int)));
        }
        out
    } else {
        let rest = replace_double_space(s.substring_char(1, n));
        let mut out = String::new();
        push_char(&mut out, c0);
        out.append(rest.as_str());
        proof {
            assert(out@ =~= seq![s@[0]] + collapse_space(s@.drop_first()));
        }
        out
    }
}

/// A name candidate in canonical form: trimmed, with double spaces
/// contracted.
pub open spec fn normalize_name(s: Seq<char>) -> Seq<char> {
    collapse_space(spec_trim(s))
}

/// Exec mirror of [`normalize_name`].
pub fn normalize_name_str(s: &str) -> (r: String)
    ensures
        r@ == normalize_name(s@),
{
    let t = trim_str(s);
    replace_double_space(t.as_str())
}

/// The `"Last, First"` name flip: the pieces of `s` around its commas,
/// in reverse order, glued with single spaces; a string without a comma
/// is unchanged.
pub open spec fn spec_flip(s: Seq<char>) -> Seq<char>
    decreases s.len(),
{
    let i = first_index(s, ',');
    if 0 <= i && i < s.len() {
        spec_flip(s.subrange(i + 1, s.len() as int)) + seq![' '] + s.subrange(0, i)
    } else {
        s
    }
}

/// Reorders a comma-separated name, last piece first: `"Last, First"`
/// becomes `" First Last"` (callers trim afterwards).
pub fn flip_comma_split(val: String) -> (r: String)
    ensures
        r@ == spec_flip(val@),
{
    flip_str(val.as_str())
}

/// Appends one owned string, tracked at the level of views.
pub fn push_owned(v: &mut Vec<String>, s: String)
    ensures
        final(v).deep_view() == old(v).deep_view().push(s@),
{
    let ghost old_dv = v.deep_view();
    let ghost sv = s@;
    v.push(s);
    proof {
        assert forall|k: int| 0 <= k < v.deep_view().len() implies v.deep_view()[k]
            == old_dv.push(sv)[k] by {
            if k < old_dv.len() {
                assert(v@[k] == old(v)@[k]);
            } else {
                assert(v.deep_view()[k] == v@[k]@);
            }
        }
        assert(v.deep_view() =~= old_dv.push(sv));
    }
}

/// Appends clones of all of `xs`, tracked at the level of views.
pub fn extend_owned(v: &mut Vec<String>, xs: &Vec<String>)
    ensures
        final(v).deep_view() == old(v).deep_view() + xs.deep_view(),
{
    let ghost base = v.deep_view();
    let n = xs.len();
    let mut i: usize = 0;
    while i < n
        invariant
            i <= n,
            n == xs.len(),
            v.deep_view() == base + xs.deep_view().subrange(0, i as int),
        decreases n - i,
    {
        push_owned(v, xs[i].clone());
        proof {
            assert((base + xs.deep_view().subrange(0, i as int)).push(xs.deep_view()[i as int])
                =~= base + xs.deep_view().subrange(0, i + 1));
        }
        i += 1;
    }
    proof {
        assert(base + xs.deep_view().subrange(0, n as int) =~= base + xs.deep_view());
    }
}

/// Whether some string of `v` has the same characters as `x`.
pub fn contains_string(v: &Vec<String>, x: &str) -> (r: bool)
    ensures
        r == v.deep_view().contains(x@),
{
    let n = v.len();
    let mut i: usize = 0;
    while i < n
        invariant
            i <= n,
            n == v.len(),
            forall|k: int| 0 <= k < i ==> v.deep_view()[k] != x@,
        decreases n - i,
    {
        if str_eq(v[i].as_str(), x) {
            proof {
                assert(v.deep_view()[i as int] == x@);
            }
            return true;
        }
        i += 1;
    }
    proof {
        assert(!v.deep_view().contains(x@));
    }
    false
}

/// `dedup_acc(acc, s)`: `acc` extended by the elements of `s` in order,
/// skipping any already present.
pub open spec fn dedup_acc(acc: Seq<Seq<char>>, s: Seq<Seq<char>>) -> Seq<Seq<char>>
    decreases s.len(),
{
    if s.len() == 0 {
        acc
    } else {
        dedup_acc(
            if acc.contains(s[0]) {
                acc
            } else {
                acc.push(s[0])
            },
            s.drop_first(),
        )
    }
}

/// `s` with every repetition of an earlier element dropped: each distinct
/// string keeps its first occurrence, in order.
pub open spec fn spec_dedup(s: Seq<Seq<char>>) -> Seq<Seq<char>> {
    dedup_acc(Seq::empty(), s)
}

/// No two elements of `s` are equal.
pub open spec fn no_dups(s: Seq<Seq<char>>) -> bool {
    forall|i: int, j: int| 0 <= i < j < s.len() ==> s[i] != s[j]
}

proof fn lemma_dedup_acc_props(acc: Seq<Seq<char>>, s: Seq<Seq<char>>)
    requires
        no_dups(acc),
    ensures
        no_dups(dedup_acc(acc, s)),
        forall|x: Seq<char>|
            #[trigger] dedup_acc(acc, s).contains(x) <==> acc.contains(x) || s.contains(x),
    decreases s.len(),
{
    if s.len() == 0 {
        assert forall|x: Seq<char>| !s.contains(x) by {}
    } else {
        let h = s[0];
        let acc2 = if acc.contains(h) {
            acc
        } else {
            acc.push(h)
        };
        assert forall|x: Seq<char>| #[trigger] acc2.contains(x) <==> acc.contains(x) || x == h by {
            if acc.contains(h) {
            } else {
                if acc2.contains(x) {
                    let k = choose|k: int| 0 <= k < acc2.len() && acc2[k] == x;
                    if k < acc.len() {
                        assert(acc.contains(x));
                    } else {
                        assert(x == h);
                    }
                }
                if acc.contains(x) {
                    let k = choose|k: int| 0 <= k < acc.len() && acc[k] == x;
                    assert(acc2[k] == x);
                }
                if x == h {
                    assert(acc2[acc.len() as int] == h);
                }
            }
        }
        assert(no_dups(acc2)) by {
            if !acc.contains(h) {
                assert forall|i: int, j: int| 0 <= i < j < acc2.len() implies acc2[i] != acc2[j] by {
                    if j < acc.len() {
                    } else {
                        assert(acc2[j] == h);
                        assert(acc2[i] == acc[i]);
                        assert(acc.contains(acc[i]));
                    }
                }
            }
        }
        lemma_dedup_acc_props(acc2, s.drop_first());
        assert forall|x: Seq<char>| #[trigger] s.contains(x) <==> x == h || s.drop_first().contains(
            x,
        ) by {
            if s.contains(x) {
                let k = choose|k: int| 0 <= k < s.len() && s[k] == x;
                if k > 0 {
                    assert(s.drop_first()[k - 1] == x);
                }
            }
            if x == h {
                assert(s[0] == x);
            }
            if s.drop_first().contains(x) {
                let k = choose|k: int| 0 <= k < s.drop_first().len() && s.drop_first()[k] == x;
                assert(s[k + 1] == x);
            }
        }
    }
}

/// Deduplication is faithful: the deduplicated list holds no string twice,
/// and holds exactly the strings of the original list.
pub proof fn lemma_dedup_props(s: Seq<Seq<char>>)
    ensures
        no_dups(spec_dedup(s)),
        forall|x: Seq<char>| #[trigger] spec_dedup(s).contains(x) <==> s.contains(x),
{
    lemma_dedup_acc_props(Seq::empty(), s);
    assert forall|x: Seq<char>| !Seq::<Seq<char>>::empty().contains(x) by {}
}

/// Drops every string equal to an earlier one.
#[verifier::loop_isolation(false)]
pub fn dedup_strings(xs: &Vec<String>) -> (r: Vec<String>)
    ensures
        r.deep_view() == spec_dedup(xs.deep_view()),
{
    let ghost goal = spec_dedup(xs.deep_view());
    let n = xs.len();
    let mut out: Vec<String> = Vec::new();
    proof {
        assert(xs.deep_view().subrange(0, n as int) =~= xs.deep_view());
        assert(out.deep_view() =~= Seq::<Seq<char>>::empty());
    }
    let mut i: usize = 0;
    while i < n
        invariant
            i <= n,
            dedup_acc(out.deep_view(), xs.deep_view().subrange(i as int, n as int)) == goal,
        decreases n - i,
    {
        let ghost rem = xs.deep_view().subrange(i as int, n as int);
        proof {
            assert(rem[0] == xs.deep_view()[i as int]);
            assert(rem.drop_first() =~= xs.deep_view().subrange(i + 1, n as int));
        }
        if !contains_string(&out, xs[i].as_str()) {
            push_owned(&mut out, xs[i].clone());
        }
        i += 1;
    }
    proof {
        assert(xs.deep_view().subrange(n as int, n as int) =~= Seq::<Seq<char>>::empty());
    }
    out
}

fn flip_str(s: &str) -> (r: String)
    ensures
        r@ == spec_flip(s@),
    decreases s@.len(),
{
    let n = s.unicode_len();
    match find_char(s, ',') {
        None => s.to_owned(),
        Some(i) => {
            let head = s.substring_char(0, i);
            let tail = s.substring_char(i + 1, n);
            let mut r = flip_str(tail);
            r.append(" ");
            r.append(head);
            proof {
                reveal_strlit(" ");
                assert(" "@ =~= seq![' ']);
            }
            r
        },
    }
}

} // verus!
