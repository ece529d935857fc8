//! Reading which of a numbered list of packages the user picked
//! (`1`, `1 2 3`, `1-3, 5`), and ordering search results.
use vstd::prelude::*;
use crate::rebuild::opt_text;
use crate::text::{chars_of, is_white_space, white_space, decimal_value, parse_decimal};

verus! {

//=========================================#
//            TOKENS                       #
//=========================================#

/// Characters that separate selection tokens: white space and commas.
pub open spec fn is_separator(c: char) -> bool {
    is_white_space(c) || c == ','
}

/// The length of the token at the start of `s` (zero when `s` starts with a separator).
pub open spec fn token_len(s: Seq<char>) -> nat
    decreases s.len(),
{
    if s.len() == 0 || is_separator(s[0]) {
        0
    } else {
        1 + token_len(s.drop_first())
    }
}

pub proof fn lemma_token_len(s: Seq<char>)
    ensures
        token_len(s) <= s.len(),
        forall|j: int| 0 <= j < token_len(s) ==> !is_separator(#[trigger] s[j]),
        token_len(s) < s.len() ==> is_separator(s[token_len(s) as int]),
    decreases s.len(),
{
    if s.len() > 0 && !is_separator(s[0]) {
        lemma_token_len(s.drop_first());
        assert forall|j: int| 0 <= j < token_len(s) implies !is_separator(#[trigger] s[j]) by {
            if j > 0 {
                assert(s[j] == s.drop_first()[j - 1]);
            }
        }
    }
}

/// The tokens of `s`: its maximal runs of characters that are not separators.
pub open spec fn tokens(s: Seq<char>) -> Seq<Seq<char>>
    decreases s.len(),
{
    if s.len() == 0 {
        seq![]
    } else if is_separator(s[0]) {
        tokens(s.drop_first())
    } else {
        proof {
            lemma_token_len(s);
        }
        seq![s.take(token_len(s) as int)] + tokens(s.skip(token_len(s) as int))
    }
}

//=========================================#
//            TOKEN MEANING                #
//=========================================#

/// The number of dashes in `t`.
pub open spec fn dash_count(t: Seq<char>) -> nat
    decreases t.len(),
{
    if t.len() == 0 {
        0
    } else {
        dash_count(t.drop_last()) + if t.last() == '-' {
            1nat
        } else {
            0nat
        }
    }
}

/// The index of the first dash in `t` (its length when there is none).
pub open spec fn first_dash(t: Seq<char>) -> nat
    decreases t.len(),
{
    if t.len() == 0 || t[0] == '-' {
        0
    } else {
        1 + first_dash(t.drop_first())
    }
}

/// A number of a selection as `usize` reads it: `None` when the text is no
/// number or too large.
pub open spec fn index_value(t: Seq<char>) -> Option<nat> {
    match decimal_value(t) {
        Some(v) => if v <= usize::MAX {
            Some(v)
        } else {
            None
        },
        None => None,
    }
}

/// The inclusive range of 1-based numbers that a token names: `n` names
/// `n..=n`; `a-b` (exactly one dash) names the numbers between `a` and `b`
/// in either order; anything else names nothing.
pub open spec fn token_bounds(t: Seq<char>) -> Option<(nat, nat)> {
    if dash_count(t) == 0 {
        match index_value(t) {
            Some(v) => Some((v, v)),
            None => None,
        }
    } else if dash_count(t) == 1 {
        let p = first_dash(t) as int;
        match (index_value(t.take(p)), index_value(t.skip(p + 1))) {
            (Some(a), Some(b)) => if a <= b {
                Some((a, b))
            } else {
                Some((b, a))
            },
            _ => None,
        }
    } else {
        None
    }
}

/// Whether token `t` names the 1-based number `n`.
pub open spec fn token_names(t: Seq<char>, n: int) -> bool {
    match token_bounds(t) {
        Some((lo, hi)) => lo <= n <= hi,
        None => false,
    }
}

/// Whether some token among `toks` names the 1-based number `n`.
pub open spec fn named_by(toks: Seq<Seq<char>>, n: int) -> bool {
    exists|j: int| 0 <= j < toks.len() && token_names(#[trigger] toks[j], n)
}

/// The 0-based indices that a selection picks from a list of `max_len`
/// entries: those whose 1-based number some token names.
pub open spec fn picks(input: Seq<char>, max_len: nat, idx: nat) -> bool {
    idx < max_len && named_by(tokens(input), idx + 1int)
}

/// Whether `v` is strictly increasing.
pub open spec fn strictly_increasing(v: Seq<usize>) -> bool {
    forall|i: int, j: int| 0 <= i < j < v.len() ==> v[i] < v[j]
}

//=========================================#
//            EXECUTABLE                   #
//=========================================#

/// Inserts `x` into the strictly increasing `v`, keeping it so.
#[verifier::spinoff_prover]
fn insert_sorted(v: &mut Vec<usize>, x: usize)
    requires
        strictly_increasing(old(v)@),
    ensures
        strictly_increasing(final(v)@),
        forall|y: usize| final(v)@.contains(y) <==> (old(v)@.contains(y) || y == x),
{
    let mut k: usize = 0;
    while k < v.len() && v[k] < x
        invariant
            k <= v.len(),
            v@ == old(v)@,
            strictly_increasing(v@),
            forall|i: int| 0 <= i < k ==> v@[i] < x,
        decreases v.len() - k,
    {
        k = k + 1;
    }
    if k < v.len() && v[k] == x {
        assert(v@[k as int] == x);
        assert(v@.contains(x));
        return;
    }
    let ghost before = v@;
    assert(before == old(v)@);
    v.insert(k, x);
    assert forall|i: int, j: int| 0 <= i < j < v@.len() implies v@[i] < v@[j] by {
        if j < k {
        } else if j == k {
        } else if i < k {
            assert(v@[j] == before[j - 1]);
        } else if i == k {
            assert(v@[j] == before[j - 1]);
            assert(before[k as int] >= x);
            if j - 1 > k {
                assert(before[k as int] < before[j - 1]);
            }
        } else {
            assert(v@[i] == before[i - 1]);
            assert(v@[j] == before[j - 1]);
        }
    }
    assert forall|y: usize| v@.contains(y) <==> (before.contains(y) || y == x) by {
        if v@.contains(y) {
            let i = choose|i: int| 0 <= i < v@.len() && v@[i] == y;
            if i < k {
                assert(before[i] == y);
            } else if i > k {
                assert(before[i - 1] == y);
            }
        }
        if before.contains(y) {
            let i = choose|i: int| 0 <= i < before.len() && before[i] == y;
            if i < k {
                assert(v@[i] == y);
            } else {
                assert(v@[i + 1] == y);
            }
        }
        if y == x {
            assert(v@[k as int] == x);
        }
    }
    assert(forall|y: usize| v@.contains(y) <==> (old(v)@.contains(y) || y == x));
}

/// The number of dashes in `t`, and the index of the first one.
fn dashes(t: &[char]) -> (r: (usize, usize))
    ensures
        r.0 == dash_count(t@),
        r.1 == first_dash(t@),
{
    let mut count: usize = 0;
    let mut first: usize = t.len();
    let mut i: usize = t.len();
    // Scan backwards, so the last assignment to `first` is the first dash.
    while i > 0
        invariant
            i <= t.len(),
            count == dash_count(t@.skip(i as int)) - 0,
            count <= t.len() - i,
            first == if dash_count(t@.skip(i as int)) == 0 {
                t.len() as int
            } else {
                i + first_dash(t@.skip(i as int))
            },
        decreases i,
    {
        i = i - 1;
        proof {
            lemma_dash_cons(t@.skip(i as int));
            assert(t@.skip(i as int).drop_first() =~= t@.skip(i + 1));
        }
        if t[i] == '-' {
            count = count + 1;
            first = i;
        }
    }
    proof {
        assert(t@.skip(0) =~= t@);
        lemma_first_dash_none(t@);
    }
    (count, first)
}

proof fn lemma_dash_cons(t: Seq<char>)
    requires
        t.len() > 0,
    ensures
        dash_count(t) == dash_count(t.drop_first()) + if t[0] == '-' {
            1nat
        } else {
            0nat
        },
    decreases t.len(),
{
    if t.len() > 1 {
        lemma_dash_cons(t.drop_last());
        assert(t.drop_last().drop_first() =~= t.drop_first().drop_last());
    } else {
        assert(t.drop_first() =~= t.drop_last());
        assert(dash_count(t.drop_last()) == 0);
    }
}

proof fn lemma_first_dash_none(t: Seq<char>)
    ensures
        dash_count(t) == 0 ==> first_dash(t) == t.len(),
        dash_count(t) > 0 ==> first_dash(t) < t.len() && t[first_dash(t) as int] == '-',
    decreases t.len(),
{
    if t.len() > 0 {
        lemma_dash_cons(t);
        lemma_first_dash_none(t.drop_first());
    }
}

/// A number of the selection as `usize` reads it.
fn index_of_text(t: &[char]) -> (r: Option<usize>)
    ensures
        match index_value(t@) {
            Some(v) => r == Some(v as usize),
            None => r is None,
        },
{
    match parse_decimal(t, usize::MAX as u64) {
        Some(v) => Some(v as usize),
        None => None,
    }
}

/// The range of 1-based numbers that a token names.
fn bounds_of(t: &[char]) -> (r: Option<(usize, usize)>)
    ensures
        r is None <==> token_bounds(t@) is None,
        r matches Some((a, b)) ==> token_bounds(t@) == Some((a as nat, b as nat)),
{
    let (count, p) = dashes(t);
    if count == 0 {
        match index_of_text(t) {
            Some(v) => Some((v, v)),
            None => None,
        }
    } else if count == 1 {
        proof {
            lemma_first_dash_none(t@);
        }
        assert(p < t.len());
        let a = index_of_text(&t[0..p]);
        let b = index_of_text(&t[p + 1..t.len()]);
        assert(t@.subrange(0, p as int) =~= t@.take(p as int));
        assert(t@.subrange(p + 1, t@.len() as int) =~= t@.skip(p + 1));
        match (a, b) {
            (Some(a), Some(b)) => if a <= b {
                Some((a, b))
            } else {
                Some((b, a))
            },
            _ => None,
        }
    } else {
        None
    }
}

proof fn lemma_tokens_skip_separator(s: Seq<char>, i: int)
    requires
        0 <= i < s.len(),
        is_separator(s[i]),
    ensures
        tokens(s.skip(i)) == tokens(s.skip(i + 1)),
{
    assert(s.skip(i).drop_first() =~= s.skip(i + 1));
}

/// Parses a selection such as `1`, `1 2 3`, or `1-3, 5` against a list of
/// `max_len` entries. The result holds, in increasing order and once each,
/// the 0-based indices of the entries whose numbers the selection names;
/// numbers outside `1..=max_len` and unreadable tokens are ignored.
pub fn parse_selection(input: &str, max_len: usize) -> (r: Vec<usize>)
    ensures
        strictly_increasing(r@),
        forall|x: usize| r@.contains(x) <==> picks(input@, max_len as nat, x as nat),
{
    let cs = chars_of(input);
    let n = cs.len();
    let mut list: Vec<usize> = Vec::new();
    let mut i: usize = 0;
    let ghost mut done: Seq<Seq<char>> = seq![];
    assert(cs@.skip(0) =~= cs@);
    while i < n
        invariant
            i <= n,
            n == cs@.len(),
            cs@ == input@,
            tokens(cs@) == done + tokens(cs@.skip(i as int)),
            strictly_increasing(list@),
            forall|x: usize| list@.contains(x) <==> (x < max_len && named_by(done, x + 1)),
        decreases n - i,
    {
        if white_space(cs[i]) || cs[i] == ',' {
            proof {
                lemma_tokens_skip_separator(cs@, i as int);
            }
            i = i + 1;
            continue;
        }
        // Collect the token that starts here.
        let mut tok: Vec<char> = Vec::new();
        let start = i;
        let ghost rest = cs@.skip(start as int);
        proof {
            lemma_token_len(rest);
        }
        while i < n && !(white_space(cs[i]) || cs[i] == ',')
            invariant
                start <= i <= n,
                n == cs@.len(),
                rest == cs@.skip(start as int),
                tok@ == cs@.subrange(start as int, i as int),
                forall|j: int| start <= j < i ==> !is_separator(cs@[j]),
                token_len(rest) <= rest.len(),
                forall|j: int| 0 <= j < token_len(rest) ==> !is_separator(#[trigger] rest[j]),
                token_len(rest) < rest.len() ==> is_separator(rest[token_len(rest) as int]),
                i - start <= token_len(rest),
            decreases n - i,
        {
            tok.push(cs[i]);
            i = i + 1;
            assert(tok@ =~= cs@.subrange(start as int, i as int));
            proof {
                if i - start > token_len(rest) {
                    assert(rest[token_len(rest) as int] == cs@[start + token_len(rest)]);
                }
            }
        }
        proof {
            if i - start < token_len(rest) {
                assert(rest[i - start] == cs@[i as int]);
            }
            assert(i - start == token_len(rest));
            assert(tok@ =~= rest.take(token_len(rest) as int));
            assert(rest.skip(token_len(rest) as int) =~= cs@.skip(i as int));
            assert(tokens(rest) == seq![tok@] + tokens(cs@.skip(i as int)));
            assert(done + tokens(rest) =~= done.push(tok@) + tokens(cs@.skip(i as int)));
        }
        let ghost prev_done = done;
        proof {
            done = done.push(tok@);
            assert forall|m: int| named_by(done, m) <==> (named_by(prev_done, m) || token_names(
                tok@,
                m,
            )) by {
                if named_by(done, m) {
                    let j = choose|j: int| 0 <= j < done.len() && token_names(#[trigger] done[j], m);
                    if j < prev_done.len() {
                        assert(prev_done[j] == done[j]);
                    }
                }
                if named_by(prev_done, m) {
                    let j = choose|j: int|
                        0 <= j < prev_done.len() && token_names(#[trigger] prev_done[j], m);
                    assert(done[j] == prev_done[j]);
                }
                if token_names(tok@, m) {
                    assert(done[prev_done.len() as int] == tok@);
                }
            }
        }
        match bounds_of(tok.as_slice()) {
            None => {
                assert forall|x: usize| list@.contains(x) <==> (x < max_len && named_by(
                    done,
                    x + 1,
                )) by {
                    assert(!token_names(tok@, x + 1));
                }
            },
            Some((lo, hi)) => {
                // Add the 0-based indices of lo..=hi that fall in 1..=max_len.
                let first: usize = if lo < 1 {
                    0
                } else {
                    lo - 1
                };
                let last: usize = if hi < max_len {
                    hi
                } else {
                    max_len
                };
                let mut x: usize = first;
                while x < last
                    invariant
                        first <= x,
                        x <= last || x == first,
                        last <= max_len,
                        token_bounds(tok@) == Some((lo as nat, hi as nat)),
                        first == if lo < 1 {
                            0
                        } else {
                            lo - 1
                        },
                        last == if hi < max_len {
                            hi
                        } else {
                            max_len
                        },
                        strictly_increasing(list@),
                        forall|y: usize| list@.contains(y) <==> ((y < max_len && named_by(prev_done, y + 1))
                            || (first <= y < x)),
                    decreases last - x,
                {
                    insert_sorted(&mut list, x);
                    x = x + 1;
                }
                assert forall|y: usize| list@.contains(y) <==> (y < max_len && named_by(done, y + 1)) by {
                    assert(token_names(tok@, y + 1) <==> (lo <= y + 1 <= hi));
                    assert((first <= y < x) <==> (y < max_len && lo <= y + 1 <= hi));
                }
            },
        }
    }
    proof {
        assert(tokens(cs@.skip(i as int)) =~= seq![]);
        assert(done + seq![] =~= done);
    }
    list
}

//=========================================#
//            SEARCH RESULTS               #
//=========================================#

/// One package found by a search.
#[derive(Debug)]
pub struct SearchResult {
    pub package_attr_name: Option<String>,
    pub package_pname: Option<String>,
    pub package_pversion: Option<String>,
    pub package_description: Option<String>,
    pub package_main_program: Option<String>,
    pub package_programs: Option<Vec<String>>,
}

/// The attribute name of a result as the search compares it (empty when missing).
pub open spec fn compared_name(r: SearchResult) -> Seq<char> {
    match r.package_attr_name {
        Some(s) => s@,
        None => ""@,
    }
}

/// Whether a result's attribute name is exactly the query.
pub open spec fn is_exact(r: SearchResult, query: Seq<char>) -> bool {
    compared_name(r) == query
}

/// The results whose attribute name is exactly the query (`exact`) or not
/// (`!exact`), in the order they were given.
pub open spec fn results_where(rs: Seq<SearchResult>, query: Seq<char>, exact: bool) -> Seq<
    SearchResult,
>
    decreases rs.len(),
{
    if rs.len() == 0 {
        seq![]
    } else {
        let rest = results_where(rs.drop_last(), query, exact);
        if is_exact(rs.last(), query) == exact {
            rest.push(rs.last())
        } else {
            rest
        }
    }
}

/// Whether the optional string holds exactly the characters `q`.
fn opt_name_is(name: &Option<String>, q: &[char]) -> (r: bool)
    ensures
        r == ((match name {
            Some(s) => s@,
            None => ""@,
        }) == q@),
{
    match name {
        Some(s) => {
            let cs = chars_of(s.as_str());
            crate::text::eq_chars(cs.as_slice(), q)
        },
        None => crate::text::eq_str(q, "") && true,
    }
}

/// Moves the results whose attribute name is exactly the query to the
/// front, keeping the order within both groups (a stable sort on exactness).
pub fn prioritize_exact_matches(results: Vec<SearchResult>, query: &str) -> (r: Vec<SearchResult>)
    ensures
        r@ == results_where(results@, query@, true) + results_where(results@, query@, false),
{
    let q = chars_of(query);
    let ghost orig = results@;
    let mut rest = results;
    let mut exact: Vec<SearchResult> = Vec::new();
    let mut others: Vec<SearchResult> = Vec::new();
    let ghost mut k: int = 0;
    assert(orig.take(0) =~= Seq::<SearchResult>::empty());
    assert(orig.skip(0) =~= orig);
    while rest.len() > 0
        invariant
            0 <= k <= orig.len(),
            rest@ == orig.skip(k),
            q@ == query@,
            exact@ == results_where(orig.take(k), query@, true),
            others@ == results_where(orig.take(k), query@, false),
        decreases rest.len(),
    {
        let item = rest.remove(0);
        proof {
            assert(orig.take(k + 1).drop_last() =~= orig.take(k));
            assert(orig.take(k + 1).last() == item);
        }
        if opt_name_is(&item.package_attr_name, q.as_slice()) {
            exact.push(item);
        } else {
            others.push(item);
        }
        proof {
            assert(rest@ =~= orig.skip(k + 1));
            k = k + 1;
        }
    }
    assert(orig.take(k) =~= orig);
    exact.append(&mut others);
    exact
}

/// Splitting results by exactness loses and duplicates nothing: the two
/// groups together hold exactly the results, each as often as before.
proof fn lemma_results_where_split(rs: Seq<SearchResult>, query: Seq<char>)
    ensures
        results_where(rs, query, true).to_multiset().add(
            results_where(rs, query, false).to_multiset(),
        ) == rs.to_multiset(),
    decreases rs.len(),
{
    broadcast use vstd::seq_lib::group_to_multiset_ensures, vstd::multiset::group_multiset_axioms;

    if rs.len() == 0 {
        assert(results_where(rs, query, true) =~= Seq::<SearchResult>::empty());
        assert(rs.to_multiset() =~= vstd::multiset::Multiset::empty());
    } else {
        let init = rs.drop_last();
        lemma_results_where_split(init, query);
        assert(init.push(rs.last()) =~= rs);
        let a = results_where(init, query, true).to_multiset();
        let b = results_where(init, query, false).to_multiset();
        if is_exact(rs.last(), query) {
            assert(a.insert(rs.last()).add(b) =~= a.add(b).insert(rs.last()));
        } else {
            assert(a.add(b.insert(rs.last())) =~= a.add(b).insert(rs.last()));
        }
    }
}

/// Putting exact matches first only reorders the results: every result is
/// kept, none is added, and each occurs as often as in the input.
pub proof fn law_prioritize_is_permutation(results: Seq<SearchResult>, query: Seq<char>)
    ensures
        (results_where(results, query, true) + results_where(results, query, false)).to_multiset()
            == results.to_multiset(),
{
    lemma_results_where_split(results, query);
    vstd::seq_lib::lemma_multiset_commutative(
        results_where(results, query, true),
        results_where(results, query, false),
    );
}

/// The results to show from `nh search`, given the list it gave (none when
/// it failed or gave no list): the list with exact matches first when it is
/// not empty; otherwise none, and `nix search` is asked instead.
pub fn nh_results_to_show(results: Option<Vec<SearchResult>>, query: &str) -> (r: Option<
    Vec<SearchResult>,
>)
    ensures
        match results {
            Some(v) => if v@.len() > 0 {
                r matches Some(w) && w@ == results_where(v@, query@, true) + results_where(
                    v@,
                    query@,
                    false,
                )
            } else {
                r is None
            },
            None => r is None,
        },
{
    match results {
        Some(v) => if v.len() > 0 {
            Some(prioritize_exact_matches(v, query))
        } else {
            None
        },
        None => None,
    }
}

/// The text after the last `.` of a search key (the whole key when it has
/// none), as `split('.').last()` gives it.
pub open spec fn last_segment(key: Seq<char>) -> Seq<char>
    decreases key.len(),
{
    if key.len() == 0 {
        key
    } else if key.last() == '.' {
        seq![]
    } else {
        last_segment(key.drop_last()).push(key.last())
    }
}

/// The attribute name in a `nix search` key such as
/// `legacyPackages.x86_64-linux.sl`.
pub fn attr_from_search_key(key: &str) -> (r: String)
    ensures
        r@ == last_segment(key@),
{
    let cs = chars_of(key);
    let mut start: usize = cs.len();
    assert(cs@.take(start as int) =~= cs@);
    assert(cs@ + cs@.skip(start as int) =~= cs@);
    while start > 0 && cs[start - 1] != '.'
        invariant
            start <= cs.len(),
            last_segment(cs@) == last_segment(cs@.take(start as int)) + cs@.skip(start as int),
        decreases start,
    {
        proof {
            let t = cs@.take(start as int);
            assert(t.drop_last() =~= cs@.take(start - 1));
            assert(cs@.take(start - 1).len() == start - 1);
            assert(last_segment(cs@.take(start - 1)).push(t.last()) + cs@.skip(start as int)
                =~= last_segment(cs@.take(start - 1)) + cs@.skip(start - 1));
        }
        start = start - 1;
    }
    proof {
        assert(last_segment(cs@.take(start as int)) =~= seq![]);
    }
    let mut out: Vec<char> = Vec::new();
    let mut k: usize = start;
    while k < cs.len()
        invariant
            start <= k <= cs.len(),
            out@ == cs@.subrange(start as int, k as int),
        decreases cs.len() - k,
    {
        out.push(cs[k]);
        k = k + 1;
        assert(out@ =~= cs@.subrange(start as int, k as int));
    }
    assert(out@ =~= cs@.skip(start as int));
    crate::text::string_of(out.as_slice())
}

//=========================================#
//            RUNNING SELECTED PACKAGES    #
//=========================================#

/// The attribute name of a chosen package (`unknown` when missing).
pub open spec fn chosen_attr(r: SearchResult) -> Seq<char> {
    match r.package_attr_name {
        Some(s) => s@,
        None => "unknown"@,
    }
}

/// The program to launch for a chosen package: its main program, else its
/// attribute name.
pub open spec fn launch_program(r: SearchResult) -> Seq<char> {
    match r.package_main_program {
        Some(s) => s@,
        None => chosen_attr(r),
    }
}

/// What running the selected packages does.
pub struct RunPlan {
    /// The attribute names of the chosen packages, in selection order.
    pub attrs: Vec<String>,
    /// For a GUI run, the program to launch.
    pub program: Option<String>,
    /// The `nix-shell` command line.
    pub argv: Vec<String>,
}

/// The `nixpkgs#<attr>` reference of each attribute name.
pub open spec fn package_refs(attrs: Seq<Seq<char>>) -> Seq<Seq<char>> {
    attrs.map_values(|a: Seq<char>| "nixpkgs#"@ + a)
}

/// The attribute names of the packages at the selected indices.
pub open spec fn chosen_attrs(results: Seq<SearchResult>, selected: Seq<usize>) -> Seq<Seq<char>> {
    selected.map_values(|i: usize| chosen_attr(results[i as int]))
}

/// The `nix-shell` command line: `-p` with `nixpkgs#<attr>` for each chosen
/// package, and for a GUI run `--run <program>`.
pub open spec fn run_argv(attrs: Seq<Seq<char>>, program: Option<Seq<char>>) -> Seq<Seq<char>> {
    seq!["nix-shell"@, "-p"@] + package_refs(attrs) + match program {
        Some(p) => seq!["--run"@, p],
        None => seq![],
    }
}

/// Plans the run of the packages at the `selected` indices of `results`;
/// a GUI run launches the main program of the first selected package.
pub fn run_plan(results: &Vec<SearchResult>, selected: &Vec<usize>, is_gui: bool) -> (r: RunPlan)
    requires
        selected@.len() > 0,
        forall|i: int| 0 <= i < selected@.len() ==> selected@[i] < results@.len(),
    ensures
        crate::rebuild::texts(r.attrs@) == chosen_attrs(results@, selected@),
        crate::rebuild::opt_text(r.program) == (if is_gui {
            Some(launch_program(results@[selected@[0] as int]))
        } else {
            None
        }),
        crate::rebuild::texts(r.argv@) == run_argv(
            crate::rebuild::texts(r.attrs@),
            crate::rebuild::opt_text(r.program),
        ),
{
    let mut attrs: Vec<String> = Vec::new();
    let mut argv: Vec<String> = Vec::new();
    argv.push(crate::rebuild::owned("nix-shell"));
    argv.push(crate::rebuild::owned("-p"));
    let mut k: usize = 0;
    while k < selected.len()
        invariant
            k <= selected@.len(),
            forall|i: int| 0 <= i < selected@.len() ==> selected@[i] < results@.len(),
            crate::rebuild::texts(attrs@) == chosen_attrs(results@, selected@.take(k as int)),
            crate::rebuild::texts(argv@) == seq!["nix-shell"@, "-p"@] + package_refs(
                crate::rebuild::texts(attrs@),
            ),
        decreases selected@.len() - k,
    {
        let pkg = &results[selected[k]];
        let attr: String = match &pkg.package_attr_name {
            Some(s) => s.clone(),
            None => crate::rebuild::owned("unknown"),
        };
        let mut spec_cs = chars_of("nixpkgs#");
        let mut a_cs = chars_of(attr.as_str());
        spec_cs.append(&mut a_cs);
        let ghost old_attrs = attrs@;
        let ghost old_argv = argv@;
        argv.push(crate::text::string_of(spec_cs.as_slice()));
        attrs.push(attr);
        proof {
            assert(selected@.take(k + 1) =~= selected@.take(k as int).push(selected@[k as int]));
            assert(crate::rebuild::texts(attrs@) =~= crate::rebuild::texts(old_attrs).push(
                chosen_attr(results@[selected@[k as int] as int]),
            ));
            assert(crate::rebuild::texts(attrs@) =~= chosen_attrs(results@, selected@.take(k + 1)));
            assert(crate::rebuild::texts(argv@) =~= crate::rebuild::texts(old_argv).push(
                "nixpkgs#"@ + attr@,
            ));
            assert(package_refs(crate::rebuild::texts(attrs@)) =~= package_refs(
                crate::rebuild::texts(old_attrs),
            ).push("nixpkgs#"@ + attr@));
            assert(crate::rebuild::texts(argv@) =~= seq!["nix-shell"@, "-p"@] + package_refs(
                crate::rebuild::texts(attrs@),
            ));
        }
        k = k + 1;
    }
    assert(selected@.take(selected@.len() as int) =~= selected@);
    let program: Option<String> = if is_gui {
        let first = &results[selected[0]];
        let p = match &first.package_main_program {
            Some(m) => m.clone(),
            None => match &first.package_attr_name {
                Some(s) => s.clone(),
                None => crate::rebuild::owned("unknown"),
            },
        };
        let ghost before = argv@;
        argv.push(crate::rebuild::owned("--run"));
        argv.push(p.clone());
        assert(crate::rebuild::texts(argv@) =~= crate::rebuild::texts(before) + seq![
            "--run"@,
            p@,
        ]);
        Some(p)
    } else {
        assert(crate::rebuild::texts(argv@) =~= crate::rebuild::texts(argv@) + seq![]);
        None
    };
    RunPlan { attrs, program, argv }
}

/// Whether `r` is the search result made from a package of `nix search`
/// output: its attribute name is the last segment of the key, its name the
/// package's `pname` (else the attribute name), its version and description
/// those of the package, and it names no program.
pub open spec fn is_nix_result(r: SearchResult, p: NixPackageView) -> bool {
    &&& opt_text(r.package_attr_name) == Some(last_segment(p.0))
    &&& opt_text(r.package_pname) == Some(
        match p.1 {
            Some(n) => n,
            None => last_segment(p.0),
        },
    )
    &&& opt_text(r.package_pversion) == p.2
    &&& opt_text(r.package_description) == p.3
    &&& r.package_main_program is None
    &&& r.package_programs is None
}

/// The search result for a package of `nix search` output, given its key
/// and its `pname`, `version` and `description` strings.
pub fn search_result_from_nix(
    key: &str,
    pname: Option<String>,
    version: Option<String>,
    description: Option<String>,
) -> (r: SearchResult)
    ensures
        is_nix_result(r, (key@, opt_text(pname), opt_text(version), opt_text(description))),
{
    let attr = attr_from_search_key(key);
    let name = match pname {
        Some(p) => p,
        None => attr.clone(),
    };
    SearchResult {
        package_attr_name: Some(attr),
        package_pname: Some(name),
        package_pversion: version,
        package_description: description,
        package_main_program: None,
        package_programs: None,
    }
}

/// A package as `nix search --json` lists it: its key, and the `pname`,
/// `version` and `description` strings of its value.
pub struct NixPackage {
    pub key: String,
    pub pname: Option<String>,
    pub version: Option<String>,
    pub description: Option<String>,
}

/// The key and the `pname`, `version` and `description` of a package.
pub type NixPackageView = (Seq<char>, Option<Seq<char>>, Option<Seq<char>>, Option<Seq<char>>);

/// The value of a package.
pub open spec fn nix_package_view(p: NixPackage) -> NixPackageView {
    (p.key@, opt_text(p.pname), opt_text(p.version), opt_text(p.description))
}

/// What `serde_json` reads from the output of `nix search --json`: none when
/// it is not JSON; `Some(None)` when the JSON value is not an object; else
/// the members of the object in the order of `serde_json::Map` (by key), each
/// with the `pname`, `version` and `description` members of its value that
/// are strings.
pub uninterp spec fn nix_search_packages(out: Seq<u8>) -> Option<Option<Seq<NixPackageView>>>;

/// The value of what `read_nix_search` gives.
pub open spec fn nix_read_view(r: Option<Option<Vec<NixPackage>>>) -> Option<Option<Seq<NixPackageView>>> {
    match r {
        None => None,
        Some(None) => Some(None),
        Some(Some(v)) => Some(Some(v@.map_values(|p: NixPackage| nix_package_view(p)))),
    }
}

/// Reads the output of `nix search --json` with `serde_json::from_slice`
/// into a `serde_json::Value`, then, with `Value::as_object`, `Value::get`
/// and `Value::as_str`, the key and the string members of each package.
/// Trusted: the result is what those calls give (`None` where the output is
/// not JSON, `Some(None)` where the value is not an object), a function of
/// the output alone. JSON's grammar is not stated here.
#[verifier::external_body]
fn read_nix_search(out: &[u8]) -> (r: Option<Option<Vec<NixPackage>>>)
    ensures
        nix_read_view(r) == nix_search_packages(out@),
{
    let val: serde_json::Value = match serde_json::from_slice(out) {
        Ok(v) => v,
        Err(_) => return None,
    };
    Some(val.as_object().map(|obj| obj.iter().map(|(k, v)| NixPackage {
        key: k.clone(),
        pname: v.get("pname").and_then(|x| x.as_str()).map(String::from),
        version: v.get("version").and_then(|x| x.as_str()).map(String::from),
        description: v.get("description").and_then(|x| x.as_str()).map(String::from),
    }).collect()))
}

/// The search results for the packages that `nix search` listed, in order.
pub fn nix_results_of(packages: Vec<NixPackage>) -> (r: Vec<SearchResult>)
    ensures
        r@.len() == packages@.len(),
        forall|i: int|
            0 <= i < packages@.len() ==> is_nix_result(
                #[trigger] r@[i],
                nix_package_view(packages@[i]),
            ),
{
    let ghost orig = packages@;
    let mut rest = packages;
    let mut out: Vec<SearchResult> = Vec::new();
    let ghost mut k: int = 0;
    assert(orig.skip(0) =~= orig);
    while rest.len() > 0
        invariant
            0 <= k <= orig.len(),
            rest@ == orig.skip(k),
            out@.len() == k,
            forall|i: int| 0 <= i < k ==> is_nix_result(#[trigger] out@[i], nix_package_view(orig[i])),
        decreases rest.len(),
    {
        let p = rest.remove(0);
        assert(p == orig[k]);
        let r = search_result_from_nix(p.key.as_str(), p.pname, p.version, p.description);
        out.push(r);
        proof {
            assert(rest@ =~= orig.skip(k + 1));
            k = k + 1;
        }
    }
    out
}

/// The packages that the output of `nix search --json` lists: none when the
/// output is not JSON, no package when its value is not an object.
pub open spec fn listed_packages(read: Option<Option<Seq<NixPackageView>>>) -> Option<Seq<NixPackageView>> {
    match read {
        None => None,
        Some(None) => Some(seq![]),
        Some(Some(ps)) => Some(ps),
    }
}

/// The search results that the output of `nix search --json` lists, in
/// order; none when the output is not JSON, and no result when its value is
/// not an object.
pub fn nix_search_results(out: &[u8]) -> (r: Option<Vec<SearchResult>>)
    ensures
        match listed_packages(nix_search_packages(out@)) {
            None => r is None,
            Some(ps) => r matches Some(v) && v@.len() == ps.len() && forall|i: int|
                0 <= i < ps.len() ==> is_nix_result(#[trigger] v@[i], ps[i]),
        },
{
    match read_nix_search(out) {
        None => None,
        Some(None) => Some(Vec::new()),
        Some(Some(packages)) => {
            let ghost ps = packages@.map_values(|p: NixPackage| nix_package_view(p));
            let v = nix_results_of(packages);
            assert forall|i: int| 0 <= i < ps.len() implies is_nix_result(#[trigger] v@[i], ps[i]) by {
                assert(ps[i] == nix_package_view(packages@[i]));
            }
            Some(v)
        },
    }
}

//=========================================#
//            MOST RECENT FIRST            #
//=========================================#

/// Whether entry `a` comes before entry `b` when ordering by key, largest
/// first, and by index among equal keys.
pub open spec fn comes_before(keys: Seq<i128>, a: int, b: int) -> bool {
    keys[a] > keys[b] || (keys[a] == keys[b] && a < b)
}

/// Whether `order` lists indices of `keys` in that order.
pub open spec fn ordered_by_key(keys: Seq<i128>, order: Seq<usize>) -> bool {
    &&& forall|i: int| 0 <= i < order.len() ==> (#[trigger] order[i]) < keys.len()
    &&& forall|i: int, j: int|
        0 <= i < j < order.len() ==> comes_before(keys, #[trigger] order[i] as int, #[trigger] order[j] as int)
}

/// The order of the entries by key, largest first, keeping the given
/// order among equal keys (as a stable descending sort does): each index
/// once, in that order.
pub fn recent_first_order(keys: &Vec<i128>) -> (r: Vec<usize>)
    ensures
        r@.len() == keys@.len(),
        ordered_by_key(keys@, r@),
        forall|x: usize| x < keys@.len() ==> r@.contains(x),
        r@.no_duplicates(),
{
    let mut order: Vec<usize> = Vec::new();
    let mut k: usize = 0;
    while k < keys.len()
        invariant
            k <= keys.len(),
            order@.len() == k,
            ordered_by_key(keys@, order@),
            forall|i: int| 0 <= i < order.len() ==> (#[trigger] order@[i]) < k,
            forall|x: usize| x < k ==> order@.contains(x),
        decreases keys.len() - k,
    {
        let key = keys[k];
        let mut p: usize = 0;
        while p < order.len() && keys[order[p]] >= key
            invariant
                p <= order.len(),
                forall|i: int| 0 <= i < order.len() ==> (#[trigger] order@[i]) < k,
                ordered_by_key(keys@, order@),
                k < keys.len(),
                key == keys@[k as int],
                forall|i: int| 0 <= i < p ==> keys@[#[trigger] order@[i] as int] >= key,
                forall|x: usize| x < k ==> order@.contains(x),
            decreases order.len() - p,
        {
            p = p + 1;
        }
        let ghost before = order@;
        order.insert(p, k);
        assert forall|i: int, j: int| 0 <= i < j < order@.len() implies comes_before(
            keys@,
            #[trigger] order@[i] as int,
            #[trigger] order@[j] as int,
        ) by {
            if j < p {
                assert(order@[i] == before[i] && order@[j] == before[j]);
            } else if j == p {
                assert(order@[i] == before[i]);
                assert(keys@[before[i] as int] >= key);
                assert(before[i] < k);
            } else if i < p {
                assert(order@[i] == before[i] && order@[j] == before[j - 1]);
            } else if i == p {
                assert(order@[j] == before[j - 1]);
                if j - 1 > p || j - 1 == p {
                    assert(p < before.len());
                    assert(!(keys@[before[p as int] as int] >= key));
                    if j - 1 > p {
                        assert(comes_before(keys@, before[p as int] as int, before[j - 1] as int));
                    }
                }
            } else {
                assert(order@[i] == before[i - 1] && order@[j] == before[j - 1]);
            }
        }
        assert forall|i: int| 0 <= i < order.len() implies (#[trigger] order@[i]) < k + 1 by {
            if i < p {
                assert(order@[i] == before[i]);
            } else if i > p {
                assert(order@[i] == before[i - 1]);
            }
        }
        assert forall|x: usize| x < k + 1 implies order@.contains(x) by {
            if x < k {
                assert(before.contains(x));
                let i = choose|i: int| 0 <= i < before.len() && before[i] == x;
                if i < p {
                    assert(order@[i] == x);
                } else {
                    assert(order@[i + 1] == x);
                }
            } else {
                assert(order@[p as int] == x);
            }
        }
        k = k + 1;
    }
    assert forall|i: int, j: int| 0 <= i < order@.len() && 0 <= j < order@.len() && i != j implies
        order@[i] != order@[j] by {
        if i < j {
            assert(comes_before(keys@, order@[i] as int, order@[j] as int));
        } else {
            assert(comes_before(keys@, order@[j] as int, order@[i] as int));
        }
    }
    order
}

} // verus!
