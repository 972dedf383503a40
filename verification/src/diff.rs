//! A line-based LCS diff — pure, used for the pre-commit preview (current rules vs a proposed
//! edit). The `.aion` format retains only the *current* rules plus a chain of version hashes, so
//! historical rule bodies aren't available to diff; the authoring diff is always current→proposed.
//!
//! The result is an edit script: replaying its `Same`+`Del` lines gives the old text's lines,
//! replaying its `Same`+`Add` lines gives the new text's lines, and the number of `Same` lines is
//! the length of a longest common subsequence of the two line sequences.

use vstd::prelude::*;

use crate::text::{chars_of, string_of, views};

verus! {

/// What happened to a line going from old → new.
#[derive(Debug, Clone, Copy, PartialEq, Eq, Structural)]
pub enum DiffTag {
    Same,
    Add,
    Del,
}

/// One line of a diff.
#[derive(Debug, Clone, PartialEq, Eq)]
pub struct DiffLine {
    pub tag: DiffTag,
    pub text: String,
}

// ---------------------------------------------------------------------------------------------
// Lines of a text (the semantics of `str::lines`).
// ---------------------------------------------------------------------------------------------

/// A line without the `\r` of a `\r\n` ending.
pub open spec fn strip_cr(line: Seq<char>) -> Seq<char> {
    if line.len() > 0 && line.last() == '\r' {
        line.drop_last()
    } else {
        line
    }
}

/// The lines of `s`, given that `cur` holds the characters of the line read so far. A line ends
/// at `\n` (a `\r` just before it is dropped); a final line without `\n` counts when non-empty.
pub open spec fn lines_from(s: Seq<char>, cur: Seq<char>) -> Seq<Seq<char>>
    decreases s.len(),
{
    if s.len() == 0 {
        if cur.len() == 0 {
            seq![]
        } else {
            seq![cur]
        }
    } else if s[0] == '\n' {
        seq![strip_cr(cur)] + lines_from(s.drop_first(), seq![])
    } else {
        lines_from(s.drop_first(), cur.push(s[0]))
    }
}

/// The lines of a text.
pub open spec fn lines(s: Seq<char>) -> Seq<Seq<char>> {
    lines_from(s, seq![])
}

/// Split a text into its lines.
pub fn split_lines(s: &str) -> (out: Vec<String>)
    ensures
        views(out@) == lines(s@),
{
    let cs = chars_of(s);
    let mut out: Vec<String> = Vec::new();
    let mut cur: Vec<char> = Vec::new();
    let mut i: usize = 0;
    assert(cs@.skip(0) =~= cs@);
    while i < cs.len()
        invariant
            cs@ == s@,
            i <= cs.len(),
            views(out@) + lines_from(cs@.skip(i as int), cur@) == lines(s@),
        decreases cs.len() - i,
    {
        let c = cs[i];
        assert(cs@.skip(i as int).drop_first() =~= cs@.skip(i + 1));
        assert(cs@.skip(i as int)[0] == c);
        if c == '\n' {
            let n = if cur.len() > 0 && cur[cur.len() - 1] == '\r' {
                cur.len() - 1
            } else {
                cur.len()
            };
            let line = string_of(&cur, n);
            assert(line@ == strip_cr(cur@)) by {
                if cur@.len() > 0 && cur@.last() == '\r' {
                    assert(cur@.take(n as int) =~= cur@.drop_last());
                } else {
                    assert(cur@.take(n as int) =~= cur@);
                }
            }
            let ghost before = views(out@);
            out.push(line);
            assert(views(out@) =~= before.push(line@));
            assert(before.push(line@) + lines_from(cs@.skip(i + 1), seq![]) =~= before + (
            seq![strip_cr(cur@)] + lines_from(cs@.skip(i + 1), seq![])));
            cur = Vec::new();
            assert(cur@ =~= Seq::<char>::empty());
        } else {
            cur.push(c);
        }
        i = i + 1;
    }
    assert(cs@.skip(i as int) =~= Seq::<char>::empty());
    if cur.len() > 0 {
        let line = string_of(&cur, cur.len());
        assert(cur@.take(cur.len() as int) =~= cur@);
        let ghost before = views(out@);
        out.push(line);
        assert(views(out@) =~= before.push(line@));
        assert(before + seq![cur@] =~= before.push(line@));
    } else {
        assert(views(out@) + Seq::<Seq<char>>::empty() =~= views(out@));
    }
    out
}

// ---------------------------------------------------------------------------------------------
// Longest common subsequence and the edit script.
// ---------------------------------------------------------------------------------------------

/// Length of a longest common subsequence of the suffixes `a[i..]` and `b[j..]`.
pub open spec fn lcs_at(a: Seq<Seq<char>>, b: Seq<Seq<char>>, i: int, j: int) -> nat
    decreases a.len() - i, b.len() - j,
{
    if i < 0 || j < 0 || i >= a.len() || j >= b.len() {
        0
    } else if a[i] == b[j] {
        1 + lcs_at(a, b, i + 1, j + 1)
    } else {
        let skip_a = lcs_at(a, b, i + 1, j);
        let skip_b = lcs_at(a, b, i, j + 1);
        if skip_a >= skip_b {
            skip_a
        } else {
            skip_b
        }
    }
}

/// Length of a longest common subsequence of `a` and `b`.
pub open spec fn lcs(a: Seq<Seq<char>>, b: Seq<Seq<char>>) -> nat {
    lcs_at(a, b, 0, 0)
}

/// The diff of `a[i..]` against `b[j..]`: equal heads are kept, otherwise the old head is
/// deleted when that keeps a longest common subsequence, else the new head is added; once one
/// side is exhausted the rest of the other is deleted or added.
pub open spec fn diff_from(a: Seq<Seq<char>>, b: Seq<Seq<char>>, i: int, j: int) -> Seq<
    (DiffTag, Seq<char>),
>
    decreases a.len() - i, b.len() - j,
{
    if i < 0 || j < 0 || i > a.len() || j > b.len() || (i == a.len() && j == b.len()) {
        seq![]
    } else if i == a.len() {
        seq![(DiffTag::Add, b[j])] + diff_from(a, b, i, j + 1)
    } else if j == b.len() {
        seq![(DiffTag::Del, a[i])] + diff_from(a, b, i + 1, j)
    } else if a[i] == b[j] {
        seq![(DiffTag::Same, a[i])] + diff_from(a, b, i + 1, j + 1)
    } else if lcs_at(a, b, i + 1, j) == lcs_at(a, b, i, j) {
        seq![(DiffTag::Del, a[i])] + diff_from(a, b, i + 1, j)
    } else {
        seq![(DiffTag::Add, b[j])] + diff_from(a, b, i, j + 1)
    }
}

/// The diff of the line sequences `a` → `b`.
pub open spec fn diff_spec(a: Seq<Seq<char>>, b: Seq<Seq<char>>) -> Seq<(DiffTag, Seq<char>)> {
    diff_from(a, b, 0, 0)
}

/// The lines a diff keeps from the old side (`Same` and `Del`), in order.
pub open spec fn old_side(d: Seq<(DiffTag, Seq<char>)>) -> Seq<Seq<char>>
    decreases d.len(),
{
    if d.len() == 0 {
        seq![]
    } else if d[0].0 == DiffTag::Add {
        old_side(d.drop_first())
    } else {
        seq![d[0].1] + old_side(d.drop_first())
    }
}

/// The lines a diff produces on the new side (`Same` and `Add`), in order.
pub open spec fn new_side(d: Seq<(DiffTag, Seq<char>)>) -> Seq<Seq<char>>
    decreases d.len(),
{
    if d.len() == 0 {
        seq![]
    } else if d[0].0 == DiffTag::Del {
        new_side(d.drop_first())
    } else {
        seq![d[0].1] + new_side(d.drop_first())
    }
}

/// The number of `Same` lines of a diff.
pub open spec fn same_count(d: Seq<(DiffTag, Seq<char>)>) -> nat
    decreases d.len(),
{
    if d.len() == 0 {
        0
    } else if d[0].0 == DiffTag::Same {
        1 + same_count(d.drop_first())
    } else {
        same_count(d.drop_first())
    }
}

/// The tags and texts of a diff.
pub open spec fn diff_view(v: Seq<DiffLine>) -> Seq<(DiffTag, Seq<char>)> {
    Seq::new(v.len(), |k: int| (v[k].tag, v[k].text@))
}

/// A longest common subsequence of suffixes is no longer than either suffix.
pub proof fn lemma_lcs_bounded(a: Seq<Seq<char>>, b: Seq<Seq<char>>, i: int, j: int)
    requires
        0 <= i <= a.len(),
        0 <= j <= b.len(),
    ensures
        lcs_at(a, b, i, j) <= a.len() - i,
        lcs_at(a, b, i, j) <= b.len() - j,
    decreases a.len() - i, b.len() - j,
{
    if i < a.len() && j < b.len() {
        lemma_lcs_bounded(a, b, i + 1, j + 1);
        lemma_lcs_bounded(a, b, i + 1, j);
        lemma_lcs_bounded(a, b, i, j + 1);
    }
}

proof fn lemma_cons_drop<T>(x: T, rest: Seq<T>)
    ensures
        (seq![x] + rest).drop_first() == rest,
        (seq![x] + rest)[0] == x,
        (seq![x] + rest).len() == rest.len() + 1,
{
    assert((seq![x] + rest).drop_first() =~= rest);
}

/// Replaying the `Same` and `Del` lines of the diff of `a[i..]` against `b[j..]` gives `a[i..]`.
pub proof fn lemma_diff_from_old_side(a: Seq<Seq<char>>, b: Seq<Seq<char>>, i: int, j: int)
    requires
        0 <= i <= a.len(),
        0 <= j <= b.len(),
    ensures
        old_side(diff_from(a, b, i, j)) == a.subrange(i, a.len() as int),
    decreases a.len() - i, b.len() - j,
{
    if i == a.len() && j == b.len() {
        assert(a.subrange(i, a.len() as int) =~= Seq::<Seq<char>>::empty());
    } else if i == a.len() {
        lemma_diff_from_old_side(a, b, i, j + 1);
        lemma_cons_drop((DiffTag::Add, b[j]), diff_from(a, b, i, j + 1));
    } else {
        if j == b.len() || a[i] != b[j] && lcs_at(a, b, i + 1, j) == lcs_at(a, b, i, j) {
            lemma_diff_from_old_side(a, b, i + 1, j);
            lemma_cons_drop((DiffTag::Del, a[i]), diff_from(a, b, i + 1, j));
            assert(a.subrange(i, a.len() as int) =~= seq![a[i]] + a.subrange(i + 1, a.len() as int));
        } else if a[i] == b[j] {
            lemma_diff_from_old_side(a, b, i + 1, j + 1);
            lemma_cons_drop((DiffTag::Same, a[i]), diff_from(a, b, i + 1, j + 1));
            assert(a.subrange(i, a.len() as int) =~= seq![a[i]] + a.subrange(i + 1, a.len() as int));
        } else {
            lemma_diff_from_old_side(a, b, i, j + 1);
            lemma_cons_drop((DiffTag::Add, b[j]), diff_from(a, b, i, j + 1));
        }
    }
}

/// Replaying the `Same` and `Add` lines of the diff of `a[i..]` against `b[j..]` gives `b[j..]`.
pub proof fn lemma_diff_from_new_side(a: Seq<Seq<char>>, b: Seq<Seq<char>>, i: int, j: int)
    requires
        0 <= i <= a.len(),
        0 <= j <= b.len(),
    ensures
        new_side(diff_from(a, b, i, j)) == b.subrange(j, b.len() as int),
    decreases a.len() - i, b.len() - j,
{
    if i == a.len() && j == b.len() {
        assert(b.subrange(j, b.len() as int) =~= Seq::<Seq<char>>::empty());
    } else if i == a.len() {
        lemma_diff_from_new_side(a, b, i, j + 1);
        lemma_cons_drop((DiffTag::Add, b[j]), diff_from(a, b, i, j + 1));
        assert(b.subrange(j, b.len() as int) =~= seq![b[j]] + b.subrange(j + 1, b.len() as int));
    } else if j == b.len() {
        lemma_diff_from_new_side(a, b, i + 1, j);
        lemma_cons_drop((DiffTag::Del, a[i]), diff_from(a, b, i + 1, j));
    } else if a[i] == b[j] {
        lemma_diff_from_new_side(a, b, i + 1, j + 1);
        lemma_cons_drop((DiffTag::Same, a[i]), diff_from(a, b, i + 1, j + 1));
        assert(b.subrange(j, b.len() as int) =~= seq![b[j]] + b.subrange(j + 1, b.len() as int));
    } else if lcs_at(a, b, i + 1, j) == lcs_at(a, b, i, j) {
        lemma_diff_from_new_side(a, b, i + 1, j);
        lemma_cons_drop((DiffTag::Del, a[i]), diff_from(a, b, i + 1, j));
    } else {
        lemma_diff_from_new_side(a, b, i, j + 1);
        lemma_cons_drop((DiffTag::Add, b[j]), diff_from(a, b, i, j + 1));
        assert(b.subrange(j, b.len() as int) =~= seq![b[j]] + b.subrange(j + 1, b.len() as int));
    }
}

/// The diff of `a[i..]` against `b[j..]` keeps exactly a longest common subsequence.
pub proof fn lemma_diff_from_same_count(a: Seq<Seq<char>>, b: Seq<Seq<char>>, i: int, j: int)
    requires
        0 <= i <= a.len(),
        0 <= j <= b.len(),
    ensures
        same_count(diff_from(a, b, i, j)) == lcs_at(a, b, i, j),
    decreases a.len() - i, b.len() - j,
{
    if i == a.len() && j == b.len() {
    } else if i == a.len() {
        lemma_diff_from_same_count(a, b, i, j + 1);
        lemma_cons_drop((DiffTag::Add, b[j]), diff_from(a, b, i, j + 1));
    } else if j == b.len() {
        lemma_diff_from_same_count(a, b, i + 1, j);
        lemma_cons_drop((DiffTag::Del, a[i]), diff_from(a, b, i + 1, j));
    } else if a[i] == b[j] {
        lemma_diff_from_same_count(a, b, i + 1, j + 1);
        lemma_cons_drop((DiffTag::Same, a[i]), diff_from(a, b, i + 1, j + 1));
    } else if lcs_at(a, b, i + 1, j) == lcs_at(a, b, i, j) {
        lemma_diff_from_same_count(a, b, i + 1, j);
        lemma_cons_drop((DiffTag::Del, a[i]), diff_from(a, b, i + 1, j));
    } else {
        lemma_diff_from_same_count(a, b, i, j + 1);
        lemma_cons_drop((DiffTag::Add, b[j]), diff_from(a, b, i, j + 1));
    }
}

/// Diffing a text against itself keeps every line: each entry of the diff of `a[i..]` against
/// `a[i..]` is `Same`.
pub proof fn lemma_diff_from_identical(a: Seq<Seq<char>>, i: int)
    requires
        0 <= i <= a.len(),
    ensures
        diff_from(a, a, i, i).len() == a.len() - i,
        forall|k: int|
            0 <= k < a.len() - i ==> #[trigger] diff_from(a, a, i, i)[k] == (DiffTag::Same, a[i + k]),
    decreases a.len() - i,
{
    if i < a.len() {
        lemma_diff_from_identical(a, i + 1);
        let rest = diff_from(a, a, i + 1, i + 1);
        assert forall|k: int| 0 <= k < a.len() - i implies #[trigger] diff_from(a, a, i, i)[k] == (
            DiffTag::Same,
            a[i + k],
        ) by {
            if k > 0 {
                assert((seq![(DiffTag::Same, a[i])] + rest)[k] == rest[k - 1]);
            }
        }
    }
}

/// The diff of a text against itself marks every line `Same`.
pub proof fn lemma_diff_identical_is_all_same(a: Seq<Seq<char>>)
    ensures
        diff_spec(a, a).len() == a.len(),
        forall|k: int| 0 <= k < a.len() ==> #[trigger] diff_spec(a, a)[k] == (DiffTag::Same, a[k]),
{
    lemma_diff_from_identical(a, 0);
}

/// The diff of two line sequences is an edit script between them that keeps a longest common
/// subsequence: its `Same`+`Del` lines are `a`, its `Same`+`Add` lines are `b`, and it has
/// `lcs(a, b)` `Same` lines.
pub proof fn lemma_diff_is_optimal_edit_script(a: Seq<Seq<char>>, b: Seq<Seq<char>>)
    ensures
        old_side(diff_spec(a, b)) == a,
        new_side(diff_spec(a, b)) == b,
        same_count(diff_spec(a, b)) == lcs(a, b),
{
    lemma_diff_from_old_side(a, b, 0, 0);
    lemma_diff_from_new_side(a, b, 0, 0);
    lemma_diff_from_same_count(a, b, 0, 0);
    assert(a.subrange(0, a.len() as int) =~= a);
    assert(b.subrange(0, b.len() as int) =~= b);
}

/// Dropping the head of either suffix lowers the LCS length by at most one, and never raises it.
proof fn lemma_lcs_steps(a: Seq<Seq<char>>, b: Seq<Seq<char>>, i: int, j: int)
    requires
        0 <= i <= a.len(),
        0 <= j <= b.len(),
    ensures
        lcs_at(a, b, i + 1, j) <= lcs_at(a, b, i, j) <= lcs_at(a, b, i + 1, j) + 1,
        lcs_at(a, b, i, j + 1) <= lcs_at(a, b, i, j) <= lcs_at(a, b, i, j + 1) + 1,
    decreases a.len() - i + b.len() - j,
{
    if i < a.len() && j < b.len() {
        lemma_lcs_steps(a, b, i + 1, j);
        lemma_lcs_steps(a, b, i, j + 1);
    }
}

/// An edit script from `a[i..]` to `b[j..]` keeps at most `lcs_at(a, b, i, j)` lines.
proof fn lemma_script_bound(d: Seq<(DiffTag, Seq<char>)>, a: Seq<Seq<char>>, b: Seq<Seq<char>>, i: int, j: int)
    requires
        0 <= i <= a.len(),
        0 <= j <= b.len(),
        old_side(d) == a.skip(i),
        new_side(d) == b.skip(j),
    ensures
        same_count(d) <= lcs_at(a, b, i, j),
    decreases d.len(),
{
    if d.len() > 0 {
        let rest = d.drop_first();
        let x = d[0].1;
        lemma_lcs_steps(a, b, i, j);
        if d[0].0 == DiffTag::Add {
            assert(b.skip(j)[0] == x);
            assert(b.skip(j).drop_first() =~= b.skip(j + 1));
            assert((seq![x] + new_side(rest)).drop_first() =~= new_side(rest));
            lemma_script_bound(rest, a, b, i, j + 1);
        } else if d[0].0 == DiffTag::Del {
            assert(a.skip(i)[0] == x);
            assert(a.skip(i).drop_first() =~= a.skip(i + 1));
            assert((seq![x] + old_side(rest)).drop_first() =~= old_side(rest));
            lemma_script_bound(rest, a, b, i + 1, j);
        } else {
            assert(a.skip(i)[0] == x);
            assert(b.skip(j)[0] == x);
            assert(a.skip(i).drop_first() =~= a.skip(i + 1));
            assert(b.skip(j).drop_first() =~= b.skip(j + 1));
            assert((seq![x] + old_side(rest)).drop_first() =~= old_side(rest));
            assert((seq![x] + new_side(rest)).drop_first() =~= new_side(rest));
            lemma_script_bound(rest, a, b, i + 1, j + 1);
        }
    }
}

/// No edit script between two line sequences keeps more lines than the diff does: any sequence
/// of `Same`/`Add`/`Del` lines whose `Same`+`Del` lines are `a` and whose `Same`+`Add` lines are
/// `b` has at most `lcs(a, b)` `Same` lines, which is how many `diff_spec(a, b)` has.
pub proof fn lemma_diff_keeps_the_most_lines(d: Seq<(DiffTag, Seq<char>)>, a: Seq<Seq<char>>, b: Seq<Seq<char>>)
    requires
        old_side(d) == a,
        new_side(d) == b,
    ensures
        same_count(d) <= lcs(a, b),
        lcs(a, b) == same_count(diff_spec(a, b)),
{
    assert(a.skip(0) =~= a);
    assert(b.skip(0) =~= b);
    lemma_script_bound(d, a, b, 0, 0);
    lemma_diff_is_optimal_edit_script(a, b);
}

/// `dp` holds the LCS length of every pair of suffixes of `a` and `b`.
pub open spec fn is_lcs_table(dp: Seq<Vec<usize>>, a: Seq<Seq<char>>, b: Seq<Seq<char>>) -> bool {
    &&& dp.len() == a.len() + 1
    &&& forall|i: int| 0 <= i <= a.len() ==> (#[trigger] dp[i]).len() == b.len() + 1
    &&& forall|i: int, j: int|
        0 <= i <= a.len() && 0 <= j <= b.len() ==> #[trigger] dp[i]@[j] == lcs_at(a, b, i, j)
}

/// `dp[i][j]` = length of the LCS of `a[i..]` and `b[j..]`.
fn lcs_table(a: &Vec<String>, b: &Vec<String>) -> (dp: Vec<Vec<usize>>)
    requires
        a.len() < usize::MAX,
        b.len() < usize::MAX,
    ensures
        is_lcs_table(dp@, views(a@), views(b@)),
{
    let ghost av = views(a@);
    let ghost bv = views(b@);
    let n = a.len();
    let m = b.len();
    let mut dp: Vec<Vec<usize>> = Vec::new();
    let mut k: usize = 0;
    while k <= n
        invariant
            k <= n + 1,
            n == a.len(),
            m == b.len(),
            n < usize::MAX,
            m < usize::MAX,
            dp.len() == k,
            forall|r: int| 0 <= r < k ==> (#[trigger] dp@[r])@ == Seq::new((m + 1) as nat, |c: int| 0usize),
        decreases n + 1 - k,
    {
        dp.push(vec![0usize; m + 1]);
        k = k + 1;
    }
    // Row n (and column m of every row) is zero: an empty suffix has no common subsequence.
    let mut i: usize = n;
    while i > 0
        invariant
            i <= n,
            n == a.len(),
            m == b.len(),
            n < usize::MAX,
            m < usize::MAX,
            av == views(a@),
            bv == views(b@),
            dp.len() == n + 1,
            forall|r: int| 0 <= r <= n ==> (#[trigger] dp@[r]).len() == m + 1,
            forall|r: int| 0 <= r < i ==> (#[trigger] dp@[r])@ == Seq::new((m + 1) as nat, |c: int| 0usize),
            forall|r: int, c: int|
                i <= r <= n && 0 <= c <= m ==> #[trigger] dp@[r]@[c] == lcs_at(av, bv, r, c),
        decreases i,
    {
        i = i - 1;
        let mut row: Vec<usize> = vec![0usize; m + 1];
        assert(row@[m as int] == lcs_at(av, bv, i as int, m as int));
        let mut j: usize = m;
        while j > 0
            invariant
                i < n,
                j <= m,
                n == a.len(),
                m == b.len(),
                n < usize::MAX,
                av == views(a@),
                bv == views(b@),
                dp.len() == n + 1,
                row.len() == m + 1,
                forall|r: int| 0 <= r <= n ==> (#[trigger] dp@[r]).len() == m + 1,
                forall|r: int, c: int|
                    i + 1 <= r <= n && 0 <= c <= m ==> #[trigger] dp@[r]@[c] == lcs_at(av, bv, r, c),
                forall|c: int| j <= c <= m ==> #[trigger] row@[c] == lcs_at(av, bv, i as int, c),
            decreases j,
        {
            j = j - 1;
            let v = if a[i] == b[j] {
                proof {
                    lemma_lcs_bounded(av, bv, i + 1, j + 1);
                }
                assert(dp@[i + 1]@[j + 1] == lcs_at(av, bv, i + 1, j + 1));
                dp[i + 1][j + 1] + 1
            } else {
                let down = dp[i + 1][j];
                let right = row[j + 1];
                if down >= right {
                    down
                } else {
                    right
                }
            };
            assert(av[i as int] == a@[i as int]@ && bv[j as int] == b@[j as int]@);
            row.set(j, v);
        }
        dp.set(i, row);
    }
    dp
}

/// One diff line with the given tag and text.
fn line(tag: DiffTag, text: &String) -> (l: DiffLine)
    ensures
        l.tag == tag,
        l.text@ == text@,
{
    DiffLine { tag, text: text.clone() }
}

proof fn lemma_push_then_rest(
    done: Seq<(DiffTag, Seq<char>)>,
    x: (DiffTag, Seq<char>),
    rest: Seq<(DiffTag, Seq<char>)>,
)
    ensures
        done.push(x) + rest == done + (seq![x] + rest),
{
    assert(done.push(x) + rest =~= done + (seq![x] + rest));
}

/// Walk the LCS table from the top-left corner, emitting the edit script.
fn backtrack(a: &Vec<String>, b: &Vec<String>, dp: &Vec<Vec<usize>>) -> (out: Vec<DiffLine>)
    requires
        is_lcs_table(dp@, views(a@), views(b@)),
    ensures
        diff_view(out@) == diff_spec(views(a@), views(b@)),
{
    let ghost av = views(a@);
    let ghost bv = views(b@);
    let mut out: Vec<DiffLine> = Vec::new();
    let n = a.len();
    let m = b.len();
    let mut i: usize = 0;
    let mut j: usize = 0;
    while i < n && j < m
        invariant
            n == a.len(),
            m == b.len(),
            i <= n,
            j <= m,
            av == views(a@),
            bv == views(b@),
            is_lcs_table(dp@, av, bv),
            diff_view(out@) + diff_from(av, bv, i as int, j as int) == diff_spec(av, bv),
        decreases n - i + m - j,
    {
        let ghost before = diff_view(out@);
        assert(av[i as int] == a@[i as int]@ && bv[j as int] == b@[j as int]@);
        if a[i] == b[j] {
            out.push(line(DiffTag::Same, &a[i]));
            proof {
                lemma_push_then_rest(before, (DiffTag::Same, av[i as int]), diff_from(av, bv, i + 1, j + 1));
            }
            i = i + 1;
            j = j + 1;
        } else if dp[i + 1][j] == dp[i][j] {
            assert(dp@[i + 1]@[j as int] == lcs_at(av, bv, i + 1, j as int));
            assert(dp@[i as int]@[j as int] == lcs_at(av, bv, i as int, j as int));
            out.push(line(DiffTag::Del, &a[i]));
            proof {
                lemma_push_then_rest(before, (DiffTag::Del, av[i as int]), diff_from(av, bv, i + 1, j as int));
            }
            i = i + 1;
        } else {
            assert(dp@[i + 1]@[j as int] == lcs_at(av, bv, i + 1, j as int));
            assert(dp@[i as int]@[j as int] == lcs_at(av, bv, i as int, j as int));
            out.push(line(DiffTag::Add, &b[j]));
            proof {
                lemma_push_then_rest(before, (DiffTag::Add, bv[j as int]), diff_from(av, bv, i as int, j + 1));
            }
            j = j + 1;
        }
        assert(diff_view(out@) =~= before.push(diff_view(out@).last()));
    }
    while i < n
        invariant
            n == a.len(),
            m == b.len(),
            i <= n,
            j <= m,
            i == n || j == m,
            av == views(a@),
            bv == views(b@),
            diff_view(out@) + diff_from(av, bv, i as int, j as int) == diff_spec(av, bv),
        decreases n - i,
    {
        let ghost before = diff_view(out@);
        out.push(line(DiffTag::Del, &a[i]));
        proof {
            lemma_push_then_rest(before, (DiffTag::Del, av[i as int]), diff_from(av, bv, i + 1, j as int));
        }
        assert(diff_view(out@) =~= before.push((DiffTag::Del, av[i as int])));
        i = i + 1;
    }
    while j < m
        invariant
            n == a.len(),
            m == b.len(),
            i == n,
            j <= m,
            av == views(a@),
            bv == views(b@),
            diff_view(out@) + diff_from(av, bv, i as int, j as int) == diff_spec(av, bv),
        decreases m - j,
    {
        let ghost before = diff_view(out@);
        out.push(line(DiffTag::Add, &b[j]));
        proof {
            lemma_push_then_rest(before, (DiffTag::Add, bv[j as int]), diff_from(av, bv, i as int, j + 1));
        }
        assert(diff_view(out@) =~= before.push((DiffTag::Add, bv[j as int])));
        j = j + 1;
    }
    assert(diff_view(out@) + diff_from(av, bv, i as int, j as int) =~= diff_view(out@));
    out
}

proof fn lemma_lines_fewer_than_chars(s: Seq<char>, cur: Seq<char>)
    ensures
        lines_from(s, cur).len() <= s.len() + (if cur.len() == 0 { 0int } else { 1int }),
    decreases s.len(),
{
    if s.len() > 0 {
        if s[0] == '\n' {
            lemma_lines_fewer_than_chars(s.drop_first(), seq![]);
        } else {
            lemma_lines_fewer_than_chars(s.drop_first(), cur.push(s[0]));
        }
    }
}

/// Line-based LCS diff of `old` → `new`, preserving order.
///
/// The result replays to both texts (its `Same`+`Del` lines are the lines of `old`, its
/// `Same`+`Add` lines the lines of `new`) and keeps a longest common subsequence of them.
pub fn diff_lines(old: &str, new: &str) -> (out: Vec<DiffLine>)
    requires
        old@.len() < usize::MAX,
        new@.len() < usize::MAX,
    ensures
        diff_view(out@) == diff_spec(lines(old@), lines(new@)),
        old_side(diff_view(out@)) == lines(old@),
        new_side(diff_view(out@)) == lines(new@),
        same_count(diff_view(out@)) == lcs(lines(old@), lines(new@)),
{
    let a = split_lines(old);
    let b = split_lines(new);
    proof {
        lemma_lines_fewer_than_chars(old@, seq![]);
        lemma_lines_fewer_than_chars(new@, seq![]);
        lemma_diff_is_optimal_edit_script(lines(old@), lines(new@));
    }
    let dp = lcs_table(&a, &b);
    backtrack(&a, &b, &dp)
}

} // verus!
