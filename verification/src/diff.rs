//! Line diffs between two revisions of a configuration or a DNS plan.
//!
//! The diff walks a longest-common-subsequence table: equal lines are kept as
//! context, and where the lines differ the side whose skip keeps the longer
//! common tail is consumed first (the left side on a tie).
use vstd::prelude::*;

use crate::text::{chars_of, push_char, str_eq, string_of, string_of_chars};

verus! {

/// Kind of one diff line.
#[derive(Clone, Copy, Debug, PartialEq, Eq, Structural)]
pub enum ConfigDiffLineKind {
    Context,
    Added,
    Removed,
}

/// One line of a diff, with its line numbers on the sides it appears on.
#[derive(Clone, Debug)]
pub struct ConfigDiffLine {
    pub kind: ConfigDiffLineKind,
    pub left_line_number: Option<u32>,
    pub right_line_number: Option<u32>,
    pub text: String,
}

/// A diff between two labelled texts.
#[derive(Clone, Debug)]
pub struct ConfigDiffResponse {
    pub left_label: String,
    pub right_label: String,
    pub changed: bool,
    pub lines: Vec<ConfigDiffLine>,
}

/// A DNS plan diff has the same shape as a configuration diff.
pub type DnsDiffResponse = ConfigDiffResponse;

// ---------------------------------------------------------------- lines

/// A line that ended in "\r\n" loses its '\r'.
pub open spec fn strip_cr(s: Seq<char>) -> Seq<char> {
    if s.len() > 0 && s.last() == '\r' {
        s.drop_last()
    } else {
        s
    }
}

/// Finished lines and the line being read, after reading `s`.
pub open spec fn line_state(s: Seq<char>) -> (Seq<Seq<char>>, Seq<char>)
    decreases s.len(),
{
    if s.len() == 0 {
        (Seq::empty(), Seq::empty())
    } else {
        let (acc, cur) = line_state(s.drop_last());
        if s.last() == '\n' {
            (acc.push(strip_cr(cur)), Seq::empty())
        } else {
            (acc, cur.push(s.last()))
        }
    }
}

/// The lines of a text as `str::lines` yields them: split at '\n', a '\r'
/// before the '\n' dropped, and no empty line after a final '\n'.
pub open spec fn lines_spec(s: Seq<char>) -> Seq<Seq<char>> {
    let (acc, cur) = line_state(s);
    if cur.len() > 0 {
        acc.push(cur)
    } else {
        acc
    }
}

pub open spec fn str_views(v: Seq<String>) -> Seq<Seq<char>> {
    v.map_values(|s: String| s@)
}

/// `str::lines`, collected.
pub fn split_lines(s: &str) -> (r: Vec<String>)
    ensures
        str_views(r@) == lines_spec(s@),
{
    let v = chars_of(s);
    let mut acc: Vec<String> = Vec::new();
    let mut cur: Vec<char> = Vec::new();
    let mut i: usize = 0;
    while i < v.len()
        invariant
            i <= v@.len(),
            v@ == s@,
            (str_views(acc@), cur@) == line_state(v@.take(i as int)),
        decreases v@.len() - i,
    {
        assert(v@.take(i + 1).drop_last() =~= v@.take(i as int));
        assert(v@.take(i + 1).last() == v@[i as int]);
        let c = v[i];
        if c == '\n' {
            let end = if cur.len() > 0 && cur[cur.len() - 1] == '\r' {
                cur.len() - 1
            } else {
                cur.len()
            };
            let line = string_of_chars(&cur, 0, end);
            proof {
                assert(line@ =~= strip_cr(cur@));
            }
            let ghost before = acc@;
            acc.push(line);
            assert(str_views(acc@) =~= str_views(before).push(line@));
            cur = Vec::new();
        } else {
            cur.push(c);
        }
        i = i + 1;
    }
    assert(v@.take(v@.len() as int) =~= v@);
    if cur.len() > 0 {
        let line = string_of_chars(&cur, 0, cur.len());
        assert(line@ =~= cur@);
        let ghost before = acc@;
        acc.push(line);
        assert(str_views(acc@) =~= str_views(before).push(line@));
    }
    acc
}

// ---------------------------------------------------------------- the common-subsequence table

/// Length of a longest common subsequence of `a[i..]` and `b[j..]`.
pub open spec fn lcs(a: Seq<Seq<char>>, b: Seq<Seq<char>>, i: int, j: int) -> nat
    decreases a.len() - i, b.len() - j,
{
    if i < 0 || j < 0 || i >= a.len() || j >= b.len() {
        0
    } else if a[i] == b[j] {
        1 + lcs(a, b, i + 1, j + 1)
    } else {
        let x = lcs(a, b, i + 1, j);
        let y = lcs(a, b, i, j + 1);
        if x >= y {
            x
        } else {
            y
        }
    }
}

pub proof fn lemma_lcs_bound(a: Seq<Seq<char>>, b: Seq<Seq<char>>, i: int, j: int)
    requires
        0 <= i <= a.len(),
        0 <= j <= b.len(),
    ensures
        lcs(a, b, i, j) <= a.len() - i,
        lcs(a, b, i, j) <= b.len() - j,
    decreases a.len() - i, b.len() - j,
{
    if i < a.len() && j < b.len() {
        lemma_lcs_bound(a, b, i + 1, j + 1);
        lemma_lcs_bound(a, b, i + 1, j);
        lemma_lcs_bound(a, b, i, j + 1);
    }
}

/// One edit of the walk: a kind and the text of the line.
pub type DiffOp = (ConfigDiffLineKind, Seq<char>);

/// The edits that turn `a[i..]` into `b[j..]`.
pub open spec fn diff_from(a: Seq<Seq<char>>, b: Seq<Seq<char>>, i: int, j: int) -> Seq<DiffOp>
    decreases a.len() - i, b.len() - j,
{
    if i < 0 || j < 0 || i > a.len() || j > b.len() {
        Seq::empty()
    } else if i == a.len() && j == b.len() {
        Seq::empty()
    } else if i == a.len() {
        seq![(ConfigDiffLineKind::Added, b[j])] + diff_from(a, b, i, j + 1)
    } else if j == b.len() {
        seq![(ConfigDiffLineKind::Removed, a[i])] + diff_from(a, b, i + 1, j)
    } else if a[i] == b[j] {
        seq![(ConfigDiffLineKind::Context, a[i])] + diff_from(a, b, i + 1, j + 1)
    } else if lcs(a, b, i + 1, j) >= lcs(a, b, i, j + 1) {
        seq![(ConfigDiffLineKind::Removed, a[i])] + diff_from(a, b, i + 1, j)
    } else {
        seq![(ConfigDiffLineKind::Added, b[j])] + diff_from(a, b, i, j + 1)
    }
}

/// The edits of the whole diff of two texts.
pub open spec fn spec_diff(left: Seq<char>, right: Seq<char>) -> Seq<DiffOp> {
    diff_from(lines_spec(left), lines_spec(right), 0, 0)
}

pub open spec fn uses_left(k: ConfigDiffLineKind) -> bool {
    k == ConfigDiffLineKind::Context || k == ConfigDiffLineKind::Removed
}

pub open spec fn uses_right(k: ConfigDiffLineKind) -> bool {
    k == ConfigDiffLineKind::Context || k == ConfigDiffLineKind::Added
}

/// The lines that a run of edits reads from the left text.
pub open spec fn left_texts(ops: Seq<DiffOp>) -> Seq<Seq<char>>
    decreases ops.len(),
{
    if ops.len() == 0 {
        Seq::empty()
    } else if uses_left(ops[0].0) {
        seq![ops[0].1] + left_texts(ops.drop_first())
    } else {
        left_texts(ops.drop_first())
    }
}

/// The lines that a run of edits writes to the right text.
pub open spec fn right_texts(ops: Seq<DiffOp>) -> Seq<Seq<char>>
    decreases ops.len(),
{
    if ops.len() == 0 {
        Seq::empty()
    } else if uses_right(ops[0].0) {
        seq![ops[0].1] + right_texts(ops.drop_first())
    } else {
        right_texts(ops.drop_first())
    }
}

/// Number of context lines in a run of edits.
pub open spec fn context_count(ops: Seq<DiffOp>) -> nat
    decreases ops.len(),
{
    if ops.len() == 0 {
        0
    } else if ops[0].0 == ConfigDiffLineKind::Context {
        1 + context_count(ops.drop_first())
    } else {
        context_count(ops.drop_first())
    }
}

/// Number of edits in `ops` that read a left line.
pub open spec fn left_count(ops: Seq<DiffOp>) -> nat
    decreases ops.len(),
{
    if ops.len() == 0 {
        0
    } else {
        left_count(ops.drop_last()) + if uses_left(ops.last().0) {
            1nat
        } else {
            0nat
        }
    }
}

/// Number of edits in `ops` that write a right line.
pub open spec fn right_count(ops: Seq<DiffOp>) -> nat
    decreases ops.len(),
{
    if ops.len() == 0 {
        0
    } else {
        right_count(ops.drop_last()) + if uses_right(ops.last().0) {
            1nat
        } else {
            0nat
        }
    }
}

pub open spec fn line_op(l: ConfigDiffLine) -> DiffOp {
    (l.kind, l.text@)
}

pub open spec fn line_ops(v: Seq<ConfigDiffLine>) -> Seq<DiffOp> {
    v.map_values(|l: ConfigDiffLine| line_op(l))
}

/// Line numbers of the `k`-th line of a diff: one past the count of earlier
/// lines on the same side.
pub open spec fn numbered(v: Seq<ConfigDiffLine>, k: int) -> bool {
    let ops = line_ops(v);
    &&& v[k].left_line_number == if uses_left(v[k].kind) {
        Some((left_count(ops.take(k)) + 1) as u32)
    } else {
        None
    }
    &&& v[k].right_line_number == if uses_right(v[k].kind) {
        Some((right_count(ops.take(k)) + 1) as u32)
    } else {
        None
    }
}

pub proof fn lemma_diff_left(a: Seq<Seq<char>>, b: Seq<Seq<char>>, i: int, j: int)
    requires
        0 <= i <= a.len(),
        0 <= j <= b.len(),
    ensures
        left_texts(diff_from(a, b, i, j)) == a.skip(i),
    decreases a.len() - i, b.len() - j,
{
    let d = diff_from(a, b, i, j);
    if i == a.len() && j == b.len() {
        assert(a.skip(i) =~= Seq::<Seq<char>>::empty());
    } else if i == a.len() {
        lemma_diff_left(a, b, i, j + 1);
        assert(d.drop_first() =~= diff_from(a, b, i, j + 1));
    } else if j == b.len() || a[i] == b[j] || lcs(a, b, i + 1, j) >= lcs(a, b, i, j + 1) {
        let nj = if j < b.len() && a[i] == b[j] {
            j + 1
        } else {
            j
        };
        lemma_diff_left(a, b, i + 1, nj);
        assert(d.drop_first() =~= diff_from(a, b, i + 1, nj));
        assert(a.skip(i) =~= seq![a[i]] + a.skip(i + 1));
    } else {
        lemma_diff_left(a, b, i, j + 1);
        assert(d.drop_first() =~= diff_from(a, b, i, j + 1));
    }
}

pub proof fn lemma_diff_right(a: Seq<Seq<char>>, b: Seq<Seq<char>>, i: int, j: int)
    requires
        0 <= i <= a.len(),
        0 <= j <= b.len(),
    ensures
        right_texts(diff_from(a, b, i, j)) == b.skip(j),
    decreases a.len() - i, b.len() - j,
{
    let d = diff_from(a, b, i, j);
    if i == a.len() && j == b.len() {
        assert(b.skip(j) =~= Seq::<Seq<char>>::empty());
    } else if i == a.len() {
        lemma_diff_right(a, b, i, j + 1);
        assert(d.drop_first() =~= diff_from(a, b, i, j + 1));
        assert(b.skip(j) =~= seq![b[j]] + b.skip(j + 1));
    } else if j == b.len() {
        lemma_diff_right(a, b, i + 1, j);
        assert(d.drop_first() =~= diff_from(a, b, i + 1, j));
    } else if a[i] == b[j] {
        lemma_diff_right(a, b, i + 1, j + 1);
        assert(d.drop_first() =~= diff_from(a, b, i + 1, j + 1));
        assert(b.skip(j) =~= seq![b[j]] + b.skip(j + 1));
    } else if lcs(a, b, i + 1, j) >= lcs(a, b, i, j + 1) {
        lemma_diff_right(a, b, i + 1, j);
        assert(d.drop_first() =~= diff_from(a, b, i + 1, j));
    } else {
        lemma_diff_right(a, b, i, j + 1);
        assert(d.drop_first() =~= diff_from(a, b, i, j + 1));
        assert(b.skip(j) =~= seq![b[j]] + b.skip(j + 1));
    }
}

pub proof fn lemma_diff_context(a: Seq<Seq<char>>, b: Seq<Seq<char>>, i: int, j: int)
    requires
        0 <= i <= a.len(),
        0 <= j <= b.len(),
    ensures
        context_count(diff_from(a, b, i, j)) == lcs(a, b, i, j),
    decreases a.len() - i, b.len() - j,
{
    let d = diff_from(a, b, i, j);
    if i == a.len() && j == b.len() {
    } else if i == a.len() {
        lemma_diff_context(a, b, i, j + 1);
        assert(d.drop_first() =~= diff_from(a, b, i, j + 1));
    } else if j == b.len() {
        lemma_diff_context(a, b, i + 1, j);
        assert(d.drop_first() =~= diff_from(a, b, i + 1, j));
    } else if a[i] == b[j] {
        lemma_diff_context(a, b, i + 1, j + 1);
        assert(d.drop_first() =~= diff_from(a, b, i + 1, j + 1));
    } else if lcs(a, b, i + 1, j) >= lcs(a, b, i, j + 1) {
        lemma_diff_context(a, b, i + 1, j);
        assert(d.drop_first() =~= diff_from(a, b, i + 1, j));
    } else {
        lemma_diff_context(a, b, i, j + 1);
        assert(d.drop_first() =~= diff_from(a, b, i, j + 1));
    }
}

pub proof fn lemma_diff_same(a: Seq<Seq<char>>, i: int)
    requires
        0 <= i <= a.len(),
    ensures
        forall|k: int|
            0 <= k < diff_from(a, a, i, i).len() ==> #[trigger] diff_from(a, a, i, i)[k].0
                == ConfigDiffLineKind::Context,
    decreases a.len() - i,
{
    if i < a.len() {
        lemma_diff_same(a, i + 1);
        let d = diff_from(a, a, i, i);
        assert(d.drop_first() =~= diff_from(a, a, i + 1, i + 1));
        assert forall|k: int| 0 <= k < d.len() implies #[trigger] d[k].0 == ConfigDiffLineKind::Context by {
            if k > 0 {
                assert(d[k] == d.drop_first()[k - 1]);
            }
        }
    }
}

/// Reading the context and removed lines of a diff gives back the left text's
/// lines, reading the context and added lines gives back the right text's
/// lines, and the context lines form a longest common subsequence of the two.
pub proof fn lemma_diff_reconstructs(left: Seq<char>, right: Seq<char>)
    ensures
        left_texts(spec_diff(left, right)) == lines_spec(left),
        right_texts(spec_diff(left, right)) == lines_spec(right),
        context_count(spec_diff(left, right)) == lcs(lines_spec(left), lines_spec(right), 0, 0),
{
    let a = lines_spec(left);
    let b = lines_spec(right);
    lemma_diff_left(a, b, 0, 0);
    lemma_diff_right(a, b, 0, 0);
    lemma_diff_context(a, b, 0, 0);
    assert(a.skip(0) =~= a);
    assert(b.skip(0) =~= b);
}

/// A text diffed against itself is all context.
pub proof fn lemma_diff_identical(text: Seq<char>)
    ensures
        forall|k: int|
            0 <= k < spec_diff(text, text).len() ==> #[trigger] spec_diff(text, text)[k].0
                == ConfigDiffLineKind::Context,
{
    lemma_diff_same(lines_spec(text), 0);
}

/// Dropping a line from either side shortens a longest common subsequence
/// by at most one, and never lengthens it.
proof fn lemma_lcs_steps(a: Seq<Seq<char>>, b: Seq<Seq<char>>, i: int, j: int)
    requires
        0 <= i <= a.len(),
        0 <= j <= b.len(),
    ensures
        lcs(a, b, i + 1, j) <= lcs(a, b, i, j),
        lcs(a, b, i, j + 1) <= lcs(a, b, i, j),
        lcs(a, b, i, j) <= 1 + lcs(a, b, i, j + 1),
        lcs(a, b, i, j) <= 1 + lcs(a, b, i + 1, j),
    decreases a.len() - i + b.len() - j,
{
    if i < a.len() && j < b.len() {
        lemma_lcs_steps(a, b, i + 1, j);
        lemma_lcs_steps(a, b, i, j + 1);
    }
}

proof fn lemma_script_within_lcs(a: Seq<Seq<char>>, b: Seq<Seq<char>>, i: int, j: int, ops: Seq<DiffOp>)
    requires
        0 <= i <= a.len(),
        0 <= j <= b.len(),
        left_texts(ops) == a.skip(i),
        right_texts(ops) == b.skip(j),
    ensures
        context_count(ops) <= lcs(a, b, i, j),
    decreases ops.len(),
{
    if ops.len() > 0 {
        let rest = ops.drop_first();
        let x = ops[0].1;
        lemma_lcs_steps(a, b, i, j);
        if uses_left(ops[0].0) {
            assert(left_texts(ops) == seq![x] + left_texts(rest));
            assert((seq![x] + left_texts(rest)).drop_first() =~= left_texts(rest));
            assert(a.skip(i).len() > 0);
            assert(a.skip(i)[0] == x);
            assert(a.skip(i).drop_first() =~= a.skip(i + 1));
        } else {
            assert(left_texts(rest) == a.skip(i));
        }
        if uses_right(ops[0].0) {
            assert(right_texts(ops) == seq![x] + right_texts(rest));
            assert((seq![x] + right_texts(rest)).drop_first() =~= right_texts(rest));
            assert(b.skip(j).len() > 0);
            assert(b.skip(j)[0] == x);
            assert(b.skip(j).drop_first() =~= b.skip(j + 1));
        } else {
            assert(right_texts(rest) == b.skip(j));
        }
        match ops[0].0 {
            ConfigDiffLineKind::Context => {
                lemma_script_within_lcs(a, b, i + 1, j + 1, rest);
                assert(a[i] == b[j]);
            },
            ConfigDiffLineKind::Removed => {
                lemma_script_within_lcs(a, b, i + 1, j, rest);
            },
            ConfigDiffLineKind::Added => {
                lemma_script_within_lcs(a, b, i, j + 1, rest);
            },
        }
    }
}

/// The diff keeps as many lines unchanged as any edit script between the two
/// texts can: every script that reads the left text's lines and writes the
/// right text's lines has at most as many context lines.
pub proof fn lemma_diff_is_minimal(left: Seq<char>, right: Seq<char>, ops: Seq<DiffOp>)
    requires
        left_texts(ops) == lines_spec(left),
        right_texts(ops) == lines_spec(right),
    ensures
        context_count(ops) <= context_count(spec_diff(left, right)),
{
    let a = lines_spec(left);
    let b = lines_spec(right);
    assert(a.skip(0) =~= a);
    assert(b.skip(0) =~= b);
    lemma_script_within_lcs(a, b, 0, 0, ops);
    lemma_diff_reconstructs(left, right);
}

pub proof fn lemma_counts_push(ops: Seq<DiffOp>, op: DiffOp)
    ensures
        left_count(ops.push(op)) == left_count(ops) + if uses_left(op.0) {
            1nat
        } else {
            0nat
        },
        right_count(ops.push(op)) == right_count(ops) + if uses_right(op.0) {
            1nat
        } else {
            0nat
        },
{
    assert(ops.push(op).drop_last() =~= ops);
}

// ---------------------------------------------------------------- executable diff

/// Table of `lcs(a, b, i, j)`: `table[n - i][j]`.
fn lcs_table(a: &Vec<String>, b: &Vec<String>) -> (table: Vec<Vec<usize>>)
    requires
        a@.len() < usize::MAX,
        b@.len() < usize::MAX,
    ensures
        table@.len() == a@.len() + 1,
        forall|k: int|
            0 <= k <= a@.len() ==> (#[trigger] table@[k])@.len() == b@.len() + 1,
        forall|k: int, j: int|
            0 <= k <= a@.len() && 0 <= j <= b@.len() ==> (#[trigger] table@[k]@[j]) == lcs(
                str_views(a@),
                str_views(b@),
                a@.len() - k,
                j,
            ),
{
    let ghost av = str_views(a@);
    let ghost bv = str_views(b@);
    let n = a.len();
    let m = b.len();
    let mut table: Vec<Vec<usize>> = Vec::new();
    let mut last: Vec<usize> = Vec::new();
    let mut j: usize = 0;
    while j <= m
        invariant
            j <= m + 1,
            m == b@.len() < usize::MAX,
            last@.len() == j,
            forall|t: int| 0 <= t < j ==> last@[t] == 0,
        decreases m + 1 - j,
    {
        last.push(0);
        j = j + 1;
    }
    table.push(last);
    let mut i: usize = n;
    while i > 0
        invariant
            i <= n == a@.len(),
            m == b@.len() < usize::MAX,
            av == str_views(a@),
            bv == str_views(b@),
            table@.len() == n - i + 1,
            forall|k: int| 0 <= k < table@.len() ==> (#[trigger] table@[k])@.len() == m + 1,
            forall|k: int, t: int|
                0 <= k < table@.len() && 0 <= t <= m ==> (#[trigger] table@[k]@[t]) == lcs(
                    av,
                    bv,
                    n - k,
                    t,
                ),
        decreases i,
    {
        let ri = i - 1;
        let next = &table[n - i];
        assert(forall|t: int| 0 <= t <= m ==> next@[t] == lcs(av, bv, ri + 1, t));
        let mut row: Vec<usize> = Vec::new();
        let mut t: usize = 0;
        while t <= m
            invariant
                t <= m + 1,
                m < usize::MAX,
                row@.len() == t,
                forall|u: int| 0 <= u < t ==> row@[u] == 0,
            decreases m + 1 - t,
        {
            row.push(0);
            t = t + 1;
        }
        let mut jj: usize = m;
        while jj > 0
            invariant
                jj <= m == b@.len(),
                ri < n == a@.len(),
                av == str_views(a@),
                bv == str_views(b@),
                row@.len() == m + 1,
                next@.len() == m + 1,
                forall|t: int| 0 <= t <= m ==> next@[t] == lcs(av, bv, ri + 1, t),
                forall|t: int| jj <= t <= m ==> row@[t] == lcs(av, bv, ri as int, t),
            decreases jj,
        {
            let cj = jj - 1;
            proof {
                lemma_lcs_bound(av, bv, ri + 1, cj + 1);
            }
            let value = if str_eq(a[ri].as_str(), b[cj].as_str()) {
                next[cj + 1] + 1
            } else {
                let x = next[cj];
                let y = row[cj + 1];
                if x >= y {
                    x
                } else {
                    y
                }
            };
            row[cj] = value;
            jj = cj;
        }
        table.push(row);
        i = ri;
    }
    table
}

fn diff_line(kind: ConfigDiffLineKind, left: Option<u32>, right: Option<u32>, text: &String) -> (l: ConfigDiffLine)
    ensures
        l.kind == kind,
        l.left_line_number == left,
        l.right_line_number == right,
        l.text@ == text@,
{
    ConfigDiffLine { kind, left_line_number: left, right_line_number: right, text: string_of(text.as_str()) }
}

/// The lines of the diff between two texts.
pub fn diff_lines(left: &str, right: &str) -> (out: Vec<ConfigDiffLine>)
    requires
        lines_spec(left@).len() < u32::MAX,
        lines_spec(right@).len() < u32::MAX,
    ensures
        line_ops(out@) == spec_diff(left@, right@),
        forall|k: int| 0 <= k < out@.len() ==> numbered(out@, k),
{
    let a = split_lines(left);
    let b = split_lines(right);
    let ghost av = str_views(a@);
    let ghost bv = str_views(b@);
    let table = lcs_table(&a, &b);
    let n = a.len();
    let m = b.len();
    let mut out: Vec<ConfigDiffLine> = Vec::new();
    let mut i: usize = 0;
    let mut j: usize = 0;
    proof {
        assert(line_ops(out@) + diff_from(av, bv, 0, 0) =~= diff_from(av, bv, 0, 0));
    }
    while i < n || j < m
        invariant
            n == a@.len() < u32::MAX,
            m == b@.len() < u32::MAX,
            av == str_views(a@),
            bv == str_views(b@),
            av == lines_spec(left@),
            bv == lines_spec(right@),
            i <= n,
            j <= m,
            table@.len() == n + 1,
            forall|k: int| 0 <= k <= n ==> (#[trigger] table@[k])@.len() == m + 1,
            forall|k: int, t: int|
                0 <= k <= n && 0 <= t <= m ==> (#[trigger] table@[k]@[t]) == lcs(av, bv, n - k, t),
            line_ops(out@) + diff_from(av, bv, i as int, j as int) == diff_from(av, bv, 0, 0),
            left_count(line_ops(out@)) == i,
            right_count(line_ops(out@)) == j,
            forall|k: int| 0 <= k < out@.len() ==> numbered(out@, k),
        decreases (n - i) + (m - j),
    {
        let ghost before = out@;
        let ghost rest = diff_from(av, bv, i as int, j as int);
        let take_context = i < n && j < m && str_eq(a[i].as_str(), b[j].as_str());
        let take_left = if take_context {
            false
        } else if i < n && j < m {
            table[n - i - 1][j] >= table[n - i][j + 1]
        } else {
            i < n
        };
        let line = if take_context {
            diff_line(ConfigDiffLineKind::Context, Some((i + 1) as u32), Some((j + 1) as u32), &a[i])
        } else if take_left {
            diff_line(ConfigDiffLineKind::Removed, Some((i + 1) as u32), None, &a[i])
        } else {
            diff_line(ConfigDiffLineKind::Added, None, Some((j + 1) as u32), &b[j])
        };
        out.push(line);
        proof {
            assert(line_ops(out@) =~= line_ops(before).push(line_op(line)));
            lemma_counts_push(line_ops(before), line_op(line));
            assert(rest[0] == line_op(line));
            assert forall|k: int| 0 <= k < out@.len() implies numbered(out@, k) by {
                if k < before.len() {
                    assert(numbered(before, k));
                    assert(out@[k] == before[k]);
                    assert(line_ops(out@).take(k) =~= line_ops(before).take(k));
                } else {
                    assert(line_ops(out@).take(k) =~= line_ops(before));
                }
            }
        }
        if take_context {
            i = i + 1;
            j = j + 1;
        } else if take_left {
            i = i + 1;
        } else {
            j = j + 1;
        }
        proof {
            assert(rest.drop_first() =~= diff_from(av, bv, i as int, j as int));
            assert(line_ops(out@) + diff_from(av, bv, i as int, j as int) =~= line_ops(before)
                + rest);
        }
    }
    proof {
        assert(line_ops(out@) =~= line_ops(out@) + diff_from(av, bv, i as int, j as int));
    }
    out
}

pub open spec fn spec_changed(ops: Seq<DiffOp>) -> bool {
    exists|k: int| 0 <= k < ops.len() && ops[k].0 != ConfigDiffLineKind::Context
}

/// The diff between two labelled texts, flagged as changed when any line is
/// not context.
pub fn build_diff_response(left_label: String, left: &str, right_label: String, right: &str) -> (r:
    ConfigDiffResponse)
    requires
        lines_spec(left@).len() < u32::MAX,
        lines_spec(right@).len() < u32::MAX,
    ensures
        r.left_label == left_label,
        r.right_label == right_label,
        line_ops(r.lines@) == spec_diff(left@, right@),
        forall|k: int| 0 <= k < r.lines@.len() ==> numbered(r.lines@, k),
        r.changed == spec_changed(spec_diff(left@, right@)),
{
    let lines = diff_lines(left, right);
    let mut changed = false;
    let mut k: usize = 0;
    while k < lines.len()
        invariant
            k <= lines@.len(),
            changed == exists|t: int| 0 <= t < k && lines@[t].kind != ConfigDiffLineKind::Context,
        decreases lines@.len() - k,
    {
        if lines[k].kind != ConfigDiffLineKind::Context {
            changed = true;
        }
        k = k + 1;
    }
    proof {
        let ops = line_ops(lines@);
        if changed {
            let t = choose|t: int| 0 <= t < lines@.len() && lines@[t].kind != ConfigDiffLineKind::Context;
            assert(ops[t].0 == lines@[t].kind);
        } else {
            assert forall|t: int| 0 <= t < ops.len() implies ops[t].0 == ConfigDiffLineKind::Context by {
                assert(ops[t].0 == lines@[t].kind);
            }
        }
    }
    ConfigDiffResponse { left_label, right_label, changed, lines }
}

} // verus!
