//! Workflows: a header naming the workflow and a body of steps, one per
//! line, each a tool, a command and arguments, run in order with the output
//! of one step available to the next as `${prev}`.

use vstd::prelude::*;
use crate::config::DEFAULT_WORKFLOW_TIMEOUT_SECS;
use crate::doc::{DocFile, check_identity, doc_identity};
use crate::error::{ToolshedError, error_message};
use crate::env::{interpolate, interpolated};
use crate::frontmatter::{frontmatter, parse};
use crate::output::{truncate, truncated};
use crate::registry::Registry;
use crate::namemap::{NameMap, string_view};
use crate::text::{concat, parse_u64, parse_u64_vec, push_str,
    decimal, ends_with, ends_with_vec, from_chars, lines, replace, replace_vec, split_lines,
    subvec, to_chars, trim, trim_vec, u64_decimal, views, append_chars,
};

verus! {

/// The tokens, the token being read, and whether a double quote is open,
/// after reading `s[..i]`.
pub open spec fn split_fold(s: Seq<char>, i: nat) -> (Seq<Seq<char>>, Seq<char>, bool)
    decreases i,
{
    if i == 0 || i > s.len() {
        (seq![], seq![], false)
    } else {
        let (toks, cur, q) = split_fold(s, (i - 1) as nat);
        let c = s[i - 1];
        if c == '"' {
            (toks, cur, !q)
        } else if c == ' ' && !q {
            if cur.len() > 0 {
                (toks.push(cur), seq![], q)
            } else {
                (toks, cur, q)
            }
        } else {
            (toks, cur.push(c), q)
        }
    }
}

/// The tokens of a step line: runs separated by spaces outside double
/// quotes, the quotes themselves dropped, empty tokens dropped.
pub open spec fn tokens(s: Seq<char>) -> Seq<Seq<char>> {
    let (toks, cur, _q) = split_fold(s, s.len());
    if cur.len() > 0 {
        toks.push(cur)
    } else {
        toks
    }
}

/// The characters of `s[..i]` that end up in tokens, and whether a double
/// quote is open: every character but the quotes and the spaces outside
/// them.
pub open spec fn kept_fold(s: Seq<char>, i: nat) -> (Seq<char>, bool)
    decreases i,
{
    if i == 0 || i > s.len() {
        (seq![], false)
    } else {
        let (k, q) = kept_fold(s, (i - 1) as nat);
        let c = s[i - 1];
        if c == '"' {
            (k, !q)
        } else if c == ' ' && !q {
            (k, q)
        } else {
            (k.push(c), q)
        }
    }
}

/// How many double quotes stand in `s` before position `j`.
pub open spec fn quotes_before(s: Seq<char>, j: int) -> nat {
    s.take(j).filter(|c: char| c == '"').len()
}

/// Whether the character at position `j` of `s` ends up in a token: it is
/// not a double quote, and not a space outside quotes (a space before which
/// an even number of double quotes stand).
pub open spec fn kept_at(s: Seq<char>, j: int) -> bool {
    s[j] != '"' && !(s[j] == ' ' && quotes_before(s, j) % 2 == 0)
}

/// The characters of `s[..i]` that end up in tokens, in order.
pub open spec fn kept_prefix(s: Seq<char>, i: nat) -> Seq<char> {
    Seq::new(i, |j: int| j).filter(|j: int| kept_at(s, j)).map_values(|j: int| s[j])
}

/// The line with every double quote, and every space outside quotes,
/// removed.
pub open spec fn kept_text(s: Seq<char>) -> Seq<char> {
    kept_prefix(s, s.len())
}

proof fn lemma_kept_fold_direct(s: Seq<char>, i: nat)
    requires
        i <= s.len(),
    ensures
        kept_fold(s, i).0 == kept_prefix(s, i),
        kept_fold(s, i).1 == (quotes_before(s, i as int) % 2 == 1),
    decreases i,
{
    reveal(Seq::filter);
    if i == 0 {
        assert(s.take(0) =~= Seq::<char>::empty());
        assert(Seq::new(0, |j: int| j) =~= Seq::<int>::empty());
    } else {
        let k = (i - 1) as nat;
        lemma_kept_fold_direct(s, k);
        let ids = Seq::new(i, |j: int| j);
        let pred = |j: int| kept_at(s, j);
        assert(ids.drop_last() =~= Seq::new(k, |j: int| j));
        assert(ids.last() == k);
        let sub = Seq::new(k, |j: int| j).filter(pred);
        assert(ids.filter(pred) == if pred(k as int) { sub.push(k as int) } else { sub });
        assert(sub.push(k as int).map_values(|j: int| s[j]) =~= sub.map_values(|j: int| s[j]).push(s[k as int]));
        let qs = |c: char| c == '"';
        assert(s.take(i as int).drop_last() =~= s.take(k as int));
        assert(s.take(i as int).last() == s[k as int]);
        assert(s.take(i as int).filter(qs) == if qs(s[k as int]) {
            s.take(k as int).filter(qs).push(s[k as int])
        } else {
            s.take(k as int).filter(qs)
        });
    }
}

/// A token that can stand in a step: not empty, and without a double
/// quote.
pub open spec fn good_token(t: Seq<char>) -> bool {
    t.len() > 0 && forall|j: int| 0 <= j < t.len() ==> t[j] != '"'
}

proof fn lemma_split_fold_kept(s: Seq<char>, i: nat)
    requires
        i <= s.len(),
    ensures
        ({
            let (toks, cur, q) = split_fold(s, i);
            &&& concat(toks) + cur == kept_fold(s, i).0
            &&& q == kept_fold(s, i).1
            &&& forall|j: int| 0 <= j < toks.len() ==> good_token(#[trigger] toks[j])
            &&& forall|j: int| 0 <= j < cur.len() ==> cur[j] != '"'
        }),
    decreases i,
{
    if i > 0 {
        lemma_split_fold_kept(s, (i - 1) as nat);
        let (toks, cur, q) = split_fold(s, (i - 1) as nat);
        let c = s[i - 1];
        if c == '"' {
        } else if c == ' ' && !q {
            if cur.len() > 0 {
                let t2 = toks.push(cur);
                assert(t2.drop_last() =~= toks);
                assert(concat(t2) == concat(toks) + cur);
                assert(concat(t2) + seq![] =~= concat(t2));
                assert forall|j: int| 0 <= j < t2.len() implies good_token(#[trigger] t2[j]) by {
                    if j < toks.len() {
                        assert(t2[j] == toks[j]);
                    }
                }
            }
        } else {
            assert(concat(toks) + cur.push(c) =~= (concat(toks) + cur).push(c));
        }
    }
}

/// Every token of a line is non-empty and holds no double quote, and the
/// tokens laid end to end (`concat`) are the line with every double quote
/// and every space outside quotes removed (`kept_text`).
pub proof fn lemma_token_law(s: Seq<char>)
    ensures
        forall|j: int| 0 <= j < tokens(s).len() ==> good_token(#[trigger] tokens(s)[j]),
        concat(tokens(s)) == kept_text(s),
{
    lemma_split_fold_kept(s, s.len());
    lemma_kept_fold_direct(s, s.len());
    let (toks, cur, q) = split_fold(s, s.len());
    if cur.len() > 0 {
        let t2 = toks.push(cur);
        assert(t2.drop_last() =~= toks);
        assert forall|j: int| 0 <= j < t2.len() implies good_token(#[trigger] t2[j]) by {
            if j < toks.len() {
                assert(t2[j] == toks[j]);
            }
        }
    } else {
        assert(cur =~= Seq::<char>::empty());
        assert(concat(toks) + cur =~= concat(toks));
    }
}

proof fn lemma_split_fold_unquoted(s: Seq<char>, i: nat)
    requires
        i <= s.len(),
        forall|j: int| 0 <= j < s.len() ==> s[j] != '"',
    ensures
        ({
            let (toks, cur, q) = split_fold(s, i);
            (toks, cur) == crate::text::pieces_fold(s, ' ', i) && !q
        }),
    decreases i,
{
    if i > 0 {
        lemma_split_fold_unquoted(s, (i - 1) as nat);
    }
}

/// A line without double quotes splits into its non-empty pieces between
/// spaces: `line.split(' ')` with the empty pieces dropped. Only the space
/// separates; a tab stays inside its token.
pub proof fn lemma_unquoted_tokens(s: Seq<char>)
    requires
        forall|j: int| 0 <= j < s.len() ==> s[j] != '"',
    ensures
        tokens(s) == crate::text::nonempty_pieces(s, ' '),
{
    lemma_split_fold_unquoted(s, s.len());
}

fn split_vec(v: &[char]) -> (r: Vec<Vec<char>>)
    ensures
        views(r@) == tokens(v@),
{
    broadcast use crate::text::lemma_views_push;

    let mut toks: Vec<Vec<char>> = Vec::new();
    let mut cur: Vec<char> = Vec::new();
    let mut q = false;
    let n = v.len();
    assert(views(toks@) =~= seq![]);
    for i in 0..n
        invariant
            n == v@.len(),
            (views(toks@), cur@, q) == split_fold(v@, i as nat),
    {
        let c = v[i];
        if c == '"' {
            q = !q;
        } else if c == ' ' && !q {
            if cur.len() > 0 {
                toks.push(cur);
                cur = Vec::new();
            }
        } else {
            cur.push(c);
        }
    }
    if cur.len() > 0 {
        toks.push(cur);
    }
    toks
}

/// Splits a line into tokens, respecting double quotes.
pub fn shell_split(line: &str) -> (r: Vec<String>)
    ensures
        r@.map_values(|t: String| t@) == tokens(line@),
{
    let toks = split_vec(&to_chars(line));
    let r = strings_of(&toks, 0);
    assert(views(toks@).skip(0) == views(toks@));
    r
}

/// One step of a workflow.
#[derive(Debug, Clone, PartialEq, Eq)]
pub struct Step {
    pub tool: String,
    pub command: String,
    pub args: Vec<String>,
    pub continue_on_error: bool,
    /// The line of the body the step stands on, counting from 1.
    pub line_number: usize,
}

/// A step as plain values.
pub struct StepView {
    pub tool: Seq<char>,
    pub command: Seq<char>,
    pub args: Seq<Seq<char>>,
    pub continue_on_error: bool,
    pub line_number: nat,
}

impl Step {
    pub open spec fn view(self) -> StepView {
        StepView {
            tool: self.tool@,
            command: self.command@,
            args: self.args@.map_values(|a: String| a@),
            continue_on_error: self.continue_on_error,
            line_number: self.line_number as nat,
        }
    }
}

/// The steps of a sequence of step values.
pub open spec fn step_views(s: Seq<Step>) -> Seq<StepView> {
    s.map_values(|st: Step| st@)
}

/// A line that holds no step: blank, or a comment.
pub open spec fn skipped_line(t: Seq<char>) -> bool {
    t.len() == 0 || t[0] == '#'
}

/// The part of a trimmed step line that holds the tokens, and whether the
/// line ends in the ` ?` marker that lets the workflow go on after the step
/// fails.
pub open spec fn step_text(t: Seq<char>) -> (Seq<char>, bool) {
    if ends_with(t, seq![' ', '?']) {
        (t.take(t.len() - 2), true)
    } else {
        (t, false)
    }
}

/// The steps read from lines `ls[..i]`, or the number of the first line
/// that has a single token.
pub open spec fn steps_fold(ls: Seq<Seq<char>>, i: nat) -> Result<Seq<StepView>, nat>
    decreases i,
{
    if i == 0 || i > ls.len() {
        Ok(seq![])
    } else {
        match steps_fold(ls, (i - 1) as nat) {
            Err(n) => Err(n),
            Ok(steps) => {
                let t = trim(ls[i - 1]);
                if skipped_line(t) {
                    Ok(steps)
                } else {
                    let (text, coe) = step_text(t);
                    let toks = tokens(text);
                    if toks.len() == 0 {
                        Ok(steps)
                    } else if toks.len() < 2 {
                        Err(i)
                    } else {
                        Ok(
                            steps.push(
                                StepView {
                                    tool: toks[0],
                                    command: toks[1],
                                    args: toks.skip(2),
                                    continue_on_error: coe,
                                    line_number: i,
                                },
                            ),
                        )
                    }
                }
            },
        }
    }
}

/// The steps of a workflow body, or the number of the first line that names
/// a tool without a command.
pub open spec fn steps_of(body: Seq<char>) -> Result<Seq<StepView>, nat> {
    steps_fold(lines(body), lines(body).len())
}

/// Once a line is rejected, the result stays that rejection.
pub proof fn lemma_steps_err_stays(ls: Seq<Seq<char>>, k: nat, k2: nat)
    requires
        k <= k2 <= ls.len(),
        steps_fold(ls, k) is Err,
    ensures
        steps_fold(ls, k2) == steps_fold(ls, k),
    decreases k2 - k,
{
    if k2 > k {
        lemma_steps_err_stays(ls, k, (k2 - 1) as nat);
    }
}

/// The tokens of line `n` (counting from 1) of `ls`, read as a step line.
pub open spec fn line_tokens(ls: Seq<Seq<char>>, n: nat) -> Seq<Seq<char>> {
    tokens(step_text(trim(ls[n - 1])).0)
}

/// Whether line `n` of `ls` holds a step: it is not blank, not a comment,
/// and has a token.
pub open spec fn step_line(ls: Seq<Seq<char>>, n: nat) -> bool {
    !skipped_line(trim(ls[n - 1])) && line_tokens(ls, n).len() > 0
}

/// Whether line `n` of `ls` holds a step with a tool and no command.
pub open spec fn short_line(ls: Seq<Seq<char>>, n: nat) -> bool {
    step_line(ls, n) && line_tokens(ls, n).len() < 2
}

/// The step that line `n` of `ls` holds.
pub open spec fn step_of_line(ls: Seq<Seq<char>>, n: nat) -> StepView {
    let toks = line_tokens(ls, n);
    StepView {
        tool: toks[0],
        command: toks[1],
        args: toks.skip(2),
        continue_on_error: step_text(trim(ls[n - 1])).1,
        line_number: n,
    }
}

/// A step line that ends in ` ?` (after trimming) is read as the same line
/// without those two characters, with the workflow going on after the step
/// fails: the marker is cut off before the line is split, so it never
/// becomes an argument. Any other line is split as it stands, and the
/// workflow stops when its step fails.
pub proof fn lemma_marker_cut_before_split(ls: Seq<Seq<char>>, n: nat, u: Seq<char>)
    requires
        1 <= n <= ls.len(),
    ensures
        trim(ls[n - 1]) == u + seq![' ', '?'] ==> line_tokens(ls, n) == tokens(u)
            && step_of_line(ls, n).continue_on_error && step_of_line(ls, n).args == tokens(u).skip(2)
            && step_of_line(ls, n).tool == tokens(u)[0] && step_of_line(ls, n).command == tokens(u)[1],
        ({
            let t = trim(ls[n - 1]);
            !(t.len() >= 2 && t[t.len() - 2] == ' ' && t[t.len() - 1] == '?') ==> line_tokens(ls, n) == tokens(t)
                && !step_of_line(ls, n).continue_on_error
        }),
{
    let t = trim(ls[n - 1]);
    if t == u + seq![' ', '?'] {
        assert(t.skip(t.len() - 2) =~= seq![' ', '?']);
        assert(t.take(t.len() - 2) =~= u);
    }
    if ends_with(t, seq![' ', '?']) {
        assert(t.skip(t.len() - 2)[0] == t[t.len() - 2]);
        assert(t.skip(t.len() - 2)[1] == t[t.len() - 1]);
    }
}

/// The numbers of the step lines among the first `i` lines, in order.
pub open spec fn step_numbers(ls: Seq<Seq<char>>, i: nat) -> Seq<nat>
    decreases i,
{
    if i == 0 || i > ls.len() {
        seq![]
    } else if step_line(ls, i) {
        step_numbers(ls, (i - 1) as nat).push(i)
    } else {
        step_numbers(ls, (i - 1) as nat)
    }
}

/// The steps of the first `i` lines: when no step line among them lacks a
/// command, one step for each step line, in order, made of its tokens;
/// otherwise the number of the first step line that lacks one.
pub proof fn lemma_steps_law(ls: Seq<Seq<char>>, i: nat)
    requires
        i <= ls.len(),
    ensures
        (forall|n: nat| 1 <= n <= i ==> !#[trigger] short_line(ls, n)) ==> steps_fold(ls, i) == Ok::<
            Seq<StepView>,
            nat,
        >(step_numbers(ls, i).map_values(|n: nat| step_of_line(ls, n))),
        forall|n: nat|
            1 <= n <= i && #[trigger] short_line(ls, n) && (forall|m: nat| 1 <= m < n ==> !short_line(ls, m))
                ==> steps_fold(ls, i) == Err::<Seq<StepView>, nat>(n),
    decreases i,
{
    if i == 0 {
        assert(step_numbers(ls, 0).map_values(|n: nat| step_of_line(ls, n)) =~= Seq::<StepView>::empty());
    } else {
        lemma_steps_law(ls, (i - 1) as nat);
        let prev = steps_fold(ls, (i - 1) as nat);
        if forall|n: nat| 1 <= n <= i ==> !#[trigger] short_line(ls, n) {
            assert(!short_line(ls, i));
            assert forall|m: nat| 1 <= m <= i - 1 implies !#[trigger] short_line(ls, m) by {}
            let sn = step_numbers(ls, (i - 1) as nat);
            let steps = sn.map_values(|n: nat| step_of_line(ls, n));
            assert(prev == Ok::<Seq<StepView>, nat>(steps));
            let t = trim(ls[i - 1]);
            assert(line_tokens(ls, i) == tokens(step_text(t).0));
            if step_line(ls, i) {
                assert(step_numbers(ls, i) == sn.push(i));
                assert(step_numbers(ls, i).map_values(|n: nat| step_of_line(ls, n)) =~= steps.push(step_of_line(ls, i)));
            } else {
                assert(step_numbers(ls, i) == sn);
            }
        }
        assert forall|n: nat|
            1 <= n <= i && #[trigger] short_line(ls, n) && (forall|m: nat| 1 <= m < n ==> !short_line(ls, m)) implies steps_fold(
            ls,
            i,
        ) == Err::<Seq<StepView>, nat>(n) by {
            if n < i {
                assert(prev == Err::<Seq<StepView>, nat>(n));
            } else {
                assert forall|m: nat| 1 <= m <= i - 1 implies !#[trigger] short_line(ls, m) by {}
                assert(prev is Ok);
            }
        }
    }
}

/// The reason given for a step line with a single token.
pub open spec fn short_step_reason(line: nat) -> Seq<char> {
    "line "@ + decimal(line) + ": step must have at least a tool and command"@
}

fn strings_of(v: &Vec<Vec<char>>, from: usize) -> (r: Vec<String>)
    requires
        from <= v@.len(),
    ensures
        r@.map_values(|a: String| a@) == views(v@).skip(from as int),
{
    let mut out: Vec<String> = Vec::new();
    let n = v.len();
    let mut i = from;
    while i < n
        invariant
            from <= i <= n == v@.len(),
            out@.len() == i - from,
            forall|j: int| 0 <= j < out@.len() ==> #[trigger] out@[j]@ == v@[from + j]@,
        decreases n - i,
    {
        out.push(from_chars(&v[i]));
        i = i + 1;
    }
    assert(out@.map_values(|a: String| a@) =~= views(v@).skip(from as int));
    out
}

/// Reads the steps of a workflow body.
pub fn parse_steps(body: &str, workflow_name: &str) -> (r: Result<Vec<Step>, ToolshedError>)
    ensures
        match steps_of(body@) {
            Ok(steps) => r matches Ok(v) && step_views(v@) == steps,
            Err(line) => r matches Err(ToolshedError::BadWorkflow { workflow, reason })
                && workflow@ == workflow_name@ && reason@ == short_step_reason(line),
        },
{
    let ls = split_lines(&to_chars(body));
    let ghost lsv = views(ls@);
    let mut steps: Vec<Step> = Vec::new();
    let n = ls.len();
    let marker: Vec<char> = vec![' ', '?'];
    assert(marker@ =~= seq![' ', '?']);
    assert(step_views(steps@) =~= seq![]);
    for i in 0..n
        invariant
            n == ls@.len() == lsv.len(),
            lsv == views(ls@),
            lsv == lines(body@),
            marker@ == seq![' ', '?'],
            steps_fold(lsv, i as nat) == Ok::<Seq<StepView>, nat>(step_views(steps@)),
    {
        assert(lsv[i as int] == ls@[i as int]@);
        let t = trim_vec(&ls[i]);
        if !(t.len() == 0 || t[0] == '#') {
        let coe = ends_with_vec(&t, &marker);
        let text = if coe {
            subvec(&t, 0, t.len() - 2)
        } else {
            subvec(&t, 0, t.len())
        };
        assert(t@.subrange(0, t@.len() as int) == t@);
        assert(t@.subrange(0, t@.len() - 2) == t@.take(t@.len() - 2));
        let toks = split_vec(&text);
        if toks.len() > 0 {
        if toks.len() < 2 {
            proof {
                assert(steps_fold(lsv, (i + 1) as nat) == Err::<Seq<StepView>, nat>((i + 1) as nat));
                lemma_steps_err_stays(lsv, (i + 1) as nat, n as nat);
            }
            let mut reason = to_chars("line ");
            append_chars(&mut reason, &u64_decimal((i + 1) as u64));
            append_chars(&mut reason, &to_chars(": step must have at least a tool and command"));
            return Err(
                ToolshedError::BadWorkflow {
                    workflow: from_chars(&to_chars(workflow_name)),
                    reason: from_chars(&reason),
                },
            );
        }
        let step = Step {
            tool: from_chars(&toks[0]),
            command: from_chars(&toks[1]),
            args: strings_of(&toks, 2),
            continue_on_error: coe,
            line_number: i + 1,
        };
        let ghost before = steps@;
        steps.push(step);
        assert(step_views(steps@) =~= step_views(before).push(step@));
        }
        }
    }
    Ok(steps)
}


/// The `${prev}` placeholder.
pub open spec fn prev_placeholder() -> Seq<char> {
    seq!['$', '{', 'p', 'r', 'e', 'v', '}']
}

/// `input` with every `${prev}` replaced by `prev`.
pub fn substitute_prev(input: &str, prev: &str) -> (r: String)
    ensures
        r@ == replace(input@, prev_placeholder(), prev@),
{
    let placeholder: Vec<char> = vec!['$', '{', 'p', 'r', 'e', 'v', '}'];
    assert(placeholder@ =~= prev_placeholder());
    from_chars(&replace_vec(&to_chars(input), &placeholder, &to_chars(prev)))
}

/// The header of a workflow.
#[derive(Debug, Clone)]
pub struct WorkflowManifest {
    pub name: String,
    pub description: String,
    /// The time the whole workflow may take, in seconds.
    pub timeout: u64,
}

/// A workflow: where it lives, its header, its steps and its body.
#[derive(Debug, Clone)]
pub struct Workflow {
    pub dir: String,
    pub manifest: WorkflowManifest,
    pub steps: Vec<Step>,
    pub body: String,
}

/// The workflow that the text `content` of `WORKFLOW.md` in directory `dir`
/// describes, as name, description, timeout, steps and body, or the reason
/// it is refused: descriptions may take 300 bytes, a `timeout` must be a
/// positive integer (600 when absent), and the body must hold a step.
pub open spec fn workflow_of(dir: Seq<char>, content: Seq<char>) -> Result<
    (Seq<char>, Seq<char>, u64, Seq<StepView>, Seq<char>),
    Seq<char>,
> {
    let (meta, body) = frontmatter(content);
    match doc_identity(meta, dir, 300) {
        Err(reason) => Err(reason),
        Ok((name, desc)) => {
            let timeout: Result<u64, Seq<char>> = if meta.contains_key("timeout"@) {
                match parse_u64(meta["timeout"@]) {
                    Some(t) => Ok(t),
                    None => Err(
                        "timeout must be a positive integer, got '"@ + meta["timeout"@] + "'"@,
                    ),
                }
            } else {
                Ok(DEFAULT_WORKFLOW_TIMEOUT_SECS)
            };
            match timeout {
                Err(reason) => Err(reason),
                Ok(t) => if t == 0 {
                    Err("timeout must be positive"@)
                } else {
                    match steps_of(body) {
                        Err(line) => Err(short_step_reason(line)),
                        Ok(steps) => if steps.len() == 0 {
                            Err("workflow has no steps"@)
                        } else {
                            Ok((name, desc, t, steps, body))
                        },
                    }
                },
            }
        },
    }
}

fn bad_workflow(dir_name: &str, reason: Vec<char>) -> (r: ToolshedError)
    ensures
        r matches ToolshedError::BadWorkflow { workflow, reason: rr } && workflow@ == dir_name@
            && rr@ == reason@,
{
    ToolshedError::BadWorkflow {
        workflow: from_chars(&to_chars(dir_name)),
        reason: from_chars(&reason),
    }
}

/// Loads the workflow in directory `dir` (named `dir_name`) from what
/// reading its `WORKFLOW.md` gave.
pub fn load_workflow(dir: &str, dir_name: &str, file: DocFile) -> (r: Result<Workflow, ToolshedError>)
    ensures
        match file {
            DocFile::Missing => r matches Err(ToolshedError::BadWorkflow { workflow, reason })
                && workflow@ == dir_name@ && reason@ == "missing WORKFLOW.md"@,
            DocFile::Unreadable(e) => r matches Err(ToolshedError::BadWorkflow { workflow, reason })
                && workflow@ == dir_name@ && reason@ == "cannot read WORKFLOW.md: "@ + e@,
            DocFile::Text(content) => match workflow_of(dir_name@, content@) {
                Ok((name, desc, t, steps, body)) => r matches Ok(w) && w.dir@ == dir@
                    && w.manifest.name@ == name && w.manifest.description@ == desc
                    && w.manifest.timeout == t && step_views(w.steps@) == steps && w.body@ == body,
                Err(reason) => r matches Err(ToolshedError::BadWorkflow { workflow, reason: rr })
                    && workflow@ == dir_name@ && rr@ == reason,
            },
        },
{
    let content = match file {
        DocFile::Missing => {
            return Err(bad_workflow(dir_name, to_chars("missing WORKFLOW.md")));
        },
        DocFile::Unreadable(e) => {
            let mut o = to_chars("cannot read WORKFLOW.md: ");
            push_str(&mut o, e.as_str());
            return Err(bad_workflow(dir_name, o));
        },
        DocFile::Text(c) => c,
    };
    let (meta, body) = match parse(content.as_str()) {
        Ok(p) => p,
        Err(e) => {
            return Err(e);
        },
    };
    let (name, description) = match check_identity(&meta, dir_name, 300) {
        Err(reason) => {
            return Err(bad_workflow(dir_name, reason));
        },
        Ok(p) => p,
    };
    let timeout: u64 = match meta.get("timeout") {
        Some(t) => match parse_u64_vec(&to_chars(t.as_str())) {
            Some(v) => v,
            None => {
                let mut o = to_chars("timeout must be a positive integer, got '");
                push_str(&mut o, t.as_str());
                push_str(&mut o, "'");
                return Err(bad_workflow(dir_name, o));
            },
        },
        None => DEFAULT_WORKFLOW_TIMEOUT_SECS,
    };
    if timeout == 0 {
        return Err(bad_workflow(dir_name, to_chars("timeout must be positive")));
    }
    let steps = match parse_steps(body.as_str(), dir_name) {
        Ok(s) => s,
        Err(e) => {
            return Err(e);
        },
    };
    if steps.len() == 0 {
        return Err(bad_workflow(dir_name, to_chars("workflow has no steps")));
    }
    Ok(
        Workflow {
            dir: from_chars(&to_chars(dir)),
            manifest: WorkflowManifest { name, description, timeout },
            steps,
            body,
        },
    )
}

/// The workflows that loaded, by directory name, and the directories that
/// failed with the message of their error.
pub struct WorkflowRegistry {
    pub workflows: NameMap<Workflow>,
    pub errors: Vec<(String, String)>,
}

impl WorkflowRegistry {
    /// A registry with no workflows and no errors.
    pub fn new() -> (r: Self)
        ensures
            r.workflows.wf(),
            r.workflows@ == Map::<Seq<char>, Workflow>::empty(),
            r.errors@.len() == 0,
    {
        WorkflowRegistry { workflows: NameMap::new(), errors: Vec::new() }
    }

    /// Records the outcome of loading the workflow in `dir_name`: the
    /// workflow under its directory name, or the error's message.
    pub fn add(&mut self, dir_name: &str, loaded: Result<Workflow, ToolshedError>)
        requires
            old(self).workflows.wf(),
        ensures
            final(self).workflows.wf(),
            match loaded {
                Ok(a) => final(self).workflows@ == old(self).workflows@.insert(dir_name@, a)
                    && final(self).errors@ == old(self).errors@,
                Err(e) => final(self).workflows@ == old(self).workflows@ && final(self).errors@.len()
                    == old(self).errors@.len() + 1 && final(self).errors@.drop_last() == old(self).errors@ && final(self).errors@.last().0@ == dir_name@
                    && final(self).errors@.last().1@ == error_message(e),
            },
    {
        match loaded {
            Ok(a) => {
                self.workflows.insert(from_chars(&to_chars(dir_name)), a);
            },
            Err(e) => {
                let m = e.message();
                self.errors.push((from_chars(&to_chars(dir_name)), m));
                assert(self.errors@.drop_last() == old(self).errors@);
            },
        }
    }
}


/// A step's text once `${prev}` is replaced and the environment filled in.
pub open spec fn filled(t: Seq<char>, prev: Seq<char>, env: Map<Seq<char>, Seq<char>>) -> Result<Seq<char>, Seq<char>> {
    interpolated(replace(t, prev_placeholder(), prev), env)
}

/// The first `n` arguments filled in, or the first unset variable.
pub open spec fn filled_args(args: Seq<Seq<char>>, prev: Seq<char>, env: Map<Seq<char>, Seq<char>>, n: nat) -> Result<Seq<Seq<char>>, Seq<char>>
    decreases n,
{
    if n == 0 || n > args.len() {
        Ok(seq![])
    } else {
        match filled_args(args, prev, env, (n - 1) as nat) {
            Err(e) => Err(e),
            Ok(done) => match filled(args[n - 1], prev, env) {
                Err(e) => Err(e),
                Ok(a) => Ok(done.push(a)),
            },
        }
    }
}

/// What a workflow run prints at the end: the last step's output, with a
/// newline, or nothing.
pub open spec fn final_output(prev: Seq<char>) -> Seq<char> {
    if prev.len() == 0 {
        seq![]
    } else {
        prev.push('\n')
    }
}

/// What to do next in a workflow run.
#[derive(Debug)]
pub enum StepDecision {
    /// Run a tool's command with these arguments, within this many seconds;
    /// its output is cut to `max_output` characters unless the run is full.
    Run { tool: String, command: String, args: Vec<String>, timeout_secs: u64, max_output: usize },
    /// The workflow is done; this is its output.
    Finish(String),
    /// The workflow stops with this error.
    Fail(ToolshedError),
}

/// A workflow run in progress: the next step, the output of the last one,
/// the time the whole run may take, and whether outputs are kept whole.
#[derive(Debug)]
pub struct WorkflowRun {
    pub next: usize,
    pub prev: String,
    pub total_timeout: u64,
    pub full: bool,
}

/// The views of strings.
pub open spec fn strings_view(v: Seq<String>) -> Seq<Seq<char>> {
    v.map_values(|s: String| s@)
}

/// What a run decides before step `i` of `wf`, with `prev` the output of
/// the step before and the time left: finish after the last step; stop
/// when no time is left; else fill in the step and run it, when its tool is
/// registered.
pub open spec fn decision_ok(
    d: StepDecision,
    wf: Workflow,
    reg: Registry,
    env: Map<Seq<char>, Seq<char>>,
    i: int,
    prev: Seq<char>,
    total: u64,
    secs: u64,
    nanos: u32,
) -> bool {
    if i == wf.steps@.len() {
        d matches StepDecision::Finish(out) && out@ == final_output(prev)
    } else if secs == 0 && nanos == 0 {
        d matches StepDecision::Fail(ToolshedError::WorkflowTimeout { workflow, timeout_secs })
            && workflow@ == wf.manifest.name@ && timeout_secs == total
    } else {
        let step = wf.steps@[i];
        match filled(step.tool@, prev, env) {
            Err(name) => d matches StepDecision::Fail(ToolshedError::EnvVarNotSet { var }) && var@ == name,
            Ok(tool) => match filled(step.command@, prev, env) {
                Err(name) => d matches StepDecision::Fail(ToolshedError::EnvVarNotSet { var }) && var@ == name,
                Ok(command) => match filled_args(strings_view(step.args@), prev, env, step.args@.len()) {
                    Err(name) => d matches StepDecision::Fail(ToolshedError::EnvVarNotSet { var }) && var@ == name,
                    Ok(args) => if reg.tools@.contains_key(tool) {
                        d matches StepDecision::Run { tool: t, command: c, args: a, timeout_secs, max_output }
                            && t@ == tool && c@ == command && strings_view(a@) == args
                            && timeout_secs == secs
                            && max_output == reg.tools@[tool].manifest.max_output
                    } else {
                        d matches StepDecision::Fail(ToolshedError::WorkflowStepFailed { workflow, step: n, tool: t, command: c, reason })
                            && workflow@ == wf.manifest.name@ && n == i + 1 && t@ == tool && c@ == command
                            && reason@ == "tool '"@ + tool + "' not found"@
                    },
                },
            },
        }
    }
}

fn fill(t: &str, prev: &str, env: &NameMap<String>) -> (r: Result<String, ToolshedError>)
    requires
        env.wf(),
    ensures
        match filled(t@, prev@, string_view(env@)) {
            Ok(x) => r matches Ok(o) && o@ == x,
            Err(name) => r matches Err(ToolshedError::EnvVarNotSet { var }) && var@ == name,
        },
{
    interpolate(substitute_prev(t, prev).as_str(), env)
}

impl WorkflowRun {
    /// A run of `wf` from its first step, within `timeout_override`
    /// seconds, or the workflow's own timeout.
    pub fn start(wf: &Workflow, full: bool, timeout_override: Option<u64>) -> (r: Self)
        ensures
            r.next == 0,
            r.prev@ == Seq::<char>::empty(),
            r.full == full,
            r.total_timeout == match timeout_override {
                Some(t) => t,
                None => wf.manifest.timeout,
            },
    {
        let total_timeout = match timeout_override {
            Some(t) => t,
            None => wf.manifest.timeout,
        };
        WorkflowRun { next: 0, prev: String::new(), total_timeout, full }
    }

    /// Decides what to do before the next step, with `secs` and `nanos`
    /// of the run's time left.
    #[verifier::loop_isolation(false)]
    pub fn decide(&self, wf: &Workflow, reg: &Registry, env: &NameMap<String>, secs: u64, nanos: u32) -> (d: StepDecision)
        requires
            self.next <= wf.steps@.len(),
            reg.wf(),
            env.wf(),
        ensures
            decision_ok(d, *wf, *reg, string_view(env@), self.next as int, self.prev@, self.total_timeout, secs, nanos),
    {
        let ghost e = string_view(env@);
        if self.next == wf.steps.len() {
            let mut out = to_chars(self.prev.as_str());
            if out.len() > 0 {
                out.push('\n');
            }
            let r = from_chars(&out);
            assert(r@ == final_output(self.prev@));
            return StepDecision::Finish(r);
        }
        if secs == 0 && nanos == 0 {
            return StepDecision::Fail(ToolshedError::WorkflowTimeout {
                workflow: wf.manifest.name.clone(),
                timeout_secs: self.total_timeout,
            });
        }
        let step = &wf.steps[self.next];
        let tool = match fill(step.tool.as_str(), self.prev.as_str(), env) {
            Ok(t) => t,
            Err(err) => return StepDecision::Fail(err),
        };
        let command = match fill(step.command.as_str(), self.prev.as_str(), env) {
            Ok(c) => c,
            Err(err) => return StepDecision::Fail(err),
        };
        let ghost av = strings_view(step.args@);
        let mut args: Vec<String> = Vec::new();
        let n = step.args.len();
        assert(strings_view(args@) =~= Seq::<Seq<char>>::empty());
        for j in 0..n
            invariant
                n == step.args@.len() == av.len(),
                av == strings_view(step.args@),
                env.wf(),
                e == string_view(env@),
                filled_args(av, self.prev@, e, j as nat) == Ok::<Seq<Seq<char>>, Seq<char>>(strings_view(args@)),
        {
            match fill(step.args[j].as_str(), self.prev.as_str(), env) {
                Ok(a) => {
                    assert(av[j as int] == step.args@[j as int]@);
                    let ghost before = args@;
                    args.push(a);
                    assert(strings_view(args@) =~= strings_view(before).push(a@));
                },
                Err(err) => {
                    assert(av[j as int] == step.args@[j as int]@);
                    assert(filled_args(av, self.prev@, e, (j + 1) as nat) is Err);
                    proof {
                        lemma_filled_args_err(av, self.prev@, e, (j + 1) as nat, n as nat);
                    }
                    return StepDecision::Fail(err);
                },
            }
        }
        match reg.tools.get(tool.as_str()) {
            Some(t) => StepDecision::Run {
                tool,
                command,
                args,
                timeout_secs: secs,
                max_output: t.manifest.max_output,
            },
            None => {
                let mut reason = to_chars("tool '");
                push_str(&mut reason, tool.as_str());
                push_str(&mut reason, "' not found");
                StepDecision::Fail(ToolshedError::WorkflowStepFailed {
                    workflow: wf.manifest.name.clone(),
                    step: self.next + 1,
                    tool,
                    command,
                    reason: from_chars(&reason),
                })
            },
        }
    }

    /// Takes in what running the next step gave: its output (cut to
    /// `max_output` characters unless the run is full, then trimmed)
    /// becomes `${prev}`; a failure of a step that may fail clears it; any
    /// other failure stops the run with the step's error.
    pub fn step_done(
        &mut self,
        wf: &Workflow,
        tool: &str,
        command: &str,
        outcome: Result<String, ToolshedError>,
        max_output: usize,
    ) -> (r: Option<ToolshedError>)
        requires
            old(self).next < wf.steps@.len(),
        ensures
            final(self).total_timeout == old(self).total_timeout,
            final(self).full == old(self).full,
            match outcome {
                Ok(o) => r is None && final(self).next == old(self).next + 1 && final(self).prev@ == trim(
                    if old(self).full {
                        o@
                    } else {
                        truncated(o@, vstd::utf8::encode_utf8(o@).len(), max_output as nat)
                    },
                ),
                Err(e) => if wf.steps@[old(self).next as int].continue_on_error {
                    r is None && final(self).next == old(self).next + 1 && final(self).prev@ == Seq::<char>::empty()
                } else {
                    r matches Some(ToolshedError::WorkflowStepFailed { workflow, step, tool: t, command: c, reason })
                        && workflow@ == wf.manifest.name@ && step == old(self).next + 1 && t@ == tool@
                        && c@ == command@ && reason@ == error_message(e)
                        && final(self).next == old(self).next && final(self).prev@ == old(self).prev@
                },
            },
    {
        let count = wf.steps.len();
        assert(self.next < count);
        match outcome {
            Ok(o) => {
                let kept = if self.full {
                    o
                } else {
                    truncate(o.as_str(), max_output)
                };
                self.prev = from_chars(&trim_vec(&to_chars(kept.as_str())));
                self.next = self.next + 1;
                None
            },
            Err(e) => {
                if wf.steps[self.next].continue_on_error {
                    self.prev = String::new();
                    self.next = self.next + 1;
                    None
                } else {
                    Some(ToolshedError::WorkflowStepFailed {
                        workflow: wf.manifest.name.clone(),
                        step: self.next + 1,
                        tool: tool.to_owned(),
                        command: command.to_owned(),
                        reason: e.message(),
                    })
                }
            },
        }
    }
}

proof fn lemma_filled_args_err(args: Seq<Seq<char>>, prev: Seq<char>, env: Map<Seq<char>, Seq<char>>, k: nat, n: nat)
    requires
        k <= n <= args.len(),
        filled_args(args, prev, env, k) is Err,
    ensures
        filled_args(args, prev, env, n) == filled_args(args, prev, env, k),
    decreases n - k,
{
    if n > k {
        lemma_filled_args_err(args, prev, env, k, (n - 1) as nat);
    }
}

/// The line a verbose run shows before a step.
pub fn step_banner(step: usize, total: usize, tool: &str, command: &str, args: &Vec<String>) -> (r: String)
    ensures
        r@ == "--- step "@ + decimal(step as nat) + " of "@ + decimal(total as nat) + ": "@ + tool@ + " "@
            + command@ + " "@ + crate::text::join(strings_view(args@), " "@) + " ---"@,
{
    let mut o = to_chars("--- step ");
    append_chars(&mut o, &u64_decimal(step as u64));
    push_str(&mut o, " of ");
    append_chars(&mut o, &u64_decimal(total as u64));
    push_str(&mut o, ": ");
    push_str(&mut o, tool);
    push_str(&mut o, " ");
    push_str(&mut o, command);
    push_str(&mut o, " ");
    let joined = crate::text::join_strings(args, " ");
    push_str(&mut o, joined.as_str());
    push_str(&mut o, " ---");
    from_chars(&o)
}

} // verus!
