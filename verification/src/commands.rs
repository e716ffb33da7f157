//! What the commands record in the audit trail and print about it: the
//! data of their audit entries, and the listings and reports of the audit
//! commands.

use vstd::prelude::*;
use crate::audit::{entry_line, entry_text, opt_chars, AuditEntry, AuditFileInfo, IntegrityResult};
use crate::cli::AuditAction;
use crate::error::{error_message, ToolshedError};
use crate::json::{lemma_members_view, members_view, Json, JsonValue};
use crate::namemap::{str_less, str_lt};
use crate::report::texts;
use crate::text::{append_chars, contains, contains_vec, decimal, from_chars, push_str, to_chars, u64_decimal};

verus! {

/// A text, or `null` when there is none.
pub open spec fn text_or_null(o: Option<Seq<char>>) -> Json {
    match o {
        Some(s) => Json::Str(s),
        None => Json::Null,
    }
}

/// A whole number.
pub open spec fn number(n: nat) -> Json {
    Json::Number(decimal(n))
}

fn text_value(s: &str) -> (r: JsonValue)
    ensures
        r@ == Json::Str(s@),
{
    JsonValue::String(s.to_owned())
}

fn opt_text_value(o: &Option<String>) -> (r: JsonValue)
    ensures
        r@ == text_or_null(opt_chars(*o)),
{
    match o {
        Some(s) => JsonValue::String(s.clone()),
        None => JsonValue::Null,
    }
}

fn number_value(n: u64) -> (r: JsonValue)
    ensures
        r@ == number(n as nat),
{
    JsonValue::Number(from_chars(&u64_decimal(n)))
}

fn object_value(m: Vec<(String, JsonValue)>) -> (r: JsonValue)
    ensures
        r@ == Json::Object(members_view(m@, m@.len())),
{
    JsonValue::Object(m)
}

/// The event an audit command records about itself.
pub open spec fn action_event(a: AuditAction) -> Seq<char> {
    match a {
        AuditAction::List { .. } => "audit_list"@,
        AuditAction::Verify { .. } => "audit_verify"@,
        AuditAction::Query { .. } => "audit_query"@,
    }
}

/// The data an audit command records about itself: its action and options.
pub open spec fn action_data(a: AuditAction) -> Json {
    match a {
        AuditAction::List { limit } => Json::Object(seq![("action"@, Json::Str("list"@)), ("limit"@, number(limit as nat))]),
        AuditAction::Verify { session } => Json::Object(seq![("action"@, Json::Str("verify"@)), ("session"@, text_or_null(opt_chars(session)))]),
        AuditAction::Query { session, event, outcome, since, search, limit } => Json::Object(seq![
            ("action"@, Json::Str("query"@)),
            ("session"@, text_or_null(opt_chars(session))),
            ("event"@, text_or_null(opt_chars(event))),
            ("outcome"@, text_or_null(opt_chars(outcome))),
            ("since"@, text_or_null(opt_chars(since))),
            ("search"@, text_or_null(opt_chars(search))),
            ("limit"@, number(limit as nat)),
        ]),
    }
}

/// The event and data an audit command records about itself.
pub fn audit_action_metadata(a: &AuditAction) -> (r: (String, JsonValue))
    ensures
        r.0@ == action_event(*a),
        r.1@ == action_data(*a),
{
    let mut m: Vec<(String, JsonValue)> = Vec::new();
    let event = match a {
        AuditAction::List { limit } => {
            m.push(("action".to_owned(), text_value("list")));
            m.push(("limit".to_owned(), number_value(*limit as u64)));
            "audit_list".to_owned()
        },
        AuditAction::Verify { session } => {
            m.push(("action".to_owned(), text_value("verify")));
            m.push(("session".to_owned(), opt_text_value(session)));
            "audit_verify".to_owned()
        },
        AuditAction::Query { session, event, outcome, since, search, limit } => {
            m.push(("action".to_owned(), text_value("query")));
            m.push(("session".to_owned(), opt_text_value(session)));
            m.push(("event".to_owned(), opt_text_value(event)));
            m.push(("outcome".to_owned(), opt_text_value(outcome)));
            m.push(("since".to_owned(), opt_text_value(since)));
            m.push(("search".to_owned(), opt_text_value(search)));
            m.push(("limit".to_owned(), number_value(*limit as u64)));
            "audit_query".to_owned()
        },
    };
    proof {
        lemma_members_view(m@, m@.len());
        assert(Json::Object(members_view(m@, m@.len())) =~= action_data(*a)) by {
            match action_data(*a) {
                Json::Object(x) => {
                    assert(members_view(m@, m@.len()) =~= x);
                },
                _ => {},
            }
        }
    }
    (event, object_value(m))
}

/// The data of the entry that closes a command's run: what ran, how long
/// it took, and, when it failed, why.
pub open spec fn result_data(head: Seq<(Seq<char>, Json)>, duration_ms: u64, tail: Seq<(Seq<char>, Json)>) -> Json {
    Json::Object(head + seq![("durationMs"@, number(duration_ms as nat))] + tail)
}

/// The data an audit command records when it is done.
pub fn audit_result_data(event: &str, duration_ms: u64, error: Option<&ToolshedError>) -> (r: JsonValue)
    ensures
        r@ == result_data(seq![("action"@, Json::Str(event@))], duration_ms, match error {
            Some(e) => seq![("error"@, Json::Str(error_message(*e)))],
            None => seq![],
        }),
{
    let mut m: Vec<(String, JsonValue)> = Vec::new();
    m.push(("action".to_owned(), text_value(event)));
    m.push(("durationMs".to_owned(), number_value(duration_ms)));
    match error {
        Some(e) => m.push(("error".to_owned(), JsonValue::String(e.message()))),
        None => {},
    }
    proof {
        lemma_members_view(m@, m@.len());
    }
    let r = object_value(m);
    assert(r@ =~= result_data(seq![("action"@, Json::Str(event@))], duration_ms, match error {
        Some(e) => seq![("error"@, Json::Str(error_message(*e)))],
        None => seq![],
    })) by {
        assert(members_view(m@, m@.len()) =~= seq![("action"@, Json::Str(event@))] + seq![("durationMs"@, number(duration_ms as nat))] + match error {
            Some(e) => seq![("error"@, Json::Str(error_message(*e)))],
            None => seq![],
        });
    }
    r
}

/// The data `run` records before it runs a tool: the tool, the command,
/// the words, the tool's type and category.
pub fn tool_call_data(tool: &str, command: &str, args: &Vec<String>, tool_type: &str, category: &str) -> (r: JsonValue)
    ensures
        r@ == Json::Object(seq![
            ("tool"@, Json::Str(tool@)),
            ("command"@, Json::Str(command@)),
            ("args"@, Json::Array(texts(args@).map_values(|a: Seq<char>| Json::Str(a)))),
            ("toolType"@, Json::Str(tool_type@)),
            ("category"@, Json::Str(category@)),
        ]),
{
    let mut items: Vec<JsonValue> = Vec::new();
    let n = args.len();
    for i in 0..n
        invariant
            n == args@.len(),
            items@.len() == i,
            forall|j: int| 0 <= j < i ==> crate::json::json_view(#[trigger] items@[j]) == Json::Str(args@[j]@),
    {
        items.push(JsonValue::String(args[i].clone()));
    }
    let ghost iv = items@;
    proof {
        crate::json::lemma_items_view(iv, n as nat);
        assert(crate::json::items_view(iv, n as nat) =~= texts(args@).map_values(|a: Seq<char>| Json::Str(a)));
    }
    let mut m: Vec<(String, JsonValue)> = Vec::new();
    m.push(("tool".to_owned(), text_value(tool)));
    m.push(("command".to_owned(), text_value(command)));
    m.push(("args".to_owned(), JsonValue::Array(items)));
    m.push(("toolType".to_owned(), text_value(tool_type)));
    m.push(("category".to_owned(), text_value(category)));
    proof {
        lemma_members_view(m@, m@.len());
        assert(members_view(m@, m@.len()) =~= seq![
            ("tool"@, Json::Str(tool@)),
            ("command"@, Json::Str(command@)),
            ("args"@, Json::Array(texts(args@).map_values(|a: Seq<char>| Json::Str(a)))),
            ("toolType"@, Json::Str(tool_type@)),
            ("category"@, Json::Str(category@)),
        ]);
    }
    object_value(m)
}

/// The data `run` records when the tool is done: its output's length in
/// bytes, or why it failed.
pub fn tool_result_data(tool: &str, command: &str, duration_ms: u64, result: &Result<String, ToolshedError>) -> (r: JsonValue)
    ensures
        r@ == result_data(seq![("tool"@, Json::Str(tool@)), ("command"@, Json::Str(command@))], duration_ms, match result {
            Ok(o) => seq![("outputLen"@, number(vstd::utf8::encode_utf8(o@).len()))],
            Err(e) => seq![("error"@, Json::Str(error_message(*e)))],
        }),
{
    let mut m: Vec<(String, JsonValue)> = Vec::new();
    m.push(("tool".to_owned(), text_value(tool)));
    m.push(("command".to_owned(), text_value(command)));
    m.push(("durationMs".to_owned(), number_value(duration_ms)));
    match result {
        Ok(o) => {
            let len = o.as_str().as_bytes().len();
            m.push(("outputLen".to_owned(), number_value(len as u64)));
        },
        Err(e) => m.push(("error".to_owned(), JsonValue::String(e.message()))),
    }
    proof {
        lemma_members_view(m@, m@.len());
        assert(members_view(m@, m@.len()) =~= seq![("tool"@, Json::Str(tool@)), ("command"@, Json::Str(command@))] + seq![("durationMs"@, number(duration_ms as nat))] + match result {
            Ok(o) => seq![("outputLen"@, number(vstd::utf8::encode_utf8(o@).len()))],
            Err(e) => seq![("error"@, Json::Str(error_message(*e)))],
        });
    }
    object_value(m)
}

/// The data `workflow run` records before it runs: the workflow, its
/// number of steps, the timeout and whether the run is verbose.
pub fn workflow_run_data(name: &str, steps: usize, timeout: u64, verbose: bool) -> (r: JsonValue)
    ensures
        r@ == Json::Object(seq![
            ("workflow"@, Json::Str(name@)),
            ("steps"@, number(steps as nat)),
            ("timeout"@, number(timeout as nat)),
            ("verbose"@, Json::Bool(verbose)),
        ]),
{
    let mut m: Vec<(String, JsonValue)> = Vec::new();
    m.push(("workflow".to_owned(), text_value(name)));
    m.push(("steps".to_owned(), number_value(steps as u64)));
    m.push(("timeout".to_owned(), number_value(timeout)));
    m.push(("verbose".to_owned(), JsonValue::Bool(verbose)));
    proof {
        lemma_members_view(m@, m@.len());
        assert(members_view(m@, m@.len()) =~= seq![
            ("workflow"@, Json::Str(name@)),
            ("steps"@, number(steps as nat)),
            ("timeout"@, number(timeout as nat)),
            ("verbose"@, Json::Bool(verbose)),
        ]);
    }
    object_value(m)
}

/// The data `workflow run` records when the run is done: the length of its
/// output in bytes, or why it failed.
pub fn workflow_result_data(name: &str, duration_ms: u64, result: &Result<String, ToolshedError>) -> (r: JsonValue)
    ensures
        r@ == result_data(seq![("workflow"@, Json::Str(name@))], duration_ms, match result {
            Ok(o) => seq![("outputLen"@, number(vstd::utf8::encode_utf8(o@).len()))],
            Err(e) => seq![("error"@, Json::Str(error_message(*e)))],
        }),
{
    let mut m: Vec<(String, JsonValue)> = Vec::new();
    m.push(("workflow".to_owned(), text_value(name)));
    m.push(("durationMs".to_owned(), number_value(duration_ms)));
    match result {
        Ok(o) => {
            let len = o.as_str().as_bytes().len();
            m.push(("outputLen".to_owned(), number_value(len as u64)));
        },
        Err(e) => m.push(("error".to_owned(), JsonValue::String(e.message()))),
    }
    proof {
        lemma_members_view(m@, m@.len());
        assert(members_view(m@, m@.len()) =~= seq![("workflow"@, Json::Str(name@))] + seq![("durationMs"@, number(duration_ms as nat))] + match result {
            Ok(o) => seq![("outputLen"@, number(vstd::utf8::encode_utf8(o@).len()))],
            Err(e) => seq![("error"@, Json::Str(error_message(*e)))],
        });
    }
    object_value(m)
}

/// The line that lists a trail file.
pub open spec fn file_line(f: AuditFileInfo) -> Seq<char> {
    f.session_id@ + "  "@ + f.date@ + "  "@ + decimal(f.entry_count as nat) + " entries  "@ + decimal(f.size_bytes as nat)
        + " bytes"@
}

/// The lines of `audit list`: the first `limit` files, or a notice when
/// there are none.
pub fn audit_list_lines(files: &Vec<AuditFileInfo>, limit: usize) -> (r: Vec<String>)
    ensures
        files@.len() == 0 ==> texts(r@) == seq!["No audit files found."@],
        files@.len() > 0 ==> r@.len() == (if limit < files@.len() {
            limit as nat
        } else {
            files@.len()
        }) && forall|i: int| 0 <= i < r@.len() ==> #[trigger] r@[i]@ == file_line(files@[i]),
{
    let mut out: Vec<String> = Vec::new();
    if files.len() == 0 {
        out.push("No audit files found.".to_owned());
        assert(texts(out@) =~= seq!["No audit files found."@]);
        return out;
    }
    let n = if limit < files.len() {
        limit
    } else {
        files.len()
    };
    for i in 0..n
        invariant
            n <= files@.len(),
            out@.len() == i,
            forall|j: int| 0 <= j < i ==> #[trigger] out@[j]@ == file_line(files@[j]),
    {
        let f = &files[i];
        let mut l = to_chars(f.session_id.as_str());
        push_str(&mut l, "  ");
        push_str(&mut l, f.date.as_str());
        push_str(&mut l, "  ");
        append_chars(&mut l, u64_decimal(f.entry_count as u64).as_slice());
        push_str(&mut l, " entries  ");
        append_chars(&mut l, u64_decimal(f.size_bytes).as_slice());
        push_str(&mut l, " bytes");
        out.push(from_chars(&l));
    }
    out
}

/// The files of the sessions whose id holds `session`, in order; all of
/// them without it.
pub fn files_for_session(files: Vec<AuditFileInfo>, session: Option<&str>) -> (r: Vec<AuditFileInfo>)
    ensures
        match session {
            None => r@ == files@,
            Some(s) => r@ == files@.filter(|f: AuditFileInfo| contains(f.session_id@, s@)),
        },
{
    match session {
        None => files,
        Some(s) => {
            let ghost all = files@;
            let sc = to_chars(s);
            let mut rest = files;
            let mut out: Vec<AuditFileInfo> = Vec::new();
            let mut k: usize = 0;
            let total = rest.len();
            while rest.len() > 0
                invariant
                    k <= all.len(),
                    all.len() == total,
                    rest@ == all.skip(k as int),
                    sc@ == s@,
                    out@ == all.take(k as int).filter(|f: AuditFileInfo| contains(f.session_id@, s@)),
                decreases rest@.len(),
            {
                let f = rest.remove(0);
                assert(f == all[k as int]);
                assert(rest@ == all.skip(k + 1));
                assert(all.take(k + 1).drop_last() == all.take(k as int));
                reveal(Seq::filter);
                if contains_vec(to_chars(f.session_id.as_str()).as_slice(), sc.as_slice()) {
                    out.push(f);
                }
                k = k + 1;
            }
            assert(all.take(k as int) == all);
            out
        },
    }
}

/// The line `audit verify` shows for a file: valid with its number of
/// entries, or broken with the reason.
pub open spec fn verify_line(f: AuditFileInfo, r: IntegrityResult) -> Seq<char> {
    if r.valid {
        "VALID  "@ + f.session_id@ + "  ("@ + decimal(r.total_entries as nat) + " entries)"@
    } else {
        "BROKEN "@ + f.session_id@ + "  "@ + match opt_chars(r.error_message) {
            Some(m) => m,
            None => "unknown error"@,
        }
    }
}

/// The report of `audit verify` for the files checked, with their results:
/// a line for each, and an error when any trail is broken; a notice when
/// there are no files.
pub fn audit_verify_report(files: &Vec<AuditFileInfo>, results: &Vec<IntegrityResult>) -> (r: (Vec<String>, Result<(), ToolshedError>))
    requires
        files@.len() == results@.len(),
    ensures
        files@.len() == 0 ==> texts(r.0@) == seq!["No audit files to verify."@] && r.1 is Ok,
        files@.len() > 0 ==> r.0@.len() == files@.len() && (forall|i: int|
            0 <= i < files@.len() ==> #[trigger] r.0@[i]@ == verify_line(files@[i], results@[i])),
        files@.len() > 0 ==> ((exists|i: int| 0 <= i < results@.len() && !(#[trigger] results@[i]).valid) <==> r.1 is Err),
        r.1 matches Err(e) ==> e matches ToolshedError::AuditChainBroken { message } && message@
            == "one or more audit files have broken hash chains"@,
{
    let mut out: Vec<String> = Vec::new();
    if files.len() == 0 {
        out.push("No audit files to verify.".to_owned());
        assert(texts(out@) =~= seq!["No audit files to verify."@]);
        return (out, Ok(()));
    }
    let mut all_valid = true;
    let n = files.len();
    for i in 0..n
        invariant
            n == files@.len() == results@.len(),
            out@.len() == i,
            forall|j: int| 0 <= j < i ==> #[trigger] out@[j]@ == verify_line(files@[j], results@[j]),
            all_valid == forall|j: int| 0 <= j < i ==> (#[trigger] results@[j]).valid,
    {
        let f = &files[i];
        let res = &results[i];
        let mut l: Vec<char>;
        if res.valid {
            l = to_chars("VALID  ");
            push_str(&mut l, f.session_id.as_str());
            push_str(&mut l, "  (");
            append_chars(&mut l, u64_decimal(res.total_entries as u64).as_slice());
            push_str(&mut l, " entries)");
        } else {
            all_valid = false;
            l = to_chars("BROKEN ");
            push_str(&mut l, f.session_id.as_str());
            push_str(&mut l, "  ");
            match &res.error_message {
                Some(m) => push_str(&mut l, m.as_str()),
                None => push_str(&mut l, "unknown error"),
            }
        }
        out.push(from_chars(&l));
    }
    if !all_valid {
        return (out, Err(ToolshedError::AuditChainBroken { message: "one or more audit files have broken hash chains".to_owned() }));
    }
    (out, Ok(()))
}

/// `x` placed before the first entry with an earlier timestamp.
pub open spec fn insert_by_ts(s: Seq<AuditEntry>, x: AuditEntry) -> Seq<AuditEntry>
    decreases s.len(),
{
    if s.len() == 0 {
        seq![x]
    } else if str_lt(s[0].ts@, x.ts@) {
        seq![x] + s
    } else {
        seq![s[0]] + insert_by_ts(s.drop_first(), x)
    }
}

/// The entries, latest timestamp first; entries with the same timestamp
/// keep their order.
pub open spec fn latest_first(s: Seq<AuditEntry>) -> Seq<AuditEntry>
    decreases s.len(),
{
    if s.len() == 0 {
        seq![]
    } else {
        insert_by_ts(latest_first(s.drop_last()), s.last())
    }
}

proof fn lemma_insert_by_ts(s: Seq<AuditEntry>, x: AuditEntry, j: int)
    requires
        0 <= j <= s.len(),
        forall|k: int| 0 <= k < j ==> !str_lt(#[trigger] s[k].ts@, x.ts@),
        j < s.len() ==> str_lt(s[j].ts@, x.ts@),
    ensures
        insert_by_ts(s, x) == s.insert(j, x),
    decreases s.len(),
{
    if s.len() == 0 {
        assert(s.insert(j, x) =~= seq![x]);
    } else if j == 0 {
        assert(s.insert(0, x) =~= seq![x] + s);
    } else {
        let t = s.drop_first();
        assert forall|k: int| 0 <= k < j - 1 implies !str_lt(#[trigger] t[k].ts@, x.ts@) by {
            assert(t[k] == s[k + 1]);
        }
        lemma_insert_by_ts(t, x, j - 1);
        assert(s.insert(j, x) =~= seq![s[0]] + t.insert(j - 1, x));
    }
}

/// The entries that `audit query` gathered from all files, latest first,
/// at most `limit` of them.
pub fn latest_entries(entries: Vec<AuditEntry>, limit: usize) -> (r: Vec<AuditEntry>)
    ensures
        ({
            let l = latest_first(entries@);
            r@ == if l.len() > limit {
                l.take(limit as int)
            } else {
                l
            }
        }),
{
    let total = entries.len();
    let ghost all = entries@;
    let mut rest = entries;
    let mut out: Vec<AuditEntry> = Vec::new();
    let mut k: usize = 0;
    while rest.len() > 0
        invariant
            k <= all.len(),
            all.len() == total,
            rest@ == all.skip(k as int),
            out@ == latest_first(all.take(k as int)),
            out@.len() == k,
        decreases rest@.len(),
    {
        let x = rest.remove(0);
        assert(x == all[k as int]);
        assert(rest@ == all.skip(k + 1));
        let mut j: usize = 0;
        while j < out.len() && !str_less(out[j].ts.as_str(), x.ts.as_str())
            invariant
                j <= out@.len(),
                forall|i: int| 0 <= i < j ==> !str_lt(#[trigger] out@[i].ts@, x.ts@),
            decreases out@.len() - j,
        {
            j = j + 1;
        }
        proof {
            lemma_insert_by_ts(out@, x, j as int);
            assert(all.take(k + 1).drop_last() == all.take(k as int));
            assert(all.take(k + 1).last() == x);
        }
        out.insert(j, x);
        k = k + 1;
    }
    assert(all.take(k as int) == all);
    out.truncate(limit);
    out
}

/// The lines `audit query` prints: each entry's JSON line.
pub fn query_output_lines(entries: &Vec<AuditEntry>) -> (r: Vec<String>)
    ensures
        r@.len() == entries@.len(),
        forall|i: int| 0 <= i < r@.len() ==> #[trigger] r@[i]@ == entry_text(entries@[i]),
{
    let mut out: Vec<String> = Vec::new();
    let n = entries.len();
    for i in 0..n
        invariant
            n == entries@.len(),
            out@.len() == i,
            forall|j: int| 0 <= j < i ==> #[trigger] out@[j]@ == entry_text(entries@[j]),
    {
        out.push(entry_line(&entries[i]));
    }
    out
}

} // verus!
