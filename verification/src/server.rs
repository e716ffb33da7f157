//! The MCP server that exposes every registered tool: its tool index, the
//! schemas it offers, and its answers to JSON-RPC requests. Running a tool
//! and the HTTP plumbing are left to the caller, which hands the outcomes
//! back.

use vstd::prelude::*;
use crate::daemon::state::{DaemonState, Status};
use crate::error::{error_message, ToolshedError};
use crate::json::{
    canonical, canonicalize, clone_json, field, field_of, json_view, lemma_items_view, lemma_members_view, items_view,
    json_text, json_string, member, members_view, text_of, as_text, Json, JsonValue,
};
use crate::manifest::{ArgDef, ArgType, CommandDef, ToolType};
use crate::mcp::{call_result_of, call_text, content_of, contents_of, opt_json, texts_of, tool_def_view, Content, McpToolDef, MCP_PROTOCOL_VERSION};
use crate::namemap::NameMap;
use crate::registry::Registry;
use crate::report::texts;
use crate::text::{append_chars, decimal, from_chars, push_str, to_chars, u64_decimal};

verus! {

/// The JSON Schema type of an argument type.
pub open spec fn schema_type(t: ArgType) -> Seq<char> {
    match t {
        ArgType::String => "string"@,
        ArgType::Int => "integer"@,
        ArgType::Float => "number"@,
        ArgType::Bool => "boolean"@,
    }
}

/// The schema of one argument: its default and description where it has
/// them, and its type.
pub open spec fn arg_schema(a: ArgDef) -> Json {
    Json::Object(match a.default {
        Some(d) => seq![("default"@, d@)],
        None => seq![],
    } + match a.description {
        Some(d) => seq![("description"@, Json::Str(d@))],
        None => seq![],
    } + seq![("type"@, Json::Str(schema_type(a.arg_type)))])
}

/// The names of the first `n` required arguments.
pub open spec fn required_args(args: NameMap<ArgDef>, n: nat) -> Seq<Json>
    decreases n,
{
    if n == 0 || n > args.spec_len() {
        seq![]
    } else {
        let rest = required_args(args, (n - 1) as nat);
        if args.values()[n - 1].required {
            rest.push(Json::Str(args.keys()[n - 1]))
        } else {
            rest
        }
    }
}

/// The input schema of a native command: an object with a property for
/// each argument, and the names of the required ones.
pub open spec fn native_schema(cmd: CommandDef) -> Json {
    let n = cmd.args.spec_len();
    Json::Object(seq![
        ("properties"@, Json::Object(Seq::new(n, |i: int| (cmd.args.keys()[i], arg_schema(cmd.args.values()[i]))))),
        ("required"@, Json::Array(required_args(cmd.args, n))),
        ("type"@, Json::Str("object"@)),
    ])
}

fn str_json(s: &str) -> (r: JsonValue)
    ensures
        r@ == Json::Str(s@),
{
    JsonValue::String(s.to_owned())
}

fn object_of(m: Vec<(String, JsonValue)>) -> (r: JsonValue)
    ensures
        r@ == Json::Object(members_view(m@, m@.len())),
        members_view(m@, m@.len()).len() == m@.len(),
        forall|j: int| 0 <= j < m@.len() ==> #[trigger] members_view(m@, m@.len())[j] == (m@[j].0@, json_view(m@[j].1)),
{
    proof {
        lemma_members_view(m@, m@.len());
    }
    JsonValue::Object(m)
}

fn array_of(a: Vec<JsonValue>) -> (r: JsonValue)
    ensures
        r@ == Json::Array(items_view(a@, a@.len())),
        items_view(a@, a@.len()).len() == a@.len(),
        forall|j: int| 0 <= j < a@.len() ==> #[trigger] items_view(a@, a@.len())[j] == json_view(a@[j]),
{
    proof {
        lemma_items_view(a@, a@.len());
    }
    JsonValue::Array(a)
}

/// The input schema that the server offers for a native command.
pub fn build_native_schema(cmd: &CommandDef) -> (r: JsonValue)
    ensures
        r@ == native_schema(*cmd),
{
    let mut props: Vec<(String, JsonValue)> = Vec::new();
    let mut required: Vec<JsonValue> = Vec::new();
    let n = cmd.args.len();
    for i in 0..n
        invariant
            n == cmd.args.spec_len(),
            props@.len() == i,
            forall|j: int| 0 <= j < i ==> (#[trigger] props@[j]).0@ == cmd.args.keys()[j] && json_view(props@[j].1)
                == arg_schema(cmd.args.values()[j]),
            items_view(required@, required@.len()) == required_args(cmd.args, i as nat),
    {
        let name = cmd.args.key_at(i);
        let a = cmd.args.value_at(i);
        let mut p: Vec<(String, JsonValue)> = Vec::new();
        match &a.default {
            Some(d) => p.push(("default".to_owned(), clone_json(d))),
            None => {},
        }
        match &a.description {
            Some(d) => p.push(("description".to_owned(), JsonValue::String(d.clone()))),
            None => {},
        }
        let t = match a.arg_type {
            ArgType::String => "string",
            ArgType::Int => "integer",
            ArgType::Float => "number",
            ArgType::Bool => "boolean",
        };
        p.push(("type".to_owned(), str_json(t)));
        let ghost pv = p@;
        let pj = object_of(p);
        assert(members_view(pv, pv.len()) =~= match arg_schema(*a) {
            Json::Object(x) => x,
            _ => seq![],
        });
        props.push((name.clone(), pj));
        if a.required {
            let ghost before = required@;
            required.push(str_json(name.as_str()));
            proof {
                lemma_items_view(required@, required@.len());
                lemma_items_view(before, before.len());
                assert(items_view(required@, required@.len()) =~= items_view(before, before.len()).push(Json::Str(name@)));
            }
        }
    }
    let ghost pv = props@;
    let ghost rv = required@;
    let pj = object_of(props);
    let rj = array_of(required);
    let mut m: Vec<(String, JsonValue)> = Vec::new();
    m.push(("properties".to_owned(), pj));
    m.push(("required".to_owned(), rj));
    m.push(("type".to_owned(), str_json("object")));
    let ghost mv = m@;
    let r = object_of(m);
    assert(members_view(pv, pv.len()) =~= Seq::new(n as nat, |i: int| (cmd.args.keys()[i], arg_schema(cmd.args.values()[i]))));
    assert(members_view(mv, mv.len()) =~= match native_schema(*cmd) {
        Json::Object(x) => x,
        _ => seq![],
    });
    r
}

/// Whether an object has a member named `key`.
pub open spec fn has_key(m: Seq<(Seq<char>, Json)>, key: Seq<char>) -> bool {
    member(m, key) is Some
}

/// The types that the first `n` alternatives of an `anyOf` name, other
/// than `null`.
pub open spec fn alternative_types(a: Seq<Json>, n: nat) -> Seq<Seq<char>>
    decreases n,
{
    if n == 0 || n > a.len() {
        seq![]
    } else {
        let rest = alternative_types(a, (n - 1) as nat);
        match text_of(field_of(a[n - 1], "type"@)) {
            Some(t) => if t != "null"@ {
                rest.push(t)
            } else {
                rest
            },
            None => rest,
        }
    }
}

/// An object whose `anyOf` stands in for its type: the `anyOf` is dropped
/// and, when it was a list, its first type other than `null` (or `string`)
/// becomes the object's type.
pub open spec fn resolve_any_of(m: Seq<(Seq<char>, Json)>) -> Seq<(Seq<char>, Json)> {
    if has_key(m, "anyOf"@) && !has_key(m, "type"@) {
        let rest = m.filter(|e: (Seq<char>, Json)| e.0 != "anyOf"@);
        match member(m, "anyOf"@) {
            Some(Json::Array(a)) => {
                let ts = alternative_types(a, a.len());
                rest.push(("type"@, Json::Str(if ts.len() == 0 {
                    "string"@
                } else {
                    ts[0]
                })))
            },
            _ => rest,
        }
    } else {
        m
    }
}

/// A schema with every property and item schema given a type where it had
/// only an `anyOf`, at every depth.
pub open spec fn sanitized(v: Json) -> Json
    decreases v, 0nat,
{
    match v {
        Json::Object(m) => Json::Object(resolve_any_of(descended(m, m.len()))),
        _ => v,
    }
}

/// The first `n` members, with the schemas under `properties` and `items`
/// sanitized.
pub open spec fn descended(m: Seq<(Seq<char>, Json)>, n: nat) -> Seq<(Seq<char>, Json)>
    decreases m, n,
{
    if n == 0 || n > m.len() {
        seq![]
    } else {
        let k = m[n - 1].0;
        let v = m[n - 1].1;
        let nv = if k == "properties"@ {
            match v {
                Json::Object(p) => Json::Object(sanitized_props(p, p.len())),
                _ => v,
            }
        } else if k == "items"@ {
            sanitized(v)
        } else {
            v
        };
        descended(m, (n - 1) as nat).push((k, nv))
    }
}

/// The first `n` properties, each schema sanitized.
pub open spec fn sanitized_props(p: Seq<(Seq<char>, Json)>, n: nat) -> Seq<(Seq<char>, Json)>
    decreases p, n,
{
    if n == 0 || n > p.len() {
        seq![]
    } else {
        sanitized_props(p, (n - 1) as nat).push((p[n - 1].0, sanitized(p[n - 1].1)))
    }
}


fn is_key(k: &String, name: &str) -> (r: bool)
    ensures
        r == (k@ == name@),
{
    crate::text::chars_eq(&to_chars(k.as_str()), &to_chars(name))
}

fn resolved(d: Vec<(String, JsonValue)>) -> (r: Vec<(String, JsonValue)>)
    ensures
        members_view(r@, r@.len()) == resolve_any_of(members_view(d@, d@.len())),
{
    let ghost dv = members_view(d@, d@.len());
    proof {
        lemma_members_view(d@, d@.len());
    }
    let obj = JsonValue::Object(d);
    let has_any = field(&obj, "anyOf").is_some();
    let has_type = field(&obj, "type").is_some();
    let d = match obj {
        JsonValue::Object(d) => d,
        _ => {
            assert(false);
            Vec::new()
        },
    };
    if !(has_any && !has_type) {
        return d;
    }
    let mut types: Vec<String> = Vec::new();
    let mut found_list = false;
    let mut rest: Vec<(String, JsonValue)> = Vec::new();
    let n = d.len();
    for i in 0..n
        invariant
            n == d@.len() == dv.len(),
            dv == members_view(d@, d@.len()),
            forall|j: int| 0 <= j < n ==> #[trigger] dv[j] == (d@[j].0@, json_view(d@[j].1)),
            members_view(rest@, rest@.len()) == dv.take(i as int).filter(|e: (Seq<char>, Json)| e.0 != "anyOf"@),
    {
        let ghost before = rest@;
        proof {
            lemma_members_view(before, before.len());
        }
        assert(dv.take(i + 1).drop_last() == dv.take(i as int));
        reveal(Seq::filter);
        if !is_key(&d[i].0, "anyOf") {
            rest.push((d[i].0.clone(), clone_json(&d[i].1)));
            proof {
                lemma_members_view(rest@, rest@.len());
                assert(members_view(rest@, rest@.len()) =~= members_view(before, before.len()).push(dv[i as int]));
            }
        }
    }
    assert(dv.take(n as int) == dv);
    let obj = JsonValue::Object(d);
    match field(&obj, "anyOf") {
        Some(JsonValue::Array(a)) => {
            let ghost items = items_view(a@, a@.len());
            proof {
                lemma_items_view(a@, a@.len());
            }
            let na = a.len();
            for j in 0..na
                invariant
                    na == a@.len() == items.len(),
                    items == items_view(a@, a@.len()),
                    forall|k: int| 0 <= k < na ==> #[trigger] items[k] == json_view(a@[k]),
                    texts(types@) == alternative_types(items, j as nat),
            {
                assert(items[j as int] == a@[j as int]@);
                match as_text(field(&a[j], "type")) {
                    Some(t) => {
                        if !crate::text::chars_eq(&to_chars(t.as_str()), &to_chars("null")) {
                            let ghost tb = types@;
                            types.push(t);
                            assert(texts(types@) =~= texts(tb).push(t@));
                        }
                    },
                    None => {},
                }
            }
            let ty = if types.len() == 0 {
                "string".to_owned()
            } else {
                types[0].clone()
            };
            let ghost before = rest@;
            proof {
                lemma_members_view(before, before.len());
            }
            rest.push(("type".to_owned(), JsonValue::String(ty)));
            proof {
                lemma_members_view(rest@, rest@.len());
                assert(members_view(rest@, rest@.len()) =~= members_view(before, before.len()).push(("type"@, Json::Str(ty@))));
            }
            rest
        },
        _ => rest,
    }
}

/// A copy of `schema` in which every property and item schema that has an
/// `anyOf` and no type gets a type, at every depth, so that clients that
/// need a type on each property can read it.
pub fn sanitize_schema(v: &JsonValue) -> (r: JsonValue)
    ensures
        r@ == sanitized(v@),
    decreases v,
{
    match v {
        JsonValue::Object(m) => {
            let ghost mv = members_view(m@, m@.len());
            proof {
                lemma_members_view(m@, m@.len());
                assert(decreases_to!(*v => *m));
            }
            let mut d: Vec<(String, JsonValue)> = Vec::new();
            let n = m.len();
            for i in 0..n
                invariant
                    *v == JsonValue::Object(*m),
                    decreases_to!(*v => *m),
                    n == m@.len() == mv.len(),
                    mv == members_view(m@, m@.len()),
                    forall|j: int| 0 <= j < n ==> #[trigger] mv[j] == (m@[j].0@, json_view(m@[j].1)),
                    d@.len() == i,
                    members_view(d@, i as nat) == descended(mv, i as nat),
            {
                proof {
                    assert(decreases_to!(*m => m[i as int]));
                    assert(decreases_to!(m[i as int] => m[i as int].1));
                }
                let k = &m[i].0;
                let val = &m[i].1;
                assert(mv[i as int] == (k@, val@));
                let nv = if is_key(k, "properties") {
                    match val {
                        JsonValue::Object(p) => {
                            let ghost pv = members_view(p@, p@.len());
                            proof {
                                lemma_members_view(p@, p@.len());
                                assert(decreases_to!(*val => *p));
                            }
                            let mut sp: Vec<(String, JsonValue)> = Vec::new();
                            let np = p.len();
                            for j in 0..np
                                invariant
                                    *val == JsonValue::Object(*p),
                                    decreases_to!(*v => *val),
                                    decreases_to!(*val => *p),
                                    np == p@.len() == pv.len(),
                                    pv == members_view(p@, p@.len()),
                                    forall|q: int| 0 <= q < np ==> #[trigger] pv[q] == (p@[q].0@, json_view(p@[q].1)),
                                    sp@.len() == j,
                                    members_view(sp@, j as nat) == sanitized_props(pv, j as nat),
                            {
                                proof {
                                    assert(decreases_to!(*p => p[j as int]));
                                    assert(decreases_to!(p[j as int] => p[j as int].1));
                                }
                                let c = sanitize_schema(&p[j].1);
                                let ghost before = sp@;
                                sp.push((p[j].0.clone(), c));
                                proof {
                                    lemma_members_view(sp@, j as nat);
                                    lemma_members_view(before, j as nat);
                                    lemma_members_view(sp@, (j + 1) as nat);
                                    assert(members_view(sp@, j as nat) =~= members_view(before, j as nat));
                                    assert(pv[j as int] == (p@[j as int].0@, p@[j as int].1@));
                                }
                            }
                            JsonValue::Object(sp)
                        },
                        _ => clone_json(val),
                    }
                } else if is_key(k, "items") {
                    sanitize_schema(val)
                } else {
                    clone_json(val)
                };
                assert(json_view(nv) == (if k@ == "properties"@ {
                    match val@ {
                        Json::Object(p) => Json::Object(sanitized_props(p, p.len())),
                        _ => val@,
                    }
                } else if k@ == "items"@ {
                    sanitized(val@)
                } else {
                    val@
                }));
                let ghost before = d@;
                d.push((k.clone(), nv));
                proof {
                    lemma_members_view(d@, (i + 1) as nat);
                    lemma_members_view(d@, i as nat);
                    lemma_members_view(before, i as nat);
                    assert(members_view(d@, i as nat) =~= members_view(before, i as nat));
                }
            }
            let r = resolved(d);
            JsonValue::Object(r)
        },
        _ => clone_json(v),
    }
}


/// How a value is written as a word of a command line: a string as it is,
/// a boolean or a number as its text, anything else as its JSON.
pub open spec fn cli_value(v: Json) -> Seq<char> {
    match v {
        Json::Str(s) => s,
        Json::Bool(b) => if b {
            "true"@
        } else {
            "false"@
        },
        Json::Number(t) => t,
        _ => json_text(v),
    }
}

/// The values given for the first `n` arguments of a command that are (or
/// are not) positional, with their names.
pub open spec fn given_args(args: NameMap<ArgDef>, m: Seq<(Seq<char>, Json)>, n: nat, positional: bool) -> Seq<(Seq<char>, Seq<char>)>
    decreases n,
{
    if n == 0 || n > args.spec_len() {
        seq![]
    } else {
        let rest = given_args(args, m, (n - 1) as nat, positional);
        let name = args.keys()[n - 1];
        match member(m, name) {
            Some(v) => if args.values()[n - 1].positional == positional {
                rest.push((name, cli_value(v)))
            } else {
                rest
            },
            None => rest,
        }
    }
}

/// The words of flags: `--name` and the value of each.
pub open spec fn flag_words(flags: Seq<(Seq<char>, Seq<char>)>) -> Seq<Seq<char>>
    decreases flags.len(),
{
    if flags.len() == 0 {
        seq![]
    } else {
        flag_words(flags.drop_last()) + seq!["--"@ + flags.last().0, flags.last().1]
    }
}

/// The command line that a call's JSON arguments make for a native
/// command: the values of its positional arguments, in the order of their
/// names, then `--name value` for each other argument given.
pub open spec fn cli_args(cmd: CommandDef, arguments: Json) -> Seq<Seq<char>> {
    match arguments {
        Json::Object(m) => {
            let n = cmd.args.spec_len();
            given_args(cmd.args, m, n, true).map_values(|p: (Seq<char>, Seq<char>)| p.1) + flag_words(
                given_args(cmd.args, m, n, false),
            )
        },
        _ => seq![],
    }
}

proof fn lemma_flag_words_layout(flags: Seq<(Seq<char>, Seq<char>)>)
    ensures
        flag_words(flags).len() == 2 * flags.len(),
        forall|k: int|
            0 <= k < flags.len() ==> flag_words(flags)[2 * k] == "--"@ + (#[trigger] flags[k]).0 && flag_words(
                flags,
            )[2 * k + 1] == flags[k].1,
    decreases flags.len(),
{
    if flags.len() > 0 {
        let init = flags.drop_last();
        lemma_flag_words_layout(init);
        assert forall|k: int|
            0 <= k < flags.len() implies flag_words(flags)[2 * k] == "--"@ + (#[trigger] flags[k]).0 && flag_words(
            flags,
        )[2 * k + 1] == flags[k].1 by {
            if k < init.len() {
                assert(flags[k] == init[k]);
            }
        }
    }
}

/// The command line of a call with object arguments: first the value of
/// each positional argument given, in name order; then, for each other
/// argument given, in name order, the word `--name` immediately followed
/// by its value, and nothing else.
pub proof fn lemma_flags_follow_positionals(cmd: CommandDef, m: Seq<(Seq<char>, Json)>)
    ensures
        ({
            let n = cmd.args.spec_len();
            let pos = given_args(cmd.args, m, n, true);
            let flags = given_args(cmd.args, m, n, false);
            let r = cli_args(cmd, Json::Object(m));
            &&& r.len() == pos.len() + 2 * flags.len()
            &&& forall|i: int| 0 <= i < pos.len() ==> r[i] == (#[trigger] pos[i]).1
            &&& forall|k: int|
                0 <= k < flags.len() ==> r[pos.len() + 2 * k] == "--"@ + (#[trigger] flags[k]).0 && r[pos.len() + 2
                    * k + 1] == flags[k].1
        }),
{
    let n = cmd.args.spec_len();
    let pos = given_args(cmd.args, m, n, true);
    let flags = given_args(cmd.args, m, n, false);
    let pv = pos.map_values(|p: (Seq<char>, Seq<char>)| p.1);
    lemma_flag_words_layout(flags);
    let r = cli_args(cmd, Json::Object(m));
    assert(r == pv + flag_words(flags));
    assert forall|k: int| 0 <= k < flags.len() implies r[pos.len() + 2 * k] == "--"@ + (#[trigger] flags[k]).0
        && r[pos.len() + 2 * k + 1] == flags[k].1 by {
        assert(r[pos.len() + 2 * k] == flag_words(flags)[2 * k]);
        assert(r[pos.len() + 2 * k + 1] == flag_words(flags)[2 * k + 1]);
    }
}

/// The arguments given for the first `n` declared arguments of one kind
/// (positional or not) are exactly those declared arguments of that kind
/// that the call's object names, in the order the declarations are listed
/// (name order), each with its value as a command-line word. The result
/// lists, for each one, the position of its declaration.
pub proof fn lemma_given_args_in_name_order(
    args: NameMap<ArgDef>,
    m: Seq<(Seq<char>, Json)>,
    n: nat,
    positional: bool,
) -> (idx: Seq<int>)
    requires
        n <= args.spec_len(),
    ensures
        idx.len() == given_args(args, m, n, positional).len(),
        forall|i: int| 0 <= i < idx.len() ==> 0 <= #[trigger] idx[i] < n,
        forall|i: int, i2: int| 0 <= i < i2 < idx.len() ==> #[trigger] idx[i] < #[trigger] idx[i2],
        forall|i: int|
            0 <= i < idx.len() ==> args.values()[#[trigger] idx[i]].positional == positional && member(
                m,
                args.keys()[idx[i]],
            ) is Some && given_args(args, m, n, positional)[i] == (args.keys()[idx[i]], cli_value(
                member(m, args.keys()[idx[i]])->0,
            )),
        forall|j: int|
            0 <= j < n && (#[trigger] args.values()[j]).positional == positional && member(m, args.keys()[j]) is Some
                ==> idx.contains(j),
    decreases n,
{
    if n == 0 {
        Seq::empty()
    } else {
        let prev = lemma_given_args_in_name_order(args, m, (n - 1) as nat, positional);
        let j = n - 1;
        let g0 = given_args(args, m, (n - 1) as nat, positional);
        if args.values()[j].positional == positional && member(m, args.keys()[j]) is Some {
            let idx = prev.push(j as int);
            assert forall|q: int|
                0 <= q < n && (#[trigger] args.values()[q]).positional == positional && member(m, args.keys()[q])
                    is Some implies idx.contains(q) by {
                if q < n - 1 {
                    let w = choose|w: int| 0 <= w < prev.len() && prev[w] == q;
                    assert(idx[w] == q);
                } else {
                    assert(idx[idx.len() - 1] == q);
                }
            }
            assert forall|i: int| 0 <= i < idx.len() implies given_args(args, m, n, positional)[i] == (
                args.keys()[idx[i]],
                cli_value(member(m, args.keys()[idx[i]])->0),
            ) by {
                if i < prev.len() {
                    assert(given_args(args, m, n, positional)[i] == g0[i]);
                }
            }
            idx
        } else {
            assert forall|q: int|
                0 <= q < n && (#[trigger] args.values()[q]).positional == positional && member(m, args.keys()[q])
                    is Some implies prev.contains(q) by {
                assert(q < n - 1);
            }
            prev
        }
    }
}

fn cli_value_of(v: &JsonValue) -> (r: String)
    ensures
        r@ == cli_value(v@),
{
    match v {
        JsonValue::String(s) => s.clone(),
        JsonValue::Bool(b) => if *b {
            "true".to_owned()
        } else {
            "false".to_owned()
        },
        JsonValue::Number(t) => t.clone(),
        _ => json_string(v),
    }
}

/// The command line that the JSON arguments of a call make for a native
/// command.
pub fn json_to_cli_args(cmd: &CommandDef, arguments: &JsonValue) -> (r: Vec<String>)
    ensures
        texts(r@) == cli_args(*cmd, arguments@),
{
    let mut out: Vec<String> = Vec::new();
    match arguments {
        JsonValue::Object(_) => {
            let ghost m = match arguments@ {
                Json::Object(x) => x,
                _ => seq![],
            };
            let mut pos: Vec<String> = Vec::new();
            let mut flags: Vec<String> = Vec::new();
            let ghost flag_pairs: Seq<(Seq<char>, Seq<char>)> = seq![];
            let ghost pos_pairs: Seq<(Seq<char>, Seq<char>)> = seq![];
            let n = cmd.args.len();
            for i in 0..n
                invariant
                    n == cmd.args.spec_len(),
                    arguments@ == Json::Object(m),
                    pos_pairs == given_args(cmd.args, m, i as nat, true),
                    flag_pairs == given_args(cmd.args, m, i as nat, false),
                    texts(pos@) == pos_pairs.map_values(|p: (Seq<char>, Seq<char>)| p.1),
                    texts(flags@) == flag_words(flag_pairs),
            {
                let name = cmd.args.key_at(i);
                let a = cmd.args.value_at(i);
                match field(arguments, name.as_str()) {
                    Some(v) => {
                        let val = cli_value_of(v);
                        if a.positional {
                            let ghost b = pos@;
                            proof {
                                pos_pairs = pos_pairs.push((name@, val@));
                            }
                            pos.push(val);
                            assert(texts(pos@) =~= texts(b).push(val@));
                            assert(pos_pairs.map_values(|p: (Seq<char>, Seq<char>)| p.1) =~= texts(b).push(val@));
                        } else {
                            let ghost b = flags@;
                            let mut f = to_chars("--");
                            push_str(&mut f, name.as_str());
                            proof {
                                assert(flag_pairs.push((name@, val@)).drop_last() == flag_pairs);
                                flag_pairs = flag_pairs.push((name@, val@));
                            }
                            flags.push(from_chars(&f));
                            flags.push(val);
                            assert(texts(flags@) =~= texts(b) + seq!["--"@ + name@, val@]);
                        }
                    },
                    None => {},
                }
            }
            let ghost pv = texts(pos@);
            let ghost fv = texts(flags@);
            out = pos;
            let nf = flags.len();
            for j in 0..nf
                invariant
                    nf == flags@.len(),
                    fv == texts(flags@),
                    texts(out@) == pv + fv.take(j as int),
            {
                let ghost b = out@;
                out.push(flags[j].clone());
                assert(texts(out@) =~= texts(b).push(fv[j as int]));
                assert(fv.take(j + 1) == fv.take(j as int).push(fv[j as int]));
            }
            assert(fv.take(nf as int) == fv);
        },
        _ => {
            assert(texts(out@) =~= seq![]);
        },
    }
    out
}


/// A tool as the server offers it: under `tool__command`, with the
/// description and schema clients see, and what it runs.
#[derive(Debug)]
pub struct ExposedTool {
    pub namespaced_name: String,
    pub def: McpToolDef,
    pub tool_name: String,
    pub command_name: String,
    pub tool_type: ToolType,
}

/// The model of an offered tool.
pub open spec fn exposed_view(e: ExposedTool) -> (Seq<char>, (Seq<char>, Option<Seq<char>>, Option<Json>), Seq<char>, Seq<char>, ToolType) {
    (e.namespaced_name@, tool_def_view(e.def), e.tool_name@, e.command_name@, e.tool_type)
}

/// The models of offered tools.
pub open spec fn exposed_views(s: Seq<ExposedTool>) -> Seq<(Seq<char>, (Seq<char>, Option<Seq<char>>, Option<Json>), Seq<char>, Seq<char>, ToolType)> {
    s.map_values(|e: ExposedTool| exposed_view(e))
}

/// The name under which the server offers a command of a tool.
pub open spec fn namespaced(tool: Seq<char>, command: Seq<char>) -> Seq<char> {
    tool + "__"@ + command
}

/// What the server offers of a native tool: each of its commands, with the
/// tool's and the command's description and the command's schema.
pub open spec fn native_offers(name: Seq<char>, m: crate::manifest::ToolManifest) -> Seq<(Seq<char>, (Seq<char>, Option<Seq<char>>, Option<Json>), Seq<char>, Seq<char>, ToolType)> {
    Seq::new(m.commands.spec_len(), |i: int| {
        let ns = namespaced(name, m.commands.keys()[i]);
        (
            ns,
            (ns, Some(m.description@ + " — "@ + m.commands.values()[i].description@), Some(native_schema(m.commands.values()[i]))),
            name,
            m.commands.keys()[i],
            ToolType::Native,
        )
    })
}

/// What the server offers of an MCP tool whose server lists `defs`: each
/// of them, its schema sanitized.
pub open spec fn mcp_offers(name: Seq<char>, defs: Seq<McpToolDef>) -> Seq<(Seq<char>, (Seq<char>, Option<Seq<char>>, Option<Json>), Seq<char>, Seq<char>, ToolType)> {
    Seq::new(defs.len(), |i: int| {
        let ns = namespaced(name, defs[i].name@);
        (
            ns,
            (ns, crate::audit::opt_chars(defs[i].description), match opt_json(defs[i].input_schema) {
                Some(s) => Some(sanitized(s)),
                None => None,
            }),
            name,
            defs[i].name@,
            ToolType::Mcp,
        )
    })
}

/// What the server offers of the first `k` registered tools in the
/// category (all when none is given); MCP tools whose listing failed offer
/// nothing.
pub open spec fn offers(reg: Registry, category: Option<Seq<char>>, listed: Map<Seq<char>, Vec<McpToolDef>>, k: nat) -> Seq<(Seq<char>, (Seq<char>, Option<Seq<char>>, Option<Json>), Seq<char>, Seq<char>, ToolType)>
    decreases k,
{
    if k == 0 || k > reg.tools.spec_len() {
        seq![]
    } else {
        let prev = offers(reg, category, listed, (k - 1) as nat);
        let name = reg.tools.keys()[k - 1];
        let t = reg.tools.values()[k - 1];
        if category matches Some(c) && t.manifest.category@ != c {
            prev
        } else {
            match t.manifest.tool_type {
                ToolType::Native => prev + native_offers(name, t.manifest),
                ToolType::Mcp => if listed.contains_key(name) {
                    prev + mcp_offers(name, listed[name]@)
                } else {
                    prev
                },
            }
        }
    }
}

/// The tools the server offers: every command of each native tool, and
/// every tool that each MCP tool's server listed (in `listed`), of the
/// category when one is given, in the order of the tools' names.
pub fn build_tool_index(reg: &Registry, category: Option<&str>, listed: &NameMap<Vec<McpToolDef>>) -> (r: Vec<ExposedTool>)
    requires
        listed.wf(),
    ensures
        exposed_views(r@) == offers(*reg, match category {
            Some(c) => Some(c@),
            None => None,
        }, listed@, reg.tools.spec_len()),
{
    let ghost cat = match category {
        Some(c) => Some(c@),
        None => None::<Seq<char>>,
    };
    let mut out: Vec<ExposedTool> = Vec::new();
    let n = reg.tools.len();
    assert(exposed_views(out@) =~= seq![]);
    for k in 0..n
        invariant
            n == reg.tools.spec_len(),
            listed.wf(),
            cat == match category {
                Some(c) => Some(c@),
                None => None::<Seq<char>>,
            },
            exposed_views(out@) == offers(*reg, cat, listed@, k as nat),
    {
        let name = reg.tools.key_at(k);
        let t = reg.tools.value_at(k);
        let skip = match category {
            Some(c) => !crate::text::chars_eq(&to_chars(t.manifest.category.as_str()), &to_chars(c)),
            None => false,
        };
        if !skip {
            let ghost base = exposed_views(out@);
            match t.manifest.tool_type {
                ToolType::Native => {
                    let nc = t.manifest.commands.len();
                    for i in 0..nc
                        invariant
                            nc == t.manifest.commands.spec_len(),
                            exposed_views(out@) == base + native_offers(name@, t.manifest).take(i as int),
                    {
                        let cn = t.manifest.commands.key_at(i);
                        let cd = t.manifest.commands.value_at(i);
                        let mut ns = to_chars(name.as_str());
                        push_str(&mut ns, "__");
                        push_str(&mut ns, cn.as_str());
                        let mut d = to_chars(t.manifest.description.as_str());
                        push_str(&mut d, " — ");
                        push_str(&mut d, cd.description.as_str());
                        let e = ExposedTool {
                            namespaced_name: from_chars(&ns),
                            def: McpToolDef {
                                name: from_chars(&ns),
                                description: Some(from_chars(&d)),
                                input_schema: Some(build_native_schema(cd)),
                            },
                            tool_name: name.clone(),
                            command_name: cn.clone(),
                            tool_type: ToolType::Native,
                        };
                        let ghost b = out@;
                        out.push(e);
                        assert(exposed_views(out@) =~= exposed_views(b).push(exposed_view(e)));
                        assert(native_offers(name@, t.manifest).take(i + 1) =~= native_offers(name@, t.manifest).take(i as int).push(exposed_view(e)));
                    }
                    assert(native_offers(name@, t.manifest).take(nc as int) =~= native_offers(name@, t.manifest));
                },
                ToolType::Mcp => {
                    match listed.get(name.as_str()) {
                        Some(defs) => {
                            let nd = defs.len();
                            for i in 0..nd
                                invariant
                                    nd == defs@.len(),
                                    exposed_views(out@) == base + mcp_offers(name@, defs@).take(i as int),
                            {
                                let def = &defs[i];
                                let mut ns = to_chars(name.as_str());
                                push_str(&mut ns, "__");
                                push_str(&mut ns, def.name.as_str());
                                let schema = match &def.input_schema {
                                    Some(sc) => Some(sanitize_schema(sc)),
                                    None => None,
                                };
                                let e = ExposedTool {
                                    namespaced_name: from_chars(&ns),
                                    def: McpToolDef { name: from_chars(&ns), description: def.description.clone(), input_schema: schema },
                                    tool_name: name.clone(),
                                    command_name: def.name.clone(),
                                    tool_type: ToolType::Mcp,
                                };
                                let ghost b = out@;
                                out.push(e);
                                assert(exposed_views(out@) =~= exposed_views(b).push(exposed_view(e)));
                                assert(mcp_offers(name@, defs@).take(i + 1) =~= mcp_offers(name@, defs@).take(i as int).push(exposed_view(e)));
                            }
                            assert(mcp_offers(name@, defs@).take(nd as int) =~= mcp_offers(name@, defs@));
                        },
                        None => {},
                    }
                },
            }
        }
    }
    out
}


/// A reply of the server: to a request with this id, a result or an error
/// with its code and message.
#[derive(Debug)]
pub struct RpcReply {
    pub id: Option<JsonValue>,
    pub result: Option<JsonValue>,
    pub error: Option<(i64, String)>,
}

/// The JSON of a reply: `jsonrpc`, then the id, the result (keys sorted)
/// and the error where there are any.
pub open spec fn reply_json(r: RpcReply) -> Json {
    Json::Object(seq![("jsonrpc"@, Json::Str("2.0"@))] + match r.id {
        Some(i) => seq![("id"@, i@)],
        None => seq![],
    } + match r.result {
        Some(v) => seq![("result"@, canonical(v@))],
        None => seq![],
    } + match r.error {
        Some((code, message)) => seq![("error"@, Json::Object(seq![("code"@, Json::Number(decimal_signed_of(code))), ("message"@, Json::Str(message@))]))],
        None => seq![],
    })
}

/// The decimal text of a signed number.
pub open spec fn decimal_signed_of(n: i64) -> Seq<char> {
    crate::text::decimal_signed(n as int)
}

/// The JSON of a reply.
pub fn reply_to_json(r: &RpcReply) -> (v: JsonValue)
    ensures
        v@ == reply_json(*r),
{
    let mut m: Vec<(String, JsonValue)> = Vec::new();
    m.push(("jsonrpc".to_owned(), str_json("2.0")));
    match &r.id {
        Some(i) => m.push(("id".to_owned(), clone_json(i))),
        None => {},
    }
    match &r.result {
        Some(v) => m.push(("result".to_owned(), canonicalize(v))),
        None => {},
    }
    match &r.error {
        Some((code, message)) => {
            let mut e: Vec<(String, JsonValue)> = Vec::new();
            e.push(("code".to_owned(), JsonValue::Number(from_chars(&crate::text::i64_decimal(*code)))));
            e.push(("message".to_owned(), JsonValue::String(message.clone())));
            let ghost ev = e@;
            let ej = object_of(e);
            assert(members_view(ev, ev.len()) =~= seq![("code"@, Json::Number(decimal_signed_of(*code))), ("message"@, Json::Str(message@))]);
            m.push(("error".to_owned(), ej));
        },
        None => {},
    }
    let ghost mv = m@;
    let v = object_of(m);
    assert(members_view(mv, mv.len()) =~= match reply_json(*r) {
        Json::Object(x) => x,
        _ => seq![],
    });
    v
}

/// An error reply.
pub open spec fn error_reply(r: RpcReply, id: Option<JsonValue>, code: i64, message: Seq<char>) -> bool {
    &&& r.id == id
    &&& r.result is None
    &&& r.error matches Some((c, m)) && c == code && m@ == message
}

/// A reply with a result.
pub open spec fn result_reply(r: RpcReply, id: Option<JsonValue>, result: Json) -> bool {
    &&& r.id == id
    &&& r.error is None
    &&& r.result matches Some(v) && v@ == result
}

/// What the server answers to `initialize`.
pub open spec fn initialize_result() -> Json {
    Json::Object(seq![
        ("capabilities"@, Json::Object(seq![("tools"@, Json::Object(seq![]))])),
        ("protocolVersion"@, Json::Str(MCP_PROTOCOL_VERSION@)),
        ("serverInfo"@, Json::Object(seq![("name"@, Json::Str("toolshed"@)), ("version"@, Json::Str("0.1.0"@))])),
    ])
}

/// The JSON of a tool description: its description and input schema where
/// it has them, and its name.
pub open spec fn def_json(d: (Seq<char>, Option<Seq<char>>, Option<Json>)) -> Json {
    Json::Object(match d.1 {
        Some(x) => seq![("description"@, Json::Str(x))],
        None => seq![],
    } + match d.2 {
        Some(s) => seq![("inputSchema"@, s)],
        None => seq![],
    } + seq![("name"@, Json::Str(d.0))])
}

/// What the server answers to `tools/list`: the tools it offers.
pub open spec fn tools_list_result(ex: Seq<ExposedTool>) -> Json {
    Json::Object(seq![("tools"@, Json::Array(Seq::new(ex.len(), |i: int| def_json(tool_def_view(ex[i].def)))))])
}

/// The result of a tool call: its output as one text item, and whether it
/// failed.
pub open spec fn call_result(text: Seq<char>, is_error: bool) -> Json {
    Json::Object(seq![
        ("content"@, Json::Array(seq![Json::Object(seq![("text"@, Json::Str(text)), ("type"@, Json::Str("text"@))])])),
        ("isError"@, Json::Bool(is_error)),
    ])
}

/// What the server answers for a tool call reads back, for an MCP client,
/// as one text item holding the output, with the same error flag; the
/// output the client shows is that text.
pub proof fn lemma_call_result_reads_back(text: Seq<char>, is_error: bool)
    ensures
        call_result_of(call_result(text, is_error)) == Ok::<(Seq<Content>, bool), Seq<char>>(
            (seq![Content::Text(text)], is_error),
        ),
        call_text(seq![Content::Text(text)]) == text,
{
    reveal_strlit("content");
    reveal_strlit("isError");
    reveal_strlit("text");
    reveal_strlit("type");
    let item = seq![("text"@, Json::Str(text)), ("type"@, Json::Str("text"@))];
    let m = seq![("content"@, Json::Array(seq![Json::Object(item)])), ("isError"@, Json::Bool(is_error))];
    assert("content"@ != "isError"@) by {
        assert("content"@[0] != "isError"@[0]);
    }
    assert("text"@ != "type"@) by {
        assert("text"@[1] != "type"@[1]);
    }
    assert(call_result(text, is_error) == Json::Object(m));
    assert(member(m.drop_first(), "isError"@) == Some(Json::Bool(is_error)));
    assert(member(m, "isError"@) == Some(Json::Bool(is_error)));
    assert(member(m, "content"@) == Some(Json::Array(seq![Json::Object(item)])));
    assert(member(item.drop_first(), "type"@) == Some(Json::Str("text"@)));
    assert(member(item, "type"@) == Some(Json::Str("text"@)));
    assert(member(item, "text"@) == Some(Json::Str(text)));
    assert(content_of(Json::Object(item)) == Ok::<Content, Seq<char>>(Content::Text(text)));
    let a = seq![Json::Object(item)];
    assert(contents_of(a, 0) == Ok::<Seq<Content>, Seq<char>>(seq![]));
    assert(contents_of(a, 1) == Ok::<Seq<Content>, Seq<char>>(seq![Content::Text(text)])) by {
        assert(seq![].push(Content::Text(text)) =~= seq![Content::Text(text)]);
    }
    let s1 = seq![Content::Text(text)];
    assert(s1.drop_last() =~= Seq::<Content>::empty());
    assert(texts_of(Seq::<Content>::empty()) == Seq::<Seq<char>>::empty());
    assert(texts_of(s1) == texts_of(s1.drop_last()).push(text));
    assert(texts_of(s1) =~= seq![text]);
}

/// The reply to a tool call that ran: its output, or its error's message
/// marked as an error.
pub open spec fn call_reply_ok(r: RpcReply, id: Option<JsonValue>, outcome: Result<String, ToolshedError>) -> bool {
    result_reply(r, id, match outcome {
        Ok(o) => call_result(o@, false),
        Err(e) => call_result(error_message(e), true),
    })
}

fn initialize_json() -> (r: JsonValue)
    ensures
        r@ == initialize_result(),
{
    let mut tools_cap: Vec<(String, JsonValue)> = Vec::new();
    let ghost tv = tools_cap@;
    let tj = object_of(tools_cap);
    assert(members_view(tv, 0) =~= seq![]);
    let mut caps: Vec<(String, JsonValue)> = Vec::new();
    caps.push(("tools".to_owned(), tj));
    let ghost cv = caps@;
    let cj = object_of(caps);
    assert(members_view(cv, 1) =~= seq![("tools"@, Json::Object(seq![]))]);
    let mut info: Vec<(String, JsonValue)> = Vec::new();
    info.push(("name".to_owned(), str_json("toolshed")));
    info.push(("version".to_owned(), str_json("0.1.0")));
    let ghost iv = info@;
    let ij = object_of(info);
    assert(members_view(iv, 2) =~= seq![("name"@, Json::Str("toolshed"@)), ("version"@, Json::Str("0.1.0"@))]);
    let mut m: Vec<(String, JsonValue)> = Vec::new();
    m.push(("capabilities".to_owned(), cj));
    m.push(("protocolVersion".to_owned(), str_json(MCP_PROTOCOL_VERSION)));
    m.push(("serverInfo".to_owned(), ij));
    let ghost mv = m@;
    let r = object_of(m);
    assert(members_view(mv, 3) =~= match initialize_result() {
        Json::Object(x) => x,
        _ => seq![],
    });
    r
}

fn def_to_json(d: &McpToolDef) -> (r: JsonValue)
    ensures
        r@ == def_json(tool_def_view(*d)),
{
    let mut m: Vec<(String, JsonValue)> = Vec::new();
    match &d.description {
        Some(x) => m.push(("description".to_owned(), JsonValue::String(x.clone()))),
        None => {},
    }
    match &d.input_schema {
        Some(sc) => m.push(("inputSchema".to_owned(), clone_json(sc))),
        None => {},
    }
    m.push(("name".to_owned(), JsonValue::String(d.name.clone())));
    let ghost mv = m@;
    let r = object_of(m);
    assert(members_view(mv, mv.len()) =~= match def_json(tool_def_view(*d)) {
        Json::Object(x) => x,
        _ => seq![],
    });
    r
}

fn tools_list_json(ex: &Vec<ExposedTool>) -> (r: JsonValue)
    ensures
        r@ == tools_list_result(ex@),
{
    let mut items: Vec<JsonValue> = Vec::new();
    let n = ex.len();
    for i in 0..n
        invariant
            n == ex@.len(),
            items@.len() == i,
            forall|j: int| 0 <= j < i ==> json_view(#[trigger] items@[j]) == def_json(tool_def_view(ex@[j].def)),
    {
        items.push(def_to_json(&ex[i].def));
    }
    let ghost iv = items@;
    let a = array_of(items);
    assert(items_view(iv, iv.len()) =~= Seq::new(n as nat, |i: int| def_json(tool_def_view(ex@[i].def))));
    let mut m: Vec<(String, JsonValue)> = Vec::new();
    m.push(("tools".to_owned(), a));
    let ghost mv = m@;
    let r = object_of(m);
    assert(members_view(mv, 1) =~= match tools_list_result(ex@) {
        Json::Object(x) => x,
        _ => seq![],
    });
    r
}

fn call_result_json(text: String, is_error: bool) -> (r: JsonValue)
    ensures
        r@ == call_result(text@, is_error),
{
    let ghost t = text@;
    let mut item: Vec<(String, JsonValue)> = Vec::new();
    item.push(("text".to_owned(), JsonValue::String(text)));
    item.push(("type".to_owned(), str_json("text")));
    let ghost itv = item@;
    let ij = object_of(item);
    assert(members_view(itv, 2) =~= seq![("text"@, Json::Str(t)), ("type"@, Json::Str("text"@))]);
    let mut content: Vec<JsonValue> = Vec::new();
    content.push(ij);
    let ghost cv = content@;
    let cj = array_of(content);
    assert(items_view(cv, 1) =~= seq![Json::Object(seq![("text"@, Json::Str(t)), ("type"@, Json::Str("text"@))])]);
    let mut m: Vec<(String, JsonValue)> = Vec::new();
    m.push(("content".to_owned(), cj));
    m.push(("isError".to_owned(), JsonValue::Bool(is_error)));
    let ghost mv = m@;
    let r = object_of(m);
    assert(members_view(mv, 2) =~= match call_result(t, is_error) {
        Json::Object(x) => x,
        _ => seq![],
    });
    r
}

/// The reply to a tool call, given what running the tool gave.
pub fn finish_call(id: Option<JsonValue>, outcome: Result<String, ToolshedError>) -> (r: RpcReply)
    ensures
        call_reply_ok(r, id, outcome),
{
    let ghost o = outcome;
    let (text, is_error) = match outcome {
        Ok(t) => (t, false),
        Err(e) => (e.message(), true),
    };
    let result = call_result_json(text, is_error);
    RpcReply { id, result: Some(result), error: None }
}

/// The name of a tool's state.
pub open spec fn status_name(s: Status) -> Seq<char> {
    match s {
        Status::Up => "up"@,
        Status::Down => "down"@,
        Status::Recovering => "recovering"@,
        Status::FailedToLoad => "failed_to_load"@,
    }
}

fn status_text(s: Status) -> (r: String)
    ensures
        r@ == status_name(s),
{
    match s {
        Status::Up => "up".to_owned(),
        Status::Down => "down".to_owned(),
        Status::Recovering => "recovering".to_owned(),
        Status::FailedToLoad => "failed_to_load".to_owned(),
    }
}

/// Why a tool cannot be called now: it is down (or failed to load), or it
/// is being recovered; nothing when it is up or the daemon does not know
/// it.
pub open spec fn unavailable(tools: Map<Seq<char>, crate::daemon::state::ToolStatus>, tool: Seq<char>) -> Option<Seq<char>> {
    if !tools.contains_key(tool) {
        None
    } else {
        let ts = tools[tool];
        match ts.status {
            Status::Up => None,
            Status::Recovering => Some("Tool '"@ + tool + "' is temporarily unavailable (recovering, attempt "@ + decimal(
                match ts.recovering_attempt {
                    Some(a) => a as nat,
                    None => 0,
                },
            ) + ")"@),
            _ => Some("Tool '"@ + tool + "' is down: "@ + match ts.last_error {
                Some(e) => e@,
                None => "unknown error"@,
            }),
        }
    }
}

/// The first offered tool with this name.
pub open spec fn find_offer(ex: Seq<ExposedTool>, name: Seq<char>) -> Option<int>
    decreases ex.len(),
{
    if ex.len() == 0 {
        None
    } else if ex[0].namespaced_name@ == name {
        Some(0)
    } else {
        match find_offer(ex.drop_first(), name) {
            Some(i) => Some(i + 1),
            None => None,
        }
    }
}

/// What the server does with a request.
#[derive(Debug)]
pub enum RpcStep {
    /// Send this reply.
    Reply(RpcReply),
    /// Run the native command of offered tool `index` with these words,
    /// then reply with [`finish_call`].
    RunNative { index: usize, args: Vec<String> },
    /// Call offered tool `index` on its MCP server with these arguments,
    /// then reply with [`finish_call`].
    CallMcp { index: usize, arguments: JsonValue },
}



/// The name a `tools/call` asks for.
pub open spec fn requested_name(p: Json) -> Seq<char> {
    match text_of(field_of(p, "name"@)) {
        Some(t) => t,
        None => Seq::empty(),
    }
}

/// The arguments a `tools/call` passes: an empty object when it gives none.
pub open spec fn requested_args(p: Json) -> Json {
    match field_of(p, "arguments"@) {
        Some(a) => a,
        None => Json::Object(seq![]),
    }
}

/// What the server does with `tools/call`: refuse a call without
/// parameters, of a tool it does not offer, of a tool no longer
/// registered, or of a tool the daemon finds unavailable; answer with the
/// error when the command or the MCP configuration is missing; else run
/// the tool.
pub open spec fn tools_call_ok<S>(step: RpcStep, id: Option<JsonValue>, params: Option<Json>, ex: Seq<ExposedTool>, reg: Registry, daemon: DaemonState<S>) -> bool {
    match params {
        None => step matches RpcStep::Reply(r) && error_reply(r, id, -32602i64, "missing params"@),
        Some(p) => {
            let name = requested_name(p);
            match find_offer(ex, name) {
                None => step matches RpcStep::Reply(r) && error_reply(r, id, -32602i64, "unknown tool: "@ + name),
                Some(i) => {
                    let e = ex[i];
                    let tn = e.tool_name@;
                    if !reg.tools@.contains_key(tn) {
                        step matches RpcStep::Reply(r) && error_reply(r, id, -32603i64, "tool not found in registry: "@ + tn)
                    } else {
                        match unavailable(daemon.tool_status@, tn) {
                            Some(msg) => step matches RpcStep::Reply(r) && error_reply(r, id, -32003i64, msg),
                            None => {
                                let t = reg.tools@[tn];
                                match e.tool_type {
                                    ToolType::Native => if t.manifest.commands@.contains_key(e.command_name@) {
                                        step matches RpcStep::RunNative { index, args } && index == i && texts(args@) == cli_args(
                                            t.manifest.commands@[e.command_name@],
                                            requested_args(p),
                                        )
                                    } else {
                                        step matches RpcStep::Reply(r) && call_reply_ok(r, id, Err(ToolshedError::CommandNotFound { tool: e.tool_name, command: e.command_name }))
                                    },
                                    ToolType::Mcp => if t.manifest.mcp is Some {
                                        step matches RpcStep::CallMcp { index, arguments } && index == i && arguments@ == requested_args(p)
                                    } else {
                                        step matches RpcStep::Reply(r) && call_reply_ok(r, id, Err(ToolshedError::MissingMcpConfig { tool: e.tool_name }))
                                    },
                                }
                            },
                        }
                    }
                },
            }
        },
    }
}

fn find_offer_index(ex: &Vec<ExposedTool>, name: &str) -> (r: Option<usize>)
    ensures
        r matches Some(i) ==> find_offer(ex@, name@) == Some(i as int) && i < ex@.len(),
        r is None ==> find_offer(ex@, name@) is None,
{
    let n = ex.len();
    let mut i: usize = 0;
    assert(ex@.skip(0) == ex@);
    while i < n
        invariant
            n == ex@.len(),
            i <= n,
            find_offer(ex@, name@) == match find_offer(ex@.skip(i as int), name@) {
                Some(k) => Some(k + i),
                None => None::<int>,
            },
        decreases n - i,
    {
        let ghost t = ex@.skip(i as int);
        assert(t[0] == ex@[i as int]);
        assert(t.drop_first() == ex@.skip(i + 1));
        if crate::text::chars_eq(&to_chars(ex[i].namespaced_name.as_str()), &to_chars(name)) {
            return Some(i);
        }
        i = i + 1;
    }
    None
}

fn error_step(id: Option<JsonValue>, code: i64, message: String) -> (r: RpcStep)
    ensures
        r matches RpcStep::Reply(x) && error_reply(x, id, code, message@),
{
    RpcStep::Reply(RpcReply { id, result: None, error: Some((code, message)) })
}

/// Decides what to do with a `tools/call` request.
pub fn tools_call_step<S>(id: Option<JsonValue>, params: Option<&JsonValue>, ex: &Vec<ExposedTool>, reg: &Registry, daemon: &DaemonState<S>) -> (r: RpcStep)
    requires
        reg.wf(),
        daemon.wf(),
        forall|k: Seq<char>| #[trigger] reg.tools@.contains_key(k) ==> reg.tools@[k].manifest.commands.wf(),
    ensures
        tools_call_ok(r, id, match params {
            Some(p) => Some(p@),
            None => None,
        }, ex@, *reg, *daemon),
{
    let p = match params {
        Some(p) => p,
        None => {
            return error_step(id, -32602, "missing params".to_owned());
        },
    };
    let name = match as_text(field(p, "name")) {
        Some(t) => t,
        None => String::new(),
    };
    let arguments = match field(p, "arguments") {
        Some(a) => clone_json(a),
        None => {
            let empty: Vec<(String, JsonValue)> = Vec::new();
            let ghost ev = empty@;
            assert(members_view(ev, 0) =~= seq![]);
            JsonValue::Object(empty)
        },
    };
    assert(arguments@ == requested_args(p@));
    let i = match find_offer_index(ex, name.as_str()) {
        Some(i) => i,
        None => {
            let mut msg = to_chars("unknown tool: ");
            push_str(&mut msg, name.as_str());
            return error_step(id, -32602, from_chars(&msg));
        },
    };
    let e = &ex[i];
    let t = match reg.tools.get(e.tool_name.as_str()) {
        Some(t) => t,
        None => {
            let mut msg = to_chars("tool not found in registry: ");
            push_str(&mut msg, e.tool_name.as_str());
            return error_step(id, -32603, from_chars(&msg));
        },
    };
    match daemon.tool_status.get(e.tool_name.as_str()) {
        Some(ts) => {
            match ts.status {
                Status::Up => {},
                Status::Recovering => {
                    let mut msg = to_chars("Tool '");
                    push_str(&mut msg, e.tool_name.as_str());
                    push_str(&mut msg, "' is temporarily unavailable (recovering, attempt ");
                    let a: u8 = match ts.recovering_attempt {
                        Some(a) => a,
                        None => 0,
                    };
                    append_chars(&mut msg, u64_decimal(a as u64).as_slice());
                    push_str(&mut msg, ")");
                    return error_step(id, -32003, from_chars(&msg));
                },
                _ => {
                    let mut msg = to_chars("Tool '");
                    push_str(&mut msg, e.tool_name.as_str());
                    push_str(&mut msg, "' is down: ");
                    match &ts.last_error {
                        Some(err) => push_str(&mut msg, err.as_str()),
                        None => push_str(&mut msg, "unknown error"),
                    }
                    return error_step(id, -32003, from_chars(&msg));
                },
            }
        },
        None => {},
    }
    match e.tool_type {
        ToolType::Native => match t.manifest.commands.get(e.command_name.as_str()) {
            Some(cmd) => RpcStep::RunNative { index: i, args: json_to_cli_args(cmd, &arguments) },
            None => {
                let err = ToolshedError::CommandNotFound { tool: e.tool_name.clone(), command: e.command_name.clone() };
                RpcStep::Reply(finish_call(id, Err(err)))
            },
        },
        ToolType::Mcp => {
            if t.manifest.mcp.is_some() {
                RpcStep::CallMcp { index: i, arguments }
            } else {
                let err = ToolshedError::MissingMcpConfig { tool: e.tool_name.clone() };
                RpcStep::Reply(finish_call(id, Err(err)))
            }
        },
    }
}


/// Whether the daemon is recovering any tool.
pub open spec fn any_recovering(tools: NameMap<crate::daemon::state::ToolStatus>) -> bool {
    exists|i: int| 0 <= i < tools.spec_len() && (#[trigger] tools.values()[i]).status == Status::Recovering
}

/// The overall state the daemon reports.
pub open spec fn overall(tools: NameMap<crate::daemon::state::ToolStatus>) -> Seq<char> {
    if any_recovering(tools) {
        "recovering"@
    } else {
        "healthy"@
    }
}

/// What `daemon/health` reports of a tool: its recoveries and state.
pub open spec fn brief_status(ts: crate::daemon::state::ToolStatus) -> Json {
    Json::Object(seq![("recoveries"@, crate::commands::number(ts.recoveries as nat)), ("status"@, Json::Str(status_name(ts.status)))])
}

/// What the health endpoint reports of a tool: the attempt of a recovery
/// under way, its last error, its recoveries and its state.
pub open spec fn detailed_status(ts: crate::daemon::state::ToolStatus) -> Json {
    Json::Object((if ts.status == Status::Recovering && ts.recovering_attempt is Some {
        seq![("attempt"@, crate::commands::number(ts.recovering_attempt->0 as nat))]
    } else {
        seq![]
    }) + match ts.last_error {
        Some(e) => seq![("last_error"@, Json::Str(e@))],
        None => seq![],
    } + seq![("recoveries"@, crate::commands::number(ts.recoveries as nat)), ("status"@, Json::Str(status_name(ts.status)))])
}

/// Each tool's state, as `daemon/health` reports it.
pub open spec fn brief_tools(tools: NameMap<crate::daemon::state::ToolStatus>) -> Json {
    Json::Object(Seq::new(tools.spec_len(), |i: int| (tools.keys()[i], brief_status(tools.values()[i]))))
}

/// Each tool's state in detail, as the health endpoint reports it.
pub open spec fn detailed_tools(tools: NameMap<crate::daemon::state::ToolStatus>) -> Json {
    Json::Object(Seq::new(tools.spec_len(), |i: int| (tools.keys()[i], detailed_status(tools.values()[i]))))
}

/// What `daemon/health` answers: the overall state, each tool's, and the
/// uptime.
pub open spec fn daemon_health_result<S>(d: DaemonState<S>, uptime: u64) -> Json {
    Json::Object(seq![
        ("status"@, Json::Str(overall(d.tool_status))),
        ("tools"@, brief_tools(d.tool_status)),
        ("uptime_secs"@, crate::commands::number(uptime as nat)),
    ])
}

/// What the health endpoint answers: when the next secret is refreshed and
/// whether Vault gave any, the overall state, each tool's in detail, and
/// the uptime.
pub open spec fn health_body<S>(d: DaemonState<S>, uptime: u64, next_refresh_secs: Option<u64>) -> Json {
    Json::Object(seq![
        ("auth"@, Json::Object(seq![
            ("next_refresh"@, match next_refresh_secs {
                Some(n) => Json::Str("in "@ + decimal(n as nat) + "s"@),
                None => Json::Null,
            }),
            ("vault_reachable"@, Json::Bool(d.secrets.spec_len() > 0)),
        ])),
        ("status"@, Json::Str(overall(d.tool_status))),
        ("tools"@, detailed_tools(d.tool_status)),
        ("uptime_secs"@, crate::commands::number(uptime as nat)),
    ])
}

fn number_json(n: u64) -> (r: JsonValue)
    ensures
        r@ == crate::commands::number(n as nat),
{
    JsonValue::Number(from_chars(&u64_decimal(n)))
}

fn tools_json<S>(d: &DaemonState<S>, detailed: bool) -> (r: (JsonValue, bool))
    ensures
        r.0@ == if detailed {
            detailed_tools(d.tool_status)
        } else {
            brief_tools(d.tool_status)
        },
        r.1 == any_recovering(d.tool_status),
{
    let mut m: Vec<(String, JsonValue)> = Vec::new();
    let mut recovering = false;
    let n = d.tool_status.len();
    for i in 0..n
        invariant
            n == d.tool_status.spec_len(),
            m@.len() == i,
            forall|j: int| 0 <= j < i ==> (#[trigger] m@[j]).0@ == d.tool_status.keys()[j] && json_view(m@[j].1) == if detailed {
                detailed_status(d.tool_status.values()[j])
            } else {
                brief_status(d.tool_status.values()[j])
            },
            recovering == exists|j: int| 0 <= j < i && (#[trigger] d.tool_status.values()[j]).status == Status::Recovering,
    {
        let ts = d.tool_status.value_at(i);
        if ts.status == Status::Recovering {
            recovering = true;
        }
        let mut o: Vec<(String, JsonValue)> = Vec::new();
        if detailed {
            if ts.status == Status::Recovering {
                match ts.recovering_attempt {
                    Some(a) => o.push(("attempt".to_owned(), number_json(a as u64))),
                    None => {},
                }
            }
            match &ts.last_error {
                Some(e) => o.push(("last_error".to_owned(), JsonValue::String(e.clone()))),
                None => {},
            }
        }
        o.push(("recoveries".to_owned(), number_json(ts.recoveries as u64)));
        o.push(("status".to_owned(), JsonValue::String(status_text(ts.status))));
        let ghost ov = o@;
        let oj = object_of(o);
        assert(members_view(ov, ov.len()) =~= match (if detailed {
            detailed_status(*ts)
        } else {
            brief_status(*ts)
        }) {
            Json::Object(x) => x,
            _ => seq![],
        });
        m.push((d.tool_status.key_at(i).clone(), oj));
    }
    let ghost mv = m@;
    let r = object_of(m);
    if detailed {
        assert(members_view(mv, mv.len()) =~= match detailed_tools(d.tool_status) {
            Json::Object(x) => x,
            _ => seq![],
        });
    } else {
        assert(members_view(mv, mv.len()) =~= match brief_tools(d.tool_status) {
            Json::Object(x) => x,
            _ => seq![],
        });
    }
    (r, recovering)
}

/// What the health endpoint answers, and whether a recovery is under way
/// (which makes the answer an unavailable service).
pub fn health_snapshot<S>(d: &DaemonState<S>, uptime: u64, next_refresh_secs: Option<u64>) -> (r: (JsonValue, bool))
    ensures
        r.0@ == health_body(*d, uptime, next_refresh_secs),
        r.1 == any_recovering(d.tool_status),
{
    let (tools, recovering) = tools_json(d, true);
    let mut auth: Vec<(String, JsonValue)> = Vec::new();
    match next_refresh_secs {
        Some(n) => {
            let mut t = to_chars("in ");
            append_chars(&mut t, u64_decimal(n).as_slice());
            push_str(&mut t, "s");
            auth.push(("next_refresh".to_owned(), JsonValue::String(from_chars(&t))));
        },
        None => auth.push(("next_refresh".to_owned(), JsonValue::Null)),
    }
    auth.push(("vault_reachable".to_owned(), JsonValue::Bool(d.secrets.len() > 0)));
    let ghost av = auth@;
    let aj = object_of(auth);
    let mut m: Vec<(String, JsonValue)> = Vec::new();
    m.push(("auth".to_owned(), aj));
    m.push(("status".to_owned(), if recovering {
        str_json("recovering")
    } else {
        str_json("healthy")
    }));
    m.push(("tools".to_owned(), tools));
    m.push(("uptime_secs".to_owned(), number_json(uptime)));
    let ghost mv = m@;
    let r = object_of(m);
    assert(members_view(av, 2) =~= seq![
        ("next_refresh"@, match next_refresh_secs {
            Some(n) => Json::Str("in "@ + decimal(n as nat) + "s"@),
            None => Json::Null,
        }),
        ("vault_reachable"@, Json::Bool(d.secrets.spec_len() > 0)),
    ]);
    assert(json_view(mv[0].1) == Json::Object(members_view(av, 2)));
    assert(json_view(mv[1].1) == Json::Str(overall(d.tool_status)));
    assert(json_view(mv[2].1) == detailed_tools(d.tool_status));
    assert(json_view(mv[3].1) == crate::commands::number(uptime as nat));
    assert(members_view(mv, 4) =~= match health_body(*d, uptime, next_refresh_secs) {
        Json::Object(x) => x,
        _ => seq![],
    });
    (r, recovering)
}

proof fn lemma_methods_distinct()
    ensures
        "initialize"@ != "notifications/initialized"@,
        "initialize"@ != "tools/list"@,
        "initialize"@ != "tools/call"@,
        "initialize"@ != "daemon/health"@,
        "notifications/initialized"@ != "tools/list"@,
        "notifications/initialized"@ != "tools/call"@,
        "notifications/initialized"@ != "daemon/health"@,
        "tools/list"@ != "tools/call"@,
        "tools/list"@ != "daemon/health"@,
        "tools/call"@ != "daemon/health"@,
{
    reveal_strlit("initialize");
    reveal_strlit("notifications/initialized");
    reveal_strlit("tools/list");
    reveal_strlit("tools/call");
    reveal_strlit("daemon/health");
    assert("initialize"@[0] == 'i');
    assert("notifications/initialized"@[0] == 'n');
    assert("tools/list"@[0] == 't');
    assert("tools/call"@[0] == 't');
    assert("daemon/health"@[0] == 'd');
    assert("tools/list"@[6] == 'l');
    assert("tools/call"@[6] == 'c');
}

/// What the server does with a JSON-RPC request: answer `initialize`,
/// `notifications/initialized`, `tools/list` and `daemon/health` itself,
/// decide on `tools/call`, and refuse any other method.
pub fn handle_rpc<S>(
    method: &str,
    id: Option<JsonValue>,
    params: Option<&JsonValue>,
    ex: &Vec<ExposedTool>,
    reg: &Registry,
    daemon: &DaemonState<S>,
    uptime: u64,
) -> (r: RpcStep)
    requires
        reg.wf(),
        daemon.wf(),
        forall|k: Seq<char>| #[trigger] reg.tools@.contains_key(k) ==> reg.tools@[k].manifest.commands.wf(),
    ensures
        method@ == "initialize"@ ==> (r matches RpcStep::Reply(x) && result_reply(x, id, initialize_result())),
        method@ == "notifications/initialized"@ ==> (r matches RpcStep::Reply(x) && result_reply(x, id, Json::Object(seq![]))),
        method@ == "tools/list"@ ==> (r matches RpcStep::Reply(x) && result_reply(x, id, tools_list_result(ex@))),
        method@ == "tools/call"@ ==> tools_call_ok(r, id, match params {
            Some(p) => Some(p@),
            None => None,
        }, ex@, *reg, *daemon),
        method@ == "daemon/health"@ ==> (r matches RpcStep::Reply(x) && result_reply(x, id, daemon_health_result(*daemon, uptime))),
        !(method@ == "initialize"@ || method@ == "notifications/initialized"@ || method@ == "tools/list"@ || method@
            == "tools/call"@ || method@ == "daemon/health"@) ==> (r matches RpcStep::Reply(x) && error_reply(
            x,
            id,
            -32601i64,
            "method not found: "@ + method@,
        )),
{
    let mc = to_chars(method);
    proof {
        lemma_methods_distinct();
    }
    if crate::text::chars_eq(&mc, &to_chars("initialize")) {
        return RpcStep::Reply(RpcReply { id, result: Some(initialize_json()), error: None });
    }
    if crate::text::chars_eq(&mc, &to_chars("notifications/initialized")) {
        let empty: Vec<(String, JsonValue)> = Vec::new();
        let ghost ev = empty@;
        let e = object_of(empty);
        assert(members_view(ev, 0) =~= seq![]);
        return RpcStep::Reply(RpcReply { id, result: Some(e), error: None });
    }
    if crate::text::chars_eq(&mc, &to_chars("tools/list")) {
        return RpcStep::Reply(RpcReply { id, result: Some(tools_list_json(ex)), error: None });
    }
    if crate::text::chars_eq(&mc, &to_chars("tools/call")) {
        return tools_call_step(id, params, ex, reg, daemon);
    }
    if crate::text::chars_eq(&mc, &to_chars("daemon/health")) {
        let (tools, recovering) = tools_json(daemon, false);
        let mut m: Vec<(String, JsonValue)> = Vec::new();
        m.push(("status".to_owned(), if recovering {
            str_json("recovering")
        } else {
            str_json("healthy")
        }));
        m.push(("tools".to_owned(), tools));
        m.push(("uptime_secs".to_owned(), number_json(uptime)));
        let ghost mv = m@;
        let r = object_of(m);
        assert(members_view(mv, 3) =~= match daemon_health_result(*daemon, uptime) {
            Json::Object(x) => x,
            _ => seq![],
        });
        return RpcStep::Reply(RpcReply { id, result: Some(r), error: None });
    }
    let mut msg = to_chars("method not found: ");
    push_str(&mut msg, method);
    error_step(id, -32601, from_chars(&msg))
}

} // verus!
