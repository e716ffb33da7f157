//! The audit trail: each tool run is recorded as JSON lines chained by
//! SHA-256 hashes, with secrets redacted, so that a changed or removed
//! entry shows.

use vstd::prelude::*;
use sha2::Digest;
use crate::json::{
    as_text, as_u64, canonical, canonicalize, clone_json, field, field_of, json_text, json_view,
    lemma_items_view, lemma_members_view, items_view, members_view, text_of, u64_of, write_json, Json,
    JsonValue,
};
use crate::clock::{date_start_millis_of, parse_date_start_millis, parse_rfc3339_millis, rfc3339_millis_of};
use crate::namemap::{str_less, str_lt};
use crate::text::{
    append_chars, chars_eq, concat, contains, contains_vec, decimal, from_chars, nonempty_pieces, push_str,
    split_lines, split_nonempty, to_chars, trim, trim_vec, u64_decimal, lines, views,
};

verus! {

/// Whether `c` is an ASCII uppercase letter.
pub open spec fn is_upper(c: char) -> bool {
    'A' <= c && c <= 'Z'
}

/// Whether `c` is an ASCII lowercase letter.
pub open spec fn is_lower(c: char) -> bool {
    'a' <= c && c <= 'z'
}

/// Whether `c` is an ASCII digit.
pub open spec fn is_ascii_digit(c: char) -> bool {
    '0' <= c && c <= '9'
}

/// `c` in lowercase, when it is an ASCII letter.
pub open spec fn ascii_lower(c: char) -> char {
    if is_upper(c) {
        ((c as int) + 32) as char
    } else {
        c
    }
}

/// The key after reading its first `i` characters: each ASCII letter or
/// digit lowercased, every other character replaced by `_`, and a `_`
/// inserted where an uppercase letter follows a lowercase letter or digit.
pub open spec fn normalize_fold(k: Seq<char>, i: nat) -> Seq<char>
    decreases i,
{
    if i == 0 || i > k.len() {
        seq![]
    } else {
        let prev = normalize_fold(k, (i - 1) as nat);
        let c = k[i - 1];
        let split = if is_upper(c) && i - 1 > 0 && (is_lower(k[i - 2]) || is_ascii_digit(k[i - 2])) {
            prev.push('_')
        } else {
            prev
        };
        if is_upper(c) || is_lower(c) || is_ascii_digit(c) {
            split.push(ascii_lower(c))
        } else {
            split.push('_')
        }
    }
}

/// The lowercase words of a key: `apiKey`, `api_key` and `API-KEY` all
/// give `api`, `key`.
pub open spec fn key_segments(k: Seq<char>) -> Seq<Seq<char>> {
    nonempty_pieces(normalize_fold(k, k.len()), '_')
}

/// The words that mark a key as holding a secret.
pub open spec fn sensitive_segment(s: Seq<char>) -> bool {
    ||| s == "auth"@
    ||| s == "authorization"@
    ||| s == "bearer"@
    ||| s == "cookie"@
    ||| s == "cookies"@
    ||| s == "credential"@
    ||| s == "credentials"@
    ||| s == "key"@
    ||| s == "password"@
    ||| s == "passwd"@
    ||| s == "passphrase"@
    ||| s == "secret"@
    ||| s == "token"@
}

/// Whether the words of a key, run together, hold a compound that marks a
/// secret.
pub open spec fn sensitive_compact(c: Seq<char>) -> bool {
    ||| contains(c, "accesskey"@)
    ||| contains(c, "apikey"@)
    ||| contains(c, "clientsecret"@)
    ||| contains(c, "privatekey"@)
    ||| contains(c, "setcookie"@)
}

/// A key whose value is redacted in the audit trail: one of its words marks
/// a secret, or its words run together hold a compound that does.
pub open spec fn sensitive(k: Seq<char>) -> bool {
    let segs = key_segments(k);
    segs.len() > 0 && ((exists|i: int| 0 <= i < segs.len() && sensitive_segment(#[trigger] segs[i]))
        || sensitive_compact(concat(segs)))
}

/// A key is sensitive exactly when one of its words is a word that marks a
/// secret, or its words run together hold a compound that does; a key
/// without words (such as the empty key) is not.
pub proof fn lemma_sensitive_key_law(k: Seq<char>)
    ensures
        sensitive(k) == ({
            let segs = key_segments(k);
            ||| segs.contains("auth"@)
            ||| segs.contains("authorization"@)
            ||| segs.contains("bearer"@)
            ||| segs.contains("cookie"@)
            ||| segs.contains("cookies"@)
            ||| segs.contains("credential"@)
            ||| segs.contains("credentials"@)
            ||| segs.contains("key"@)
            ||| segs.contains("password"@)
            ||| segs.contains("passwd"@)
            ||| segs.contains("passphrase"@)
            ||| segs.contains("secret"@)
            ||| segs.contains("token"@)
            ||| sensitive_compact(concat(segs))
        }),
        key_segments(k).len() == 0 ==> !sensitive(k),
{
    let segs = key_segments(k);
    if segs.len() == 0 {
        assert(concat(segs) =~= Seq::<char>::empty());
        reveal_strlit("accesskey");
        reveal_strlit("apikey");
        reveal_strlit("clientsecret");
        reveal_strlit("privatekey");
        reveal_strlit("setcookie");
        assert(!sensitive_compact(concat(segs)));
    } else {
        if exists|i: int| 0 <= i < segs.len() && sensitive_segment(#[trigger] segs[i]) {
            let i = choose|i: int| 0 <= i < segs.len() && sensitive_segment(#[trigger] segs[i]);
            assert(segs.contains(segs[i]));
        }
    }
}

fn normalize(k: &[char]) -> (r: Vec<char>)
    ensures
        r@ == normalize_fold(k@, k@.len()),
{
    let mut out: Vec<char> = Vec::new();
    let n = k.len();
    for i in 0..n
        invariant
            n == k@.len(),
            out@ == normalize_fold(k@, i as nat),
    {
        let c = k[i];
        let upper = 'A' <= c && c <= 'Z';
        if upper && i > 0 {
            let p = k[i - 1];
            if ('a' <= p && p <= 'z') || ('0' <= p && p <= '9') {
                out.push('_');
            }
        }
        if upper {
            let l = ((c as u32) + 32) as u8 as char;
            assert(l == ascii_lower(c)) by {
                assert((c as u32) + 32 < 128);
            }
            out.push(l);
        } else if ('a' <= c && c <= 'z') || ('0' <= c && c <= '9') {
            out.push(c);
        } else {
            out.push('_');
        }
    }
    out
}

fn is_sensitive_segment(s: &Vec<char>) -> (r: bool)
    ensures
        r == sensitive_segment(s@),
{
    let words = [
        "auth",
        "authorization",
        "bearer",
        "cookie",
        "cookies",
        "credential",
        "credentials",
        "key",
        "password",
        "passwd",
        "passphrase",
        "secret",
        "token",
    ];
    let mut found = false;
    let mut i: usize = 0;
    while i < 13
        invariant
            i <= 13,
            words@ == seq![
                "auth",
                "authorization",
                "bearer",
                "cookie",
                "cookies",
                "credential",
                "credentials",
                "key",
                "password",
                "passwd",
                "passphrase",
                "secret",
                "token",
            ],
            found == exists|j: int| 0 <= j < i && s@ == (#[trigger] words@[j])@,
        decreases 13 - i,
    {
        let w = to_chars(words[i]);
        if chars_eq(&w, s) {
            found = true;
        }
        i = i + 1;
    }
    found
}


/// Whether the value under `key` is kept out of the audit trail: one of the
/// key's words marks a secret (`password`, `api_key`, `Authorization`), or
/// its words run together hold a compound that does (`clientsecret`).
pub fn is_sensitive_key(key: &str) -> (r: bool)
    ensures
        r == sensitive(key@),
{
    let chars = to_chars(key);
    let norm = normalize(chars.as_slice());
    let segs = split_nonempty(norm.as_slice(), '_');
    let ghost sv = views(segs@);
    if segs.len() == 0 {
        return false;
    }
    let mut compact: Vec<char> = Vec::new();
    let n = segs.len();
    for i in 0..n
        invariant
            n == segs@.len(),
            sv == views(segs@),
            sv == key_segments(key@),
            compact@ == concat(sv.take(i as int)),
            forall|j: int| 0 <= j < i ==> !sensitive_segment(#[trigger] sv[j]),
    {
        if is_sensitive_segment(&segs[i]) {
            assert(sensitive_segment(sv[i as int]));
            return true;
        }
        append_chars(&mut compact, segs[i].as_slice());
        assert(sv.take(i + 1).drop_last() == sv.take(i as int));
    }
    assert(sv.take(n as int) == sv);
    let patterns = ["accesskey", "apikey", "clientsecret", "privatekey", "setcookie"];
    let mut k: usize = 0;
    while k < 5
        invariant
            k <= 5,
            patterns@ == seq!["accesskey", "apikey", "clientsecret", "privatekey", "setcookie"],
            compact@ == concat(sv),
            sv == key_segments(key@),
            sv.len() > 0,
            forall|j: int| 0 <= j < k ==> !contains(compact@, (#[trigger] patterns@[j])@),
        decreases 5 - k,
    {
        let p = to_chars(patterns[k]);
        if contains_vec(compact.as_slice(), p.as_slice()) {
            assert(sensitive_compact(compact@)) by {
                if k == 0 {
                } else if k == 1 {
                } else if k == 2 {
                } else if k == 3 {
                } else {
                }
            }
            return true;
        }
        k = k + 1;
    }
    assert(!sensitive_compact(compact@)) by {
        assert(!contains(compact@, patterns@[0]@));
        assert(!contains(compact@, patterns@[1]@));
        assert(!contains(compact@, patterns@[2]@));
        assert(!contains(compact@, patterns@[3]@));
        assert(!contains(compact@, patterns@[4]@));
    }
    false
}


/// What a redacted value shows in place of the secret.
pub open spec fn redaction_mark() -> Seq<char> {
    "[REDACTED]"@
}

/// `v` with the value under every sensitive key, at every depth, replaced
/// by the redaction mark.
pub open spec fn redacted(v: Json) -> Json
    decreases v, 0nat,
{
    match v {
        Json::Array(a) => Json::Array(redacted_items(a, a.len())),
        Json::Object(m) => Json::Object(redacted_members(m, m.len())),
        _ => v,
    }
}

/// The first `n` items, redacted.
pub open spec fn redacted_items(a: Seq<Json>, n: nat) -> Seq<Json>
    decreases a, n,
{
    if n == 0 || n > a.len() {
        seq![]
    } else {
        redacted_items(a, (n - 1) as nat).push(redacted(a[n - 1]))
    }
}

/// The first `n` members, each value redacted, or replaced by the mark
/// where its key is sensitive.
pub open spec fn redacted_members(m: Seq<(Seq<char>, Json)>, n: nat) -> Seq<(Seq<char>, Json)>
    decreases m, n,
{
    if n == 0 || n > m.len() {
        seq![]
    } else {
        let k = m[n - 1].0;
        let r = if sensitive(k) {
            Json::Str(redaction_mark())
        } else {
            redacted(m[n - 1].1)
        };
        redacted_members(m, (n - 1) as nat).push((k, r))
    }
}

/// Redaction keeps every key of an object in its place; the value under a
/// sensitive key becomes the redaction mark, and any other value is
/// redacted in turn.
pub proof fn lemma_redaction_hides_sensitive(m: Seq<(Seq<char>, Json)>)
    ensures
        redacted(Json::Object(m)) matches Json::Object(r) && r.len() == m.len() && forall|i: int|
            0 <= i < m.len() ==> #[trigger] r[i] == (m[i].0, if sensitive(m[i].0) {
                Json::Str(redaction_mark())
            } else {
                redacted(m[i].1)
            }),
{
    lemma_redacted_members(m, m.len());
}

proof fn lemma_redacted_members(m: Seq<(Seq<char>, Json)>, n: nat)
    requires
        n <= m.len(),
    ensures
        redacted_members(m, n).len() == n,
        forall|i: int|
            0 <= i < n ==> #[trigger] redacted_members(m, n)[i] == (m[i].0, if sensitive(m[i].0) {
                Json::Str(redaction_mark())
            } else {
                redacted(m[i].1)
            }),
    decreases n,
{
    if n > 0 {
        lemma_redacted_members(m, (n - 1) as nat);
        let p = redacted_members(m, (n - 1) as nat);
        assert forall|i: int| 0 <= i < n - 1 implies #[trigger] redacted_members(m, n)[i] == p[i] by {}
    }
}

/// `v` with every value under a sensitive key replaced by `[REDACTED]`.
pub fn redact_value(v: &JsonValue) -> (r: JsonValue)
    ensures
        r@ == redacted(v@),
    decreases v,
{
    match v {
        JsonValue::Null => JsonValue::Null,
        JsonValue::Bool(b) => JsonValue::Bool(*b),
        JsonValue::Number(n) => JsonValue::Number(n.clone()),
        JsonValue::String(s) => JsonValue::String(s.clone()),
        JsonValue::Array(a) => {
            let ghost items = items_view(a@, a@.len());
            proof {
                lemma_items_view(a@, a@.len());
                assert(decreases_to!(*v => *a));
            }
            let mut out: Vec<JsonValue> = Vec::new();
            let n = a.len();
            for i in 0..n
                invariant
                    *v == JsonValue::Array(*a),
                    decreases_to!(*v => *a),
                    n == a@.len() == items.len(),
                    items == items_view(a@, a@.len()),
                    forall|j: int| 0 <= j < n ==> #[trigger] items[j] == json_view(a@[j]),
                    out@.len() == i,
                    items_view(out@, i as nat) == redacted_items(items, i as nat),
            {
                proof {
                    assert(decreases_to!(*a => a[i as int]));
                }
                let c = redact_value(&a[i]);
                let ghost prev = out@;
                out.push(c);
                proof {
                    assert(items_view(out@, i as nat) == items_view(prev, i as nat)) by {
                        lemma_items_view(out@, i as nat);
                        lemma_items_view(prev, i as nat);
                        assert(items_view(out@, i as nat) =~= items_view(prev, i as nat));
                    }
                    assert(items[i as int] == a@[i as int]@);
                }
            }
            JsonValue::Array(out)
        },
        JsonValue::Object(m) => {
            let ghost members = members_view(m@, m@.len());
            proof {
                lemma_members_view(m@, m@.len());
                assert(decreases_to!(*v => *m));
            }
            let mut out: Vec<(String, JsonValue)> = Vec::new();
            let n = m.len();
            for i in 0..n
                invariant
                    *v == JsonValue::Object(*m),
                    decreases_to!(*v => *m),
                    n == m@.len() == members.len(),
                    members == members_view(m@, m@.len()),
                    forall|j: int|
                        0 <= j < n ==> #[trigger] members[j] == (m@[j].0@, json_view(m@[j].1)),
                    out@.len() == i,
                    members_view(out@, i as nat) == redacted_members(members, i as nat),
            {
                proof {
                    assert(decreases_to!(*m => m[i as int]));
                    assert(decreases_to!(m[i as int] => m[i as int].1));
                }
                let key = m[i].0.clone();
                let c = if is_sensitive_key(m[i].0.as_str()) {
                    JsonValue::String("[REDACTED]".to_owned())
                } else {
                    redact_value(&m[i].1)
                };
                let ghost prev = out@;
                out.push((key, c));
                proof {
                    assert(members_view(out@, i as nat) == members_view(prev, i as nat)) by {
                        lemma_members_view(out@, i as nat);
                        lemma_members_view(prev, i as nat);
                        assert(members_view(out@, i as nat) =~= members_view(prev, i as nat));
                    }
                    assert(members[i as int] == (m@[i as int].0@, m@[i as int].1@));
                    assert(out@[i as int] == (key, c));
                    assert(members_view(out@, (i + 1) as nat) == members_view(out@, i as nat).push((key@, c@)));
                    assert(c@ == (if sensitive(members[i as int].0) {
                        Json::Str(redaction_mark())
                    } else {
                        redacted(members[i as int].1)
                    }));
                }
            }
            JsonValue::Object(out)
        },
    }
}

/// One line of the audit trail.
#[derive(Debug)]
pub struct AuditEntry {
    pub seq: u64,
    pub ts: String,
    pub session_id: String,
    pub category: String,
    pub event: String,
    pub actor: String,
    pub data: JsonValue,
    pub outcome: Option<String>,
    pub prev_hash: String,
    pub hash: String,
}

/// The view of an optional text.
pub open spec fn opt_chars(o: Option<String>) -> Option<Seq<char>> {
    match o {
        Some(s) => Some(s@),
        None => None,
    }
}

/// A text member of an object, or the empty text where there is none.
pub open spec fn text_or_empty(v: Json, key: Seq<char>) -> Seq<char> {
    match text_of(field_of(v, key)) {
        Some(t) => t,
        None => Seq::empty(),
    }
}

fn text_field(v: &JsonValue, key: &str) -> (r: String)
    ensures
        r@ == text_or_empty(v@, key@),
{
    match as_text(field(v, key)) {
        Some(t) => t,
        None => String::new(),
    }
}

impl AuditEntry {
    /// The entry a line of a trail holds, read from its JSON: each field
    /// from its member (`sessionId` and `prevHash` for the two with two
    /// words), a missing or mistyped one read as zero, the empty text, or
    /// `null` for the data; anything but an object is refused.
    pub fn from_json(v: &JsonValue) -> (r: Result<AuditEntry, String>)
        ensures
            !(v@ is Object) ==> (r matches Err(m) && m@ == "expected object"@),
            v@ is Object ==> (r matches Ok(e) && e.seq == (match u64_of(field_of(v@, "seq"@)) {
                Some(n) => n,
                None => 0,
            }) && e.ts@ == text_or_empty(v@, "ts"@) && e.session_id@ == text_or_empty(v@, "sessionId"@)
                && e.category@ == text_or_empty(v@, "category"@) && e.event@ == text_or_empty(v@, "event"@)
                && e.actor@ == text_or_empty(v@, "actor"@) && e.data@ == (match field_of(v@, "data"@) {
                Some(d) => d,
                None => Json::Null,
            }) && opt_chars(e.outcome) == text_of(field_of(v@, "outcome"@)) && e.prev_hash@ == text_or_empty(
                v@,
                "prevHash"@,
            ) && e.hash@ == text_or_empty(v@, "hash"@)),
    {
        match v {
            JsonValue::Object(_) => {},
            _ => return Err("expected object".to_owned()),
        }
        let seq = match as_u64(field(v, "seq")) {
            Some(n) => n,
            None => 0,
        };
        let data = match field(v, "data") {
            Some(d) => clone_json(d),
            None => JsonValue::Null,
        };
        Ok(AuditEntry {
            seq,
            ts: text_field(v, "ts"),
            session_id: text_field(v, "sessionId"),
            category: text_field(v, "category"),
            event: text_field(v, "event"),
            actor: text_field(v, "actor"),
            data,
            outcome: as_text(field(v, "outcome")),
            prev_hash: text_field(v, "prevHash"),
            hash: text_field(v, "hash"),
        })
    }
}

/// The members of an entry's JSON object in the order they are written,
/// up to its previous hash; the entry's own hash comes last when `sealed`.
pub open spec fn entry_members(e: AuditEntry, sealed: bool) -> Seq<(Seq<char>, Json)> {
    let head = seq![
        ("seq"@, Json::Number(decimal(e.seq as nat))),
        ("ts"@, Json::Str(e.ts@)),
        ("sessionId"@, Json::Str(e.session_id@)),
        ("category"@, Json::Str(e.category@)),
        ("event"@, Json::Str(e.event@)),
        ("actor"@, Json::Str(e.actor@)),
        ("data"@, canonical(e.data@)),
    ];
    let mid = match opt_chars(e.outcome) {
        Some(o) => seq![("outcome"@, Json::Str(o))],
        None => seq![],
    };
    let tail = if sealed {
        seq![("prevHash"@, Json::Str(e.prev_hash@)), ("hash"@, Json::Str(e.hash@))]
    } else {
        seq![("prevHash"@, Json::Str(e.prev_hash@))]
    };
    head + mid + tail
}

/// The JSON line that holds an entry.
pub open spec fn entry_text(e: AuditEntry) -> Seq<char> {
    json_text(Json::Object(entry_members(e, true)))
}

/// What an entry's hash covers: its JSON object without the hash, keys
/// sorted, as compact text.
pub open spec fn hashed_text(e: AuditEntry) -> Seq<char> {
    json_text(canonical(Json::Object(entry_members(e, false))))
}

/// SHA-256 of `data`.
pub uninterp spec fn sha256_of(data: Seq<u8>) -> Seq<u8>;

/// `sha2::Sha256::digest`: the SHA-256 digest of `data`, 32 bytes long.
#[verifier::external_body]
fn sha256(data: &[u8]) -> (r: Vec<u8>)
    ensures
        r@ == sha256_of(data@),
        r@.len() == 32,
{
    sha2::Sha256::digest(data).to_vec()
}

/// Bytes as lowercase hexadecimal, two digits each.
pub open spec fn hex(b: Seq<u8>) -> Seq<char>
    decreases b.len(),
{
    if b.len() == 0 {
        seq![]
    } else {
        hex(b.drop_last()) + seq![
            crate::json::hex_digit((b.last() / 16) as nat),
            crate::json::hex_digit((b.last() % 16) as nat),
        ]
    }
}

/// The hash that seals an entry: the SHA-256 of what it covers, in
/// lowercase hexadecimal.
pub open spec fn entry_hash(e: AuditEntry) -> Seq<char> {
    hex(sha256_of(vstd::utf8::encode_utf8(hashed_text(e))))
}

fn hex_char(d: u8) -> (c: char)
    requires
        d < 16,
    ensures
        c == crate::json::hex_digit(d as nat),
{
    if d < 10 {
        (d + 48) as char
    } else {
        (d + 87) as char
    }
}

fn hex_string(b: &[u8]) -> (r: String)
    ensures
        r@ == hex(b@),
{
    let mut out: Vec<char> = Vec::new();
    let n = b.len();
    for i in 0..n
        invariant
            n == b@.len(),
            out@ == hex(b@.take(i as int)),
    {
        out.push(hex_char(b[i] / 16));
        out.push(hex_char(b[i] % 16));
        assert(b@.take(i + 1).drop_last() == b@.take(i as int));
    }
    assert(b@.take(n as int) == b@);
    from_chars(&out)
}

fn text_value(s: &String) -> (r: JsonValue)
    ensures
        r@ == Json::Str(s@),
{
    JsonValue::String(s.clone())
}

fn entry_object(e: &AuditEntry, sealed: bool) -> (r: JsonValue)
    ensures
        r@ == Json::Object(entry_members(*e, sealed)),
{
    let mut m: Vec<(String, JsonValue)> = Vec::new();
    m.push(("seq".to_owned(), JsonValue::Number(from_chars(&u64_decimal(e.seq)))));
    m.push(("ts".to_owned(), text_value(&e.ts)));
    m.push(("sessionId".to_owned(), text_value(&e.session_id)));
    m.push(("category".to_owned(), text_value(&e.category)));
    m.push(("event".to_owned(), text_value(&e.event)));
    m.push(("actor".to_owned(), text_value(&e.actor)));
    m.push(("data".to_owned(), canonicalize(&e.data)));
    match &e.outcome {
        Some(o) => m.push(("outcome".to_owned(), text_value(o))),
        None => {},
    }
    m.push(("prevHash".to_owned(), text_value(&e.prev_hash)));
    if sealed {
        m.push(("hash".to_owned(), text_value(&e.hash)));
    }
    proof {
        lemma_members_view(m@, m@.len());
        assert(members_view(m@, m@.len()) =~= entry_members(*e, sealed));
    }
    JsonValue::Object(m)
}

/// The JSON line that holds `entry`.
pub fn entry_line(entry: &AuditEntry) -> (r: String)
    ensures
        r@ == entry_text(*entry),
{
    let mut out: Vec<char> = Vec::new();
    write_json(&entry_object(entry, true), &mut out);
    from_chars(&out)
}

/// The hash that seals `entry`: SHA-256 over its JSON object without the
/// hash, keys sorted, in lowercase hexadecimal.
pub fn compute_entry_hash(entry: &AuditEntry) -> (r: String)
    ensures
        r@ == entry_hash(*entry),
{
    let mut out: Vec<char> = Vec::new();
    write_json(&canonicalize(&entry_object(entry, false)), &mut out);
    let text = from_chars(&out);
    let digest = sha256(text.as_str().as_bytes());
    hex_string(digest.as_slice())
}


/// The previous hash that entry `i` of a trail must carry: none for the
/// first, the hash of the one before it otherwise.
pub open spec fn expected_prev(s: Seq<AuditEntry>, i: int) -> Seq<char> {
    if i == 0 {
        seq![]
    } else {
        s[i - 1].hash@
    }
}

/// Entry `i` carries the hash of the entry before it.
pub open spec fn linked(s: Seq<AuditEntry>, i: int) -> bool {
    s[i].prev_hash@ == expected_prev(s, i)
}

/// Entry `i` carries its own hash.
pub open spec fn sealed(s: Seq<AuditEntry>, i: int) -> bool {
    s[i].hash@ == entry_hash(s[i])
}

/// Entry `i` is linked to the one before and sealed.
pub open spec fn intact(s: Seq<AuditEntry>, i: int) -> bool {
    linked(s, i) && sealed(s, i)
}

/// A trail whose every entry is linked to the one before and sealed.
pub open spec fn chain_valid(s: Seq<AuditEntry>) -> bool {
    forall|i: int| 0 <= i < s.len() ==> #[trigger] intact(s, i)
}

/// Entry `k` is where a trail first breaks.
pub open spec fn first_break(s: Seq<AuditEntry>, k: int) -> bool {
    &&& 0 <= k < s.len()
    &&& forall|j: int| 0 <= j < k ==> #[trigger] intact(s, j)
    &&& !intact(s, k)
}

/// What is reported of the entry where a trail breaks: a wrong previous
/// hash, or else a wrong hash of its own.
pub open spec fn break_message(e: AuditEntry, is_linked: bool) -> Seq<char> {
    if !is_linked {
        "Entry seq="@ + decimal(e.seq as nat) + ": prevHash mismatch"@
    } else {
        "Entry seq="@ + decimal(e.seq as nat) + ": hash mismatch (entry was tampered with)"@
    }
}

/// The outcome of checking a trail.
#[derive(Debug)]
pub struct IntegrityResult {
    pub valid: bool,
    pub total_entries: usize,
    pub error_message: Option<String>,
}

fn break_report(e: &AuditEntry, is_linked: bool) -> (r: String)
    ensures
        r@ == break_message(*e, is_linked),
{
    let mut out: Vec<char> = Vec::new();
    push_str(&mut out, "Entry seq=");
    let d = u64_decimal(e.seq);
    append_chars(&mut out, d.as_slice());
    if !is_linked {
        push_str(&mut out, ": prevHash mismatch");
    } else {
        push_str(&mut out, ": hash mismatch (entry was tampered with)");
    }
    from_chars(&out)
}

/// Checks a trail, entry by entry from the first: each must carry the hash
/// of the one before (none for the first) and its own hash. The report
/// names the first entry where that fails.
pub fn verify_entries(entries: &Vec<AuditEntry>) -> (r: IntegrityResult)
    ensures
        r.valid == chain_valid(entries@),
        r.total_entries == entries@.len(),
        r.valid ==> r.error_message is None,
        !r.valid ==> exists|k: int|
            first_break(entries@, k) && opt_chars(r.error_message) == Some(
                break_message(entries@[k], linked(entries@, k)),
            ),
{
    let n = entries.len();
    let mut prev = String::new();
    let mut i: usize = 0;
    while i < n
        invariant
            n == entries@.len(),
            i <= n,
            forall|j: int| 0 <= j < i ==> #[trigger] intact(entries@, j),
            prev@ == expected_prev(entries@, i as int),
        decreases n - i,
    {
        let e = &entries[i];
        let is_linked = chars_eq(&to_chars(e.prev_hash.as_str()), &to_chars(prev.as_str()));
        let is_sealed = if is_linked {
            let h = compute_entry_hash(e);
            chars_eq(&to_chars(e.hash.as_str()), &to_chars(h.as_str()))
        } else {
            false
        };
        if !is_sealed {
            let msg = break_report(e, is_linked);
            assert(!intact(entries@, i as int));
            assert(first_break(entries@, i as int));
            assert(!chain_valid(entries@));
            return IntegrityResult { valid: false, total_entries: n, error_message: Some(msg) };
        }
        assert(intact(entries@, i as int));
        prev = e.hash.clone();
        i = i + 1;
    }
    IntegrityResult { valid: true, total_entries: n, error_message: None }
}

/// Checks the trail read from a file, or reports why it could not be read.
pub fn verify_file(read: Result<Vec<AuditEntry>, String>) -> (r: IntegrityResult)
    ensures
        match read {
            Err(e) => !r.valid && r.total_entries == 0 && opt_chars(r.error_message) == Some(
                "cannot read file: "@ + e@,
            ),
            Ok(entries) => {
                &&& r.valid == chain_valid(entries@)
                &&& r.total_entries == entries@.len()
                &&& r.valid ==> r.error_message is None
                &&& !r.valid ==> exists|k: int|
                    first_break(entries@, k) && opt_chars(r.error_message) == Some(
                        break_message(entries@[k], linked(entries@, k)),
                    )
            },
        },
{
    match read {
        Err(e) => {
            let mut out: Vec<char> = Vec::new();
            push_str(&mut out, "cannot read file: ");
            push_str(&mut out, e.as_str());
            IntegrityResult { valid: false, total_entries: 0, error_message: Some(from_chars(&out)) }
        },
        Ok(entries) => verify_entries(&entries),
    }
}

/// Writes the audit trail of one session: numbers the entries, redacts
/// their data, and chains each to the one before by its hash.
pub struct AuditLogger {
    session_id: String,
    file_path: String,
    seq: u64,
    last_hash: String,
    trail: Ghost<Seq<AuditEntry>>,
}

impl AuditLogger {
    /// The entries recorded so far, oldest first.
    pub closed spec fn recorded(&self) -> Seq<AuditEntry> {
        self.trail@
    }

    /// The session the entries belong to.
    pub closed spec fn session(&self) -> Seq<char> {
        self.session_id@
    }

    /// The file the entries go to.
    pub closed spec fn path(&self) -> Seq<char> {
        self.file_path@
    }

    /// Well-formed: the recorded entries form a valid trail, numbered from
    /// one, and the next entry links to the last.
    pub closed spec fn wf(&self) -> bool {
        &&& self.seq == self.trail@.len()
        &&& chain_valid(self.trail@)
        &&& forall|i: int| 0 <= i < self.trail@.len() ==> #[trigger] self.trail@[i].seq == i + 1
        &&& self.last_hash@ == expected_prev(self.trail@, self.trail@.len() as int)
    }

    /// A logger for `session_id` whose file, in `dir`, is named after the
    /// session and `date`.
    pub fn starting(session_id: &str, dir: &str, date: &str) -> (r: Self)
        ensures
            r.wf(),
            r.recorded() == Seq::<AuditEntry>::empty(),
            r.session() == session_id@,
            r.path() == crate::config::path_join(dir@, session_id@ + "-"@ + date@ + ".jsonl"@),
    {
        let mut name: Vec<char> = Vec::new();
        push_str(&mut name, session_id);
        push_str(&mut name, "-");
        push_str(&mut name, date);
        push_str(&mut name, ".jsonl");
        let file_name = from_chars(&name);
        AuditLogger {
            session_id: session_id.to_owned(),
            file_path: crate::config::join_path(dir, file_name.as_str()),
            seq: 0,
            last_hash: String::new(),
            trail: Ghost(Seq::empty()),
        }
    }

    /// A logger for `session_id` writing to today's file (UTC) in `dir`.
    pub fn with_dir(session_id: &str, dir: &str) -> (r: Self)
        ensures
            r.wf(),
            r.recorded() == Seq::<AuditEntry>::empty(),
            r.session() == session_id@,
            exists|date: Seq<char>|
                r.path() == crate::config::path_join(dir@, session_id@ + "-"@ + date + ".jsonl"@),
    {
        let date = crate::clock::today_utc();
        AuditLogger::starting(session_id, dir, date.as_str())
    }

    /// A logger for `session_id` writing to today's file in the audit
    /// directory under `root`.
    pub fn new(session_id: &str, root: &str) -> (r: Self)
        ensures
            r.wf(),
            r.recorded() == Seq::<AuditEntry>::empty(),
            r.session() == session_id@,
            exists|date: Seq<char>|
                r.path() == crate::config::path_join(
                    crate::config::path_join(root@, "audit"@),
                    session_id@ + "-"@ + date + ".jsonl"@,
                ),
    {
        let dir = crate::config::audit_dir(root);
        AuditLogger::with_dir(session_id, dir.as_str())
    }

    /// The file the entries go to.
    pub fn file_path(&self) -> (r: &str)
        ensures
            r@ == self.path(),
    {
        self.file_path.as_str()
    }

    /// Records an entry stamped `ts`: numbered after the last, its data
    /// redacted, linked to the last entry's hash and sealed by its own.
    pub fn record_at(
        &mut self,
        category: &str,
        event: &str,
        actor: &str,
        data: &JsonValue,
        outcome: Option<String>,
        ts: &str,
    ) -> (e: AuditEntry)
        requires
            old(self).wf(),
            old(self).recorded().len() < u64::MAX,
        ensures
            final(self).wf(),
            final(self).recorded() == old(self).recorded().push(e),
            final(self).session() == old(self).session(),
            final(self).path() == old(self).path(),
            e.seq == old(self).recorded().len() + 1,
            e.ts@ == ts@,
            e.session_id@ == old(self).session(),
            e.category@ == category@,
            e.event@ == event@,
            e.actor@ == actor@,
            e.data@ == redacted(data@),
            opt_chars(e.outcome) == opt_chars(outcome),
            e.prev_hash@ == expected_prev(old(self).recorded(), old(self).recorded().len() as int),
            e.hash@ == entry_hash(e),
    {
        let seq = self.seq + 1;
        let mut e = AuditEntry {
            seq,
            ts: ts.to_owned(),
            session_id: self.session_id.clone(),
            category: category.to_owned(),
            event: event.to_owned(),
            actor: actor.to_owned(),
            data: redact_value(data),
            outcome,
            prev_hash: self.last_hash.clone(),
            hash: String::new(),
        };
        let h = compute_entry_hash(&e);
        assert(hashed_text(AuditEntry { hash: h, ..e }) == hashed_text(e));
        e.hash = h;
        self.last_hash = e.hash.clone();
        self.seq = seq;
        let ghost old_trail = self.trail@;
        proof {
            self.trail@ = old_trail.push(e);
            let t = self.trail@;
            assert forall|i: int| 0 <= i < t.len() implies #[trigger] intact(t, i) by {
                if i < old_trail.len() {
                    assert(intact(old_trail, i));
                    assert(t[i] == old_trail[i]);
                    if i > 0 {
                        assert(t[i - 1] == old_trail[i - 1]);
                    }
                }
            }
        }
        e
    }

    /// Records an entry stamped with the current time (UTC, RFC 3339 with
    /// milliseconds).
    pub fn record(
        &mut self,
        category: &str,
        event: &str,
        actor: &str,
        data: &JsonValue,
        outcome: Option<String>,
    ) -> (e: AuditEntry)
        requires
            old(self).wf(),
            old(self).recorded().len() < u64::MAX,
        ensures
            final(self).wf(),
            final(self).recorded() == old(self).recorded().push(e),
            final(self).session() == old(self).session(),
            final(self).path() == old(self).path(),
            e.seq == old(self).recorded().len() + 1,
            e.session_id@ == old(self).session(),
            e.category@ == category@,
            e.event@ == event@,
            e.actor@ == actor@,
            e.data@ == redacted(data@),
            opt_chars(e.outcome) == opt_chars(outcome),
            e.prev_hash@ == expected_prev(old(self).recorded(), old(self).recorded().len() as int),
            e.hash@ == entry_hash(e),
    {
        let ts = crate::clock::now_rfc3339();
        self.record_at(category, event, actor, data, outcome, ts.as_str())
    }
}

/// Once an entry is recorded, the next one links to it: its previous hash
/// is the entry's hash. The chain advances with the logger alone, whatever
/// becomes of writing the entry out.
pub proof fn lemma_next_links_to_last(trail: Seq<AuditEntry>, e: AuditEntry)
    ensures
        expected_prev(trail.push(e), trail.push(e).len() as int) == e.hash@,
        expected_prev(trail, 0) == Seq::<char>::empty(),
{
}

/// Every trail a logger records passes verification: each entry is linked
/// to the one before it and sealed by its own hash.
pub proof fn lemma_recorded_trail_is_valid(logger: &AuditLogger)
    requires
        logger.wf(),
    ensures
        chain_valid(logger.recorded()),
{
}


/// What `str::to_lowercase` gives for a text.
pub uninterp spec fn lowercase_of(s: Seq<char>) -> Seq<char>;

/// `str::to_lowercase`: `s` in lowercase.
#[verifier::external_body]
fn to_lowercase(s: &str) -> (r: String)
    ensures
        r@ == lowercase_of(s@),
{
    s.to_lowercase()
}

/// The milliseconds since the epoch that a `since` bound names: an RFC 3339
/// date and time, or else a `YYYY-MM-DD` date taken at midnight UTC.
pub open spec fn timestamp_millis(s: Seq<char>) -> Option<i64> {
    match rfc3339_millis_of(s) {
        Some(ms) => Some(ms),
        None => date_start_millis_of(s, "%Y-%m-%d"@),
    }
}

/// Reads a `since` bound: an RFC 3339 date and time, or a `YYYY-MM-DD`
/// date taken at midnight UTC.
pub fn parse_timestamp(s: &str) -> (r: Option<i64>)
    ensures
        r == timestamp_millis(s@),
{
    match parse_rfc3339_millis(s) {
        Some(ms) => Some(ms),
        None => parse_date_start_millis(s, "%Y-%m-%d"),
    }
}

/// What to select from a trail.
#[derive(Debug)]
pub struct QueryOptions {
    pub event: Option<String>,
    pub outcome: Option<String>,
    pub since: Option<String>,
    pub search: Option<String>,
    pub limit: usize,
}

/// Whether a query keeps an entry: the event and outcome match where they
/// are asked for, the entry is no older than `since` where both times can
/// be read, and its JSON line holds the search text, ignoring case.
pub open spec fn query_keeps(e: AuditEntry, o: QueryOptions) -> bool {
    &&& match o.event {
        Some(ev) => e.event@ == ev@,
        None => true,
    }
    &&& match o.outcome {
        Some(out) => opt_chars(e.outcome) == Some(out@),
        None => true,
    }
    &&& match o.since {
        Some(since) => match timestamp_millis(since@) {
            Some(bound) => match rfc3339_millis_of(e.ts@) {
                Some(t) => t >= bound,
                None => true,
            },
            None => true,
        },
        None => true,
    }
    &&& match o.search {
        Some(q) => contains(lowercase_of(entry_text(e)), lowercase_of(q@)),
        None => true,
    }
}

/// The entries a query keeps, newest (last written) first.
pub open spec fn kept_newest_first(s: Seq<AuditEntry>, o: QueryOptions) -> Seq<AuditEntry>
    decreases s.len(),
{
    if s.len() == 0 {
        seq![]
    } else {
        let rest = kept_newest_first(s.drop_last(), o);
        if query_keeps(s.last(), o) {
            seq![s.last()] + rest
        } else {
            rest
        }
    }
}

/// The search ignores case, on both sides: two searches whose texts have
/// the same lowercase form keep the same entries, and an entry is judged by
/// the lowercase form of its JSON line alone. With a search, an entry is
/// kept when the other filters keep it and its lowercased line holds the
/// lowercased search text.
pub proof fn lemma_search_ignores_case(e: AuditEntry, e2: AuditEntry, o: QueryOptions, o2: QueryOptions)
    requires
        o.search is Some,
    ensures
        o2.event == o.event && o2.outcome == o.outcome && o2.since == o.since && o2.search is Some && lowercase_of(
            o2.search->0@,
        ) == lowercase_of(o.search->0@) ==> query_keeps(e, o2) == query_keeps(e, o),
        e2.event == e.event && e2.outcome == e.outcome && e2.ts == e.ts && lowercase_of(entry_text(e2))
            == lowercase_of(entry_text(e)) ==> query_keeps(e2, o) == query_keeps(e, o),
        query_keeps(e, o) == (query_keeps(e, QueryOptions { search: None, ..o }) && contains(
            lowercase_of(entry_text(e)),
            lowercase_of(o.search->0@),
        )),
{
}

/// The same for whole queries: two searches whose texts have the same
/// lowercase form select the same entries, in the same order.
pub proof fn lemma_query_ignores_case(s: Seq<AuditEntry>, o: QueryOptions, o2: QueryOptions)
    requires
        o.search is Some,
        o2.search is Some,
        o2.event == o.event,
        o2.outcome == o.outcome,
        o2.since == o.since,
        lowercase_of(o2.search->0@) == lowercase_of(o.search->0@),
    ensures
        kept_newest_first(s, o2) == kept_newest_first(s, o),
    decreases s.len(),
{
    if s.len() > 0 {
        lemma_query_ignores_case(s.drop_last(), o, o2);
        lemma_search_ignores_case(s.last(), s.last(), o, o2);
    }
}

/// A query selects exactly the entries it keeps, in the reverse of the
/// order they were written: the trail filtered, then reversed.
pub proof fn lemma_query_selects_newest_first(s: Seq<AuditEntry>, o: QueryOptions)
    ensures
        kept_newest_first(s, o) == s.filter(|e: AuditEntry| query_keeps(e, o)).reverse(),
    decreases s.len(),
{
    reveal(Seq::filter);
    if s.len() > 0 {
        lemma_query_selects_newest_first(s.drop_last(), o);
        let f = s.drop_last().filter(|e: AuditEntry| query_keeps(e, o));
        assert(s.filter(|e: AuditEntry| query_keeps(e, o)) == if query_keeps(s.last(), o) {
            f.push(s.last())
        } else {
            f
        });
        assert(f.push(s.last()).reverse() =~= seq![s.last()] + f.reverse());
    } else {
        assert(s.filter(|e: AuditEntry| query_keeps(e, o)).reverse() =~= Seq::<AuditEntry>::empty());
    }
}

/// The entries of a trail that a query selects, newest first, at most
/// `limit` of them.
pub fn query_entries(entries: Vec<AuditEntry>, options: &QueryOptions) -> (r: Vec<AuditEntry>)
    ensures
        ({
            let m = kept_newest_first(entries@, *options);
            r@ == if m.len() > options.limit {
                m.take(options.limit as int)
            } else {
                m
            }
        }),
{
    let since_ms = match &options.since {
        Some(s) => parse_timestamp(s.as_str()),
        None => None,
    };
    let search_lower = match &options.search {
        Some(q) => Some(to_lowercase(q.as_str())),
        None => None,
    };
    let ghost all = entries@;
    let mut rest = entries;
    let mut out: Vec<AuditEntry> = Vec::new();
    while rest.len() > 0
        invariant
            kept_newest_first(all, *options) == out@ + kept_newest_first(rest@, *options),
            since_ms == match options.since {
                Some(s) => timestamp_millis(s@),
                None => None,
            },
            search_lower is Some <==> options.search is Some,
            search_lower is Some ==> search_lower->0@ == lowercase_of(options.search->0@),
        decreases rest@.len(),
    {
        let ghost before = rest@;
        let e = rest.pop().unwrap();
        assert(rest@ == before.drop_last());
        let mut keep = true;
        if let Some(ev) = &options.event {
            if !chars_eq(&to_chars(e.event.as_str()), &to_chars(ev.as_str())) {
                keep = false;
            }
        }
        if let Some(want) = &options.outcome {
            match &e.outcome {
                Some(o) => {
                    if !chars_eq(&to_chars(o.as_str()), &to_chars(want.as_str())) {
                        keep = false;
                    }
                },
                None => {
                    keep = false;
                },
            }
        }
        if let Some(bound) = since_ms {
            if let Some(t) = parse_rfc3339_millis(e.ts.as_str()) {
                if t < bound {
                    keep = false;
                }
            }
        }
        if let Some(q) = &search_lower {
            let line = to_lowercase(entry_line(&e).as_str());
            if !contains_vec(&to_chars(line.as_str()), &to_chars(q.as_str())) {
                keep = false;
            }
        }
        assert(keep == query_keeps(e, *options));
        if keep {
            let ghost o = out@;
            out.push(e);
            assert(out@ + kept_newest_first(rest@, *options) == o + (seq![e] + kept_newest_first(rest@, *options)));
        }
    }
    assert(rest@.len() == 0);
    assert(kept_newest_first(rest@, *options) == Seq::<AuditEntry>::empty());
    assert(out@ + kept_newest_first(rest@, *options) == out@);
    out.truncate(options.limit);
    out
}

/// The non-blank lines, trimmed.
pub open spec fn nonblank_lines(ls: Seq<Seq<char>>) -> Seq<Seq<char>>
    decreases ls.len(),
{
    if ls.len() == 0 {
        seq![]
    } else {
        let r = nonblank_lines(ls.drop_last());
        let t = trim(ls.last());
        if t.len() > 0 {
            r.push(t)
        } else {
            r
        }
    }
}

/// The entries' lines of a trail file: its non-blank lines, trimmed.
pub fn entry_lines(content: &str) -> (r: Vec<String>)
    ensures
        r@.map_values(|x: String| x@) == nonblank_lines(lines(content@)),
{
    let ls = split_lines(&to_chars(content));
    let ghost lv = views(ls@);
    let mut out: Vec<String> = Vec::new();
    let n = ls.len();
    for i in 0..n
        invariant
            n == ls@.len(),
            lv == views(ls@),
            lv == lines(content@),
            out@.map_values(|x: String| x@) == nonblank_lines(lv.take(i as int)),
    {
        let t = trim_vec(ls[i].as_slice());
        assert(lv.take(i + 1).drop_last() == lv.take(i as int));
        assert(lv[i as int] == ls@[i as int]@);
        if t.len() > 0 {
            let ghost o = out@;
            out.push(from_chars(&t));
            assert(out@.map_values(|x: String| x@) == o.map_values(|x: String| x@).push(t@));
        }
    }
    assert(lv.take(n as int) == lv);
    out
}

/// What a `regex::Regex` built from `pattern` captures in `text`: each
/// group's text (empty for a group that took no part), or `None` when the
/// pattern does not match or is no valid pattern.
pub uninterp spec fn regex_captures_of(pattern: Seq<char>, text: Seq<char>) -> Option<Seq<Seq<char>>>;

/// The view of optional captured texts.
pub open spec fn captures_view(r: Option<Vec<String>>) -> Option<Seq<Seq<char>>> {
    match r {
        Some(v) => Some(v@.map_values(|x: String| x@)),
        None => None,
    }
}

/// `regex::Regex::new` and `Regex::captures`: the texts of the groups that
/// `pattern` captures in `text`.
#[verifier::external_body]
fn regex_captures(pattern: &str, text: &str) -> (r: Option<Vec<String>>)
    ensures
        captures_view(r) == regex_captures_of(pattern@, text@),
{
    regex::Regex::new(pattern).ok().and_then(|re| {
        re.captures(text).map(|c| c.iter().map(|m| m.map_or(String::new(), |m| m.as_str().to_string())).collect())
    })
}

/// The name of a trail file: the session, a hyphen, the date and `.jsonl`.
pub open spec fn audit_file_pattern() -> Seq<char> {
    "^(.+)-(\\d{4}-\\d{2}-\\d{2})\\.jsonl$"@
}

/// The session and the date that a trail file's name holds, or `None` for
/// a name of another shape.
pub fn audit_file_name(name: &str) -> (r: Option<(String, String)>)
    ensures
        match regex_captures_of(audit_file_pattern(), name@) {
            Some(c) => if c.len() >= 3 {
                match r {
                    Some(p) => p.0@ == c[1] && p.1@ == c[2],
                    None => false,
                }
            } else {
                r is None
            },
            None => r is None,
        },
{
    match regex_captures(
        "^(.+)-(\\d{4}-\\d{2}-\\d{2})\\.jsonl$",
        name,
    ) {
        Some(c) => {
            if c.len() >= 3 {
                Some((c[1].clone(), c[2].clone()))
            } else {
                None
            }
        },
        None => None,
    }
}

/// What is known of a trail file.
#[derive(Debug)]
pub struct AuditFileInfo {
    pub path: String,
    pub session_id: String,
    pub date: String,
    pub size_bytes: u64,
    pub entry_count: usize,
}

/// `x` placed before the first file with an older date.
pub open spec fn insert_by_date(s: Seq<AuditFileInfo>, x: AuditFileInfo) -> Seq<AuditFileInfo>
    decreases s.len(),
{
    if s.len() == 0 {
        seq![x]
    } else if str_lt(s[0].date@, x.date@) {
        seq![x] + s
    } else {
        seq![s[0]] + insert_by_date(s.drop_first(), x)
    }
}

/// The files, newest date first; files of one date keep their order.
pub open spec fn newest_first(s: Seq<AuditFileInfo>) -> Seq<AuditFileInfo>
    decreases s.len(),
{
    if s.len() == 0 {
        seq![]
    } else {
        insert_by_date(newest_first(s.drop_last()), s.last())
    }
}

proof fn lemma_insert_by_date(s: Seq<AuditFileInfo>, x: AuditFileInfo, j: int)
    requires
        0 <= j <= s.len(),
        forall|k: int| 0 <= k < j ==> !str_lt(#[trigger] s[k].date@, x.date@),
        j < s.len() ==> str_lt(s[j].date@, x.date@),
    ensures
        insert_by_date(s, x) == s.insert(j, x),
    decreases s.len(),
{
    if s.len() == 0 {
        assert(s.insert(j, x) =~= seq![x]);
    } else if j == 0 {
        assert(s.insert(0, x) =~= seq![x] + s);
    } else {
        let t = s.drop_first();
        assert forall|k: int| 0 <= k < j - 1 implies !str_lt(#[trigger] t[k].date@, x.date@) by {
            assert(t[k] == s[k + 1]);
        }
        lemma_insert_by_date(t, x, j - 1);
        assert(s.insert(j, x) =~= seq![s[0]] + t.insert(j - 1, x));
    }
}

/// The files, newest date first, as `audit list` shows them.
pub fn sort_newest_first(files: Vec<AuditFileInfo>) -> (r: Vec<AuditFileInfo>)
    ensures
        r@ == newest_first(files@),
{
    let total = files.len();
    let ghost all = files@;
    let mut rest = files;
    let mut out: Vec<AuditFileInfo> = Vec::new();
    let mut k: usize = 0;
    while rest.len() > 0
        invariant
            k <= all.len(),
            all.len() <= usize::MAX,
            rest@ == all.skip(k as int),
            out@ == newest_first(all.take(k as int)),
        decreases rest@.len(),
    {
        let x = rest.remove(0);
        assert(x == all[k as int]);
        assert(rest@ == all.skip(k + 1));
        let mut j: usize = 0;
        while j < out.len() && !str_less(out[j].date.as_str(), x.date.as_str())
            invariant
                j <= out@.len(),
                forall|i: int| 0 <= i < j ==> !str_lt(#[trigger] out@[i].date@, x.date@),
            decreases out@.len() - j,
        {
            j = j + 1;
        }
        proof {
            lemma_insert_by_date(out@, x, j as int);
            assert(all.take(k + 1).drop_last() == all.take(k as int));
            assert(all.take(k + 1).last() == x);
        }
        out.insert(j, x);
        k = k + 1;
    }
    assert(all.take(k as int) == all);
    out
}

} // verus!
