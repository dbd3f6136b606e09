//! Token rotation by the Daylite API: a reply may hand out new tokens in its
//! headers or anywhere in its JSON body, and the client adopts them.

use super::shared::{
    http_error_kind, http_error_log, missing_token_error, normalize_http_error, truncate_for_log, truncated_for_log,
    DayliteApiError, DayliteApiErrorCode, DayliteTokenState,
};
use crate::text::{opt_view, push_str, trim, trimmed};
use vstd::prelude::*;
use vstd::string::StrSliceExecFns;

verus! {

/// A JSON document as the token search reads it. Numbers carry no value here:
/// no token is a number.
#[derive(Debug, PartialEq, Eq)]
pub enum JsonValue {
    Null,
    Bool(bool),
    Number,
    Text(String),
    Array(Vec<JsonValue>),
    /// The members in the order the parsed object lists them.
    Object(Vec<(String, JsonValue)>),
}

/// The code of a character with ASCII capitals folded to lower case.
pub open spec fn ascii_folded(c: char) -> u32 {
    if 65 <= c as u32 <= 90 {
        (c as u32 + 32) as u32
    } else {
        c as u32
    }
}

/// Equality of texts ignoring ASCII case.
pub open spec fn eq_ignore_ascii_case_spec(a: Seq<char>, b: Seq<char>) -> bool {
    a.len() == b.len() && forall|i: int| 0 <= i < a.len() ==> ascii_folded(#[trigger] a[i]) == ascii_folded(b[i])
}

/// Whether the key names one of the candidates, ignoring ASCII case.
pub open spec fn is_candidate_key(key: Seq<char>, candidates: Seq<Seq<char>>) -> bool {
    exists|i: int| 0 <= i < candidates.len() && eq_ignore_ascii_case_spec(key, #[trigger] candidates[i])
}

/// The first text value, depth first in document order, of a member whose
/// key is a candidate; a candidate member that is not text is searched inside.
pub open spec fn json_token(v: JsonValue, candidates: Seq<Seq<char>>) -> Option<Seq<char>>
    decreases v, 0int,
{
    match v {
        JsonValue::Array(items) => items_token(items@, candidates, 0),
        JsonValue::Object(members) => members_token(members@, candidates, 0),
        _ => None,
    }
}

/// The token of the first of `items[i..]` that holds one.
pub open spec fn items_token(items: Seq<JsonValue>, candidates: Seq<Seq<char>>, i: int) -> Option<Seq<char>>
    decreases items, items.len() - i,
{
    if 0 <= i < items.len() {
        match json_token(items[i], candidates) {
            Some(t) => Some(t),
            None => items_token(items, candidates, i + 1),
        }
    } else {
        None
    }
}

/// The token of the first of `members[i..]` that is a candidate with a text
/// value or holds one inside.
pub open spec fn members_token(members: Seq<(String, JsonValue)>, candidates: Seq<Seq<char>>, i: int) -> Option<Seq<char>>
    decreases members, members.len() - i,
{
    if 0 <= i < members.len() {
        if is_candidate_key(members[i].0@, candidates) && members[i].1 is Text {
            Some(members[i].1->Text_0@)
        } else {
            match json_token(members[i].1, candidates) {
                Some(t) => Some(t),
                None => members_token(members, candidates, i + 1),
            }
        }
    } else {
        None
    }
}

/// Whether two texts are equal ignoring ASCII case.
pub fn eq_ignore_ascii_case(a: &str, b: &str) -> (r: bool)
    ensures
        r == eq_ignore_ascii_case_spec(a@, b@),
{
    let n = a.unicode_len();
    if n != b.unicode_len() {
        return false;
    }
    let mut i: usize = 0;
    while i < n
        invariant
            n == a@.len(),
            n == b@.len(),
            i <= n,
            forall|k: int| 0 <= k < i ==> ascii_folded(#[trigger] a@[k]) == ascii_folded(b@[k]),
        decreases n - i,
    {
        let x = a.get_char(i) as u32;
        let y = b.get_char(i) as u32;
        let fx: u32 = if 65 <= x && x <= 90 { x + 32 } else { x };
        let fy: u32 = if 65 <= y && y <= 90 { y + 32 } else { y };
        if fx != fy {
            assert(ascii_folded(a@[i as int]) != ascii_folded(b@[i as int]));
            return false;
        }
        i = i + 1;
    }
    true
}

fn is_candidate(key: &str, candidates: &[&str]) -> (r: bool)
    ensures
        r == is_candidate_key(key@, candidates@.map_values(|c: &str| c@)),
{
    let ghost cands = candidates@.map_values(|c: &str| c@);
    let mut i: usize = 0;
    while i < candidates.len()
        invariant
            i <= candidates@.len(),
            cands == candidates@.map_values(|c: &str| c@),
            forall|k: int| 0 <= k < i ==> !eq_ignore_ascii_case_spec(key@, #[trigger] cands[k]),
        decreases candidates@.len() - i,
    {
        if eq_ignore_ascii_case(key, candidates[i]) {
            assert(eq_ignore_ascii_case_spec(key@, cands[i as int]));
            return true;
        }
        i = i + 1;
    }
    false
}

/// Searches a JSON document for a token (see `json_token`).
pub fn find_json_key_value(value: &JsonValue, candidates: &[&str]) -> (r: Option<String>)
    ensures
        match r {
            Some(t) => json_token(*value, candidates@.map_values(|c: &str| c@)) == Some(t@),
            None => json_token(*value, candidates@.map_values(|c: &str| c@)) is None,
        },
    decreases *value, 0int,
{
    let ghost cands = candidates@.map_values(|c: &str| c@);
    match value {
        JsonValue::Array(items) => {
            let mut i: usize = 0;
            while i < items.len()
                invariant
                    i <= items@.len(),
                    *value == JsonValue::Array(*items),
                    cands == candidates@.map_values(|c: &str| c@),
                    json_token(*value, cands) == items_token(items@, cands, i as int),
                decreases items@.len() - i,
            {
                assert(decreases_to!(*value => items@[i as int]));
                let found = find_json_key_value(&items[i], candidates);
                if let Some(t) = found {
                    return Some(t);
                }
                i = i + 1;
            }
            None
        },
        JsonValue::Object(members) => {
            let mut i: usize = 0;
            while i < members.len()
                invariant
                    i <= members@.len(),
                    *value == JsonValue::Object(*members),
                    cands == candidates@.map_values(|c: &str| c@),
                    json_token(*value, cands) == members_token(members@, cands, i as int),
                decreases members@.len() - i,
            {
                let key = members[i].0.as_str();
                if is_candidate(key, candidates) {
                    if let JsonValue::Text(t) = &members[i].1 {
                        return Some(t.clone());
                    }
                }
                assert(decreases_to!(*value => members@[i as int].1));
                let found = find_json_key_value(&members[i].1, candidates);
                if let Some(t) = found {
                    return Some(t);
                }
                i = i + 1;
            }
            None
        },
        _ => None,
    }
}

/// A reply of the Daylite transport as token rotation reads it.
pub struct DayliteReply {
    pub status: u16,
    /// Header names (lower case) and values.
    pub headers: Vec<(String, String)>,
    pub body: String,
    /// The body read as JSON; none when it is not JSON.
    pub json: Option<JsonValue>,
}

/// The views of header pairs.
pub open spec fn headers_view(headers: Seq<(String, String)>) -> Seq<(Seq<char>, Seq<char>)> {
    headers.map_values(|h: (String, String)| (h.0@, h.1@))
}

/// The value of the first header with the given name.
pub open spec fn header_value(headers: Seq<(Seq<char>, Seq<char>)>, name: Seq<char>) -> Option<Seq<char>>
    decreases headers.len(),
{
    if headers.len() == 0 {
        None
    } else if headers[0].0 == name {
        Some(headers[0].1)
    } else {
        header_value(headers.drop_first(), name)
    }
}

/// The trimmed value of the header of the first candidate name that is present.
pub open spec fn header_token(headers: Seq<(Seq<char>, Seq<char>)>, candidates: Seq<Seq<char>>) -> Option<Seq<char>>
    decreases candidates.len(),
{
    if candidates.len() == 0 {
        None
    } else {
        match header_value(headers, candidates[0]) {
            Some(v) => Some(trimmed(v)),
            None => header_token(headers, candidates.drop_first()),
        }
    }
}

fn find_header(headers: &Vec<(String, String)>, name: &str) -> (r: Option<String>)
    ensures
        opt_view(r) == header_value(headers_view(headers@), name@),
{
    let ghost hv = headers_view(headers@);
    let mut i: usize = 0;
    assert(hv.skip(0) =~= hv);
    while i < headers.len()
        invariant
            i <= headers@.len(),
            hv == headers_view(headers@),
            header_value(hv, name@) == header_value(hv.skip(i as int), name@),
        decreases headers@.len() - i,
    {
        assert(hv.skip(i as int).drop_first() =~= hv.skip(i + 1));
        assert(hv.skip(i as int)[0] == hv[i as int]);
        if crate::text::text_eq(headers[i].0.as_str(), name) {
            return Some(headers[i].1.clone());
        }
        i = i + 1;
    }
    None
}

/// The token of the first candidate header present (see `header_token`).
pub fn extract_header_token(headers: &Vec<(String, String)>, candidates: &[&str]) -> (r: Option<String>)
    ensures
        opt_view(r) == header_token(headers_view(headers@), candidates@.map_values(|c: &str| c@)),
{
    let ghost cands = candidates@.map_values(|c: &str| c@);
    let ghost hv = headers_view(headers@);
    let mut i: usize = 0;
    assert(cands.skip(0) =~= cands);
    while i < candidates.len()
        invariant
            i <= candidates@.len(),
            cands == candidates@.map_values(|c: &str| c@),
            hv == headers_view(headers@),
            header_token(hv, cands) == header_token(hv, cands.skip(i as int)),
        decreases candidates@.len() - i,
    {
        assert(cands.skip(i as int).drop_first() =~= cands.skip(i + 1));
        assert(cands.skip(i as int)[0] == cands[i as int]);
        if let Some(v) = find_header(headers, candidates[i]) {
            return Some(trim(v.as_str()));
        }
        i = i + 1;
    }
    None
}

/// The number of UTF-8 bytes of a character.
pub open spec fn utf8_len(c: char) -> int {
    if (c as u32) < 0x80 {
        1
    } else if (c as u32) < 0x800 {
        2
    } else if (c as u32) < 0x10000 {
        3
    } else {
        4
    }
}

/// The number of UTF-8 bytes of a text.
pub open spec fn utf8_len_seq(s: Seq<char>) -> int
    decreases s.len(),
{
    if s.len() == 0 {
        0
    } else {
        utf8_len(s[0]) + utf8_len_seq(s.drop_first())
    }
}

/// Whether byte `b` of the text falls inside a character.
pub open spec fn splits_char_at(s: Seq<char>, b: int) -> bool
    decreases s.len(),
{
    if b <= 0 || s.len() == 0 {
        false
    } else if utf8_len(s[0]) > b {
        true
    } else {
        splits_char_at(s.drop_first(), b - utf8_len(s[0]))
    }
}

/// Whether reading the `Bearer ` prefix of a token cuts a character in two:
/// the token, trimmed, has seven bytes or more and its seventh byte boundary
/// falls inside a character. Reading such a token panics.
pub open spec fn bearer_cut_splits(token: Seq<char>) -> bool {
    utf8_len_seq(trimmed(token)) >= 7 && splits_char_at(trimmed(token), 7)
}

proof fn lemma_utf8_len_nonneg(s: Seq<char>)
    ensures
        utf8_len_seq(s) >= 0,
    decreases s.len(),
{
    if s.len() > 0 {
        lemma_utf8_len_nonneg(s.drop_first());
    }
}

/// Whether the first seven bytes of the text cut a character (see `bearer_cut_splits`).
pub fn bearer_cut_splits_exec(token: &str) -> (r: bool)
    ensures
        r == bearer_cut_splits(token@),
{
    let t = trim(token);
    let ghost tv = t@;
    let n = t.as_str().unicode_len();
    let mut bytes: u64 = 0;
    let mut i: usize = 0;
    assert(tv.skip(0) =~= tv);
    while i < n
        invariant
            n == tv.len(),
            tv == t@,
            tv == trimmed(token@),
            i <= n,
            bytes < 7,
            utf8_len_seq(tv) == bytes + utf8_len_seq(tv.skip(i as int)),
            splits_char_at(tv, 7) == splits_char_at(tv.skip(i as int), 7 - bytes),
        decreases n - i,
    {
        proof {
            assert(tv.skip(i as int).drop_first() =~= tv.skip(i + 1));
            assert(tv.skip(i as int)[0] == tv[i as int]);
            lemma_utf8_len_nonneg(tv.skip(i + 1));
        }
        let c = t.as_str().get_char(i) as u32;
        let w: u64 = if c < 0x80 { 1 } else if c < 0x800 { 2 } else if c < 0x10000 { 3 } else { 4 };
        assert(w == utf8_len(tv[i as int]));
        proof {
            let rest = tv.skip(i as int);
            assert(utf8_len_seq(rest) == utf8_len(rest[0]) + utf8_len_seq(rest.drop_first()));
            assert(splits_char_at(rest, 7 - bytes) == (if utf8_len(rest[0]) > 7 - bytes {
                true
            } else {
                splits_char_at(rest.drop_first(), 7 - bytes - utf8_len(rest[0]))
            }));
        }
        if w > 7 - bytes {
            return true;
        }
        if w == 7 - bytes {
            return false;
        }
        bytes = bytes + w;
        i = i + 1;
    }
    assert(tv.skip(n as int) =~= Seq::<char>::empty());
    false
}

/// An access token without surrounding blanks and without a leading
/// `Bearer ` (any ASCII case), itself trimmed again.
pub open spec fn normalized_access_token(token: Seq<char>) -> Seq<char> {
    let t = trimmed(token);
    if t.len() >= 7 && eq_ignore_ascii_case_spec(t.take(7), "bearer "@) {
        trimmed(t.skip(7))
    } else {
        t
    }
}

/// Normalises an access token (see `normalized_access_token`).
pub fn normalize_access_token(token_value: &str) -> (r: String)
    requires
        !bearer_cut_splits(token_value@),
    ensures
        r@ == normalized_access_token(token_value@),
{
    let t = trim(token_value);
    let n = t.as_str().unicode_len();
    if n >= 7 {
        let head = t.as_str().substring_char(0, 7);
        proof {
            reveal_strlit("bearer ");
            assert(head@ =~= t@.take(7));
        }
        if eq_ignore_ascii_case(head, "bearer ") {
            let rest = t.as_str().substring_char(7, n);
            assert(rest@ =~= t@.skip(7));
            return trim(rest);
        }
    }
    t
}

/// The header names an access token may come in.
pub open spec fn access_header_names() -> Seq<Seq<char>> {
    seq!["authorization"@, "access-token"@, "access_token"@]
}

/// The JSON keys an access token may come under.
pub open spec fn access_json_keys() -> Seq<Seq<char>> {
    seq!["authorization"@, "access_token"@, "access-token"@, "token"@]
}

/// The header names a refresh token may come in.
pub open spec fn refresh_header_names() -> Seq<Seq<char>> {
    seq!["refresh-token"@, "refresh_token"@, "x-refresh-token"@]
}

/// The JSON keys a refresh token may come under.
pub open spec fn refresh_json_keys() -> Seq<Seq<char>> {
    seq!["refresh_token"@, "refresh-token"@]
}

fn access_header_list() -> (r: Vec<&'static str>)
    ensures
        r@.map_values(|c: &str| c@) == access_header_names(),
{
    let r = vec!["authorization", "access-token", "access_token"];
    assert(r@.map_values(|c: &str| c@) =~= access_header_names());
    r
}

fn access_json_list() -> (r: Vec<&'static str>)
    ensures
        r@.map_values(|c: &str| c@) == access_json_keys(),
{
    let r = vec!["authorization", "access_token", "access-token", "token"];
    assert(r@.map_values(|c: &str| c@) =~= access_json_keys());
    r
}

fn refresh_header_list() -> (r: Vec<&'static str>)
    ensures
        r@.map_values(|c: &str| c@) == refresh_header_names(),
{
    let r = vec!["refresh-token", "refresh_token", "x-refresh-token"];
    assert(r@.map_values(|c: &str| c@) =~= refresh_header_names());
    r
}

fn refresh_json_list() -> (r: Vec<&'static str>)
    ensures
        r@.map_values(|c: &str| c@) == refresh_json_keys(),
{
    let r = vec!["refresh_token", "refresh-token"];
    assert(r@.map_values(|c: &str| c@) =~= refresh_json_keys());
    r
}

/// The text, if it is not empty.
pub open spec fn nonempty(t: Seq<char>) -> Option<Seq<char>> {
    if t.len() > 0 {
        Some(t)
    } else {
        None
    }
}

/// The token found under one of the keys in the reply's JSON body.
pub open spec fn json_token_of(reply: DayliteReply, keys: Seq<Seq<char>>) -> Option<Seq<char>> {
    match reply.json {
        Some(j) => json_token(j, keys),
        None => None,
    }
}

/// The access token the reply hands out: from the headers, normalised, when
/// that is not empty; otherwise from the JSON body, normalised, when not empty.
pub open spec fn rotated_access(reply: DayliteReply) -> Option<Seq<char>> {
    let from_header = match header_token(headers_view(reply.headers@), access_header_names()) {
        Some(v) => nonempty(normalized_access_token(v)),
        None => None,
    };
    match from_header {
        Some(a) => Some(a),
        None => match json_token_of(reply, access_json_keys()) {
            Some(v) => nonempty(normalized_access_token(v)),
            None => None,
        },
    }
}

/// The refresh token the reply hands out: from the headers when not blank,
/// otherwise from the JSON body when not blank (as it stands there).
pub open spec fn rotated_refresh(reply: DayliteReply) -> Option<Seq<char>> {
    let from_header = match header_token(headers_view(reply.headers@), refresh_header_names()) {
        Some(v) => if trimmed(v).len() > 0 {
            Some(v)
        } else {
            None
        },
        None => None,
    };
    match from_header {
        Some(r) => Some(r),
        None => match json_token_of(reply, refresh_json_keys()) {
            Some(v) => if trimmed(v).len() > 0 {
                Some(v)
            } else {
                None
            },
            None => None,
        },
    }
}

/// Whether reading the reply's access token panics: a token that is read
/// cuts a character at its seventh byte (see `bearer_cut_splits`). The JSON
/// body is read only when the headers give no usable token.
pub open spec fn access_rotation_panics(reply: DayliteReply) -> bool {
    let json_panics = json_token_of(reply, access_json_keys()) matches Some(v) && bearer_cut_splits(v);
    match header_token(headers_view(reply.headers@), access_header_names()) {
        Some(v) => bearer_cut_splits(v) || (normalized_access_token(v).len() == 0 && json_panics),
        None => json_panics,
    }
}

fn json_token_exec(reply: &DayliteReply, keys: &[&str]) -> (r: Option<String>)
    ensures
        opt_view(r) == json_token_of(*reply, keys@.map_values(|c: &str| c@)),
{
    match &reply.json {
        Some(j) => find_json_key_value(j, keys),
        None => None,
    }
}

/// Whether reading the reply's access token panics (see `access_rotation_panics`).
pub fn access_rotation_panics_exec(reply: &DayliteReply) -> (r: bool)
    ensures
        r == access_rotation_panics(*reply),
{
    let json_panics = {
        let keys = access_json_list();
        match json_token_exec(reply, keys.as_slice()) {
            Some(v) => bearer_cut_splits_exec(v.as_str()),
            None => false,
        }
    };
    let names = access_header_list();
    match extract_header_token(&reply.headers, names.as_slice()) {
        Some(v) => if bearer_cut_splits_exec(v.as_str()) {
            true
        } else {
            let t = normalize_access_token(v.as_str());
            t.as_str().unicode_len() == 0 && json_panics
        },
        None => json_panics,
    }
}

/// The access token the reply hands out (see `rotated_access`).
pub fn extract_access_token(reply: &DayliteReply) -> (r: Option<String>)
    requires
        !access_rotation_panics(*reply),
    ensures
        opt_view(r) == rotated_access(*reply),
{
    let names = access_header_list();
    if let Some(v) = extract_header_token(&reply.headers, names.as_slice()) {
        let t = normalize_access_token(v.as_str());
        if t.as_str().unicode_len() > 0 {
            return Some(t);
        }
    }
    let keys = access_json_list();
    match json_token_exec(reply, keys.as_slice()) {
        Some(v) => {
            let t = normalize_access_token(v.as_str());
            if t.as_str().unicode_len() > 0 {
                Some(t)
            } else {
                None
            }
        },
        None => None,
    }
}

/// The refresh token the reply hands out (see `rotated_refresh`).
pub fn extract_refresh_token(reply: &DayliteReply) -> (r: Option<String>)
    ensures
        opt_view(r) == rotated_refresh(*reply),
{
    let names = refresh_header_list();
    if let Some(v) = extract_header_token(&reply.headers, names.as_slice()) {
        if super::shared::has_text(v.as_str()) {
            return Some(v);
        }
    }
    let keys = refresh_json_list();
    match json_token_exec(reply, keys.as_slice()) {
        Some(v) => if super::shared::has_text(v.as_str()) {
            Some(v)
        } else {
            None
        },
        None => None,
    }
}

/// The tokens as text and expiry.
pub open spec fn token_view(t: DayliteTokenState) -> (Seq<char>, Seq<char>, Option<u64>) {
    (t.access_token@, t.refresh_token@, t.access_token_expires_at_ms)
}

/// The tokens after adopting what the reply hands out.
pub open spec fn rotated_tokens(t: DayliteTokenState, reply: DayliteReply) -> (Seq<char>, Seq<char>, Option<u64>) {
    (
        match rotated_access(reply) {
            Some(a) => a,
            None => t.access_token@,
        },
        match rotated_refresh(reply) {
            Some(r) => r,
            None => t.refresh_token@,
        },
        t.access_token_expires_at_ms,
    )
}

/// Adopts the tokens the reply hands out (see `rotated_tokens`).
pub fn apply_rotated_tokens(reply: &DayliteReply, token_state: &mut DayliteTokenState)
    requires
        !access_rotation_panics(*reply),
    ensures
        token_view(*final(token_state)) == rotated_tokens(*old(token_state), *reply),
{
    if let Some(access_token) = extract_access_token(reply) {
        token_state.access_token = access_token;
    }
    if let Some(refresh_token) = extract_refresh_token(reply) {
        token_state.refresh_token = refresh_token;
    }
}

/// A stored refresh token must not be blank before a rotation is tried.
pub fn check_stored_refresh_token(refresh_token: &str) -> (r: Result<(), DayliteApiError>)
    ensures
        r is Ok <==> trimmed(refresh_token@).len() > 0,
        r matches Err(e) ==> e.code == DayliteApiErrorCode::MissingToken && e.http_status is None && e.user_message@
            == "Das Daylite-Refresh-Token fehlt. Bitte Personal Token erneut verbinden."@ && e.technical_message@
            == "Refresh-Token ist leer."@,
{
    if !super::shared::has_text(refresh_token) {
        return Err(
            missing_token_error(
                "Das Daylite-Refresh-Token fehlt. Bitte Personal Token erneut verbinden.",
                "Refresh-Token ist leer.",
            ),
        );
    }
    Ok(())
}

/// The path of the token refresh.
pub open spec fn rotation_refresh_path() -> Seq<char> {
    "/personal_token/refresh_token"@
}

/// What a refresh reply gives: a failed status is a refresh failure with the
/// HTTP error's messages; a reply without an access token is a refresh
/// failure naming the headers (as the transport prints them) and the body;
/// otherwise the new access token, the new refresh token or else the old
/// one, and no known expiry.
pub fn interpret_rotating_refresh(refresh_token: &str, reply: &DayliteReply, headers_text: &str) -> (r: Result<
    DayliteTokenState,
    DayliteApiError,
>)
    requires
        200 <= reply.status < 300 ==> !access_rotation_panics(*reply),
    ensures
        !(200 <= reply.status < 300) ==> (r matches Err(e) && e.code == DayliteApiErrorCode::TokenRefreshFailed && e.http_status
            == Some(reply.status) && e.user_message@ == http_error_kind(reply.status).1 && e.technical_message@ == http_error_log(
            reply.status,
            reply.body@,
            rotation_refresh_path(),
        )),
        200 <= reply.status < 300 ==> match rotated_access(*reply) {
            None => r matches Err(e) && e.code == DayliteApiErrorCode::TokenRefreshFailed && e.http_status == Some(reply.status)
                && e.user_message@ == "Das Daylite-Access-Token konnte nicht erneuert werden."@ && e.technical_message@
                == "Kein Access-Token in Refresh-Antwort gefunden. headers="@ + headers_text@ + ", body="@
                + truncated_for_log(reply.body@),
            Some(a) => r matches Ok(t) && t.access_token@ == a && t.refresh_token@ == (match rotated_refresh(*reply) {
                Some(n) => n,
                None => refresh_token@,
            }) && t.access_token_expires_at_ms is None,
        },
{
    if !(200 <= reply.status && reply.status < 300) {
        let error = normalize_http_error(reply.status, reply.body.as_str(), "/personal_token/refresh_token");
        return Err(DayliteApiError { code: DayliteApiErrorCode::TokenRefreshFailed, ..error });
    }
    let access_token = match extract_access_token(reply) {
        Some(a) => a,
        None => {
            let mut technical = "Kein Access-Token in Refresh-Antwort gefunden. headers=".to_owned();
            push_str(&mut technical, headers_text);
            push_str(&mut technical, ", body=");
            let cut = truncate_for_log(reply.body.as_str());
            push_str(&mut technical, cut.as_str());
            return Err(
                DayliteApiError::new(
                    DayliteApiErrorCode::TokenRefreshFailed,
                    Some(reply.status),
                    "Das Daylite-Access-Token konnte nicht erneuert werden.".to_owned(),
                    technical,
                ),
            );
        },
    };
    let refresh = match extract_refresh_token(reply) {
        Some(n) => n,
        None => refresh_token.to_owned(),
    };
    Ok(DayliteTokenState { access_token, refresh_token: refresh, access_token_expires_at_ms: None })
}

/// The first step of an authenticated JSON request.
#[derive(Clone, Debug, PartialEq, Eq)]
pub enum RequestStart {
    /// Refresh with this refresh token first, then send with the new access token.
    Refresh(String),
    /// Send with this access token.
    Send(String),
}

/// How a JSON request starts: with neither token there is nothing to send;
/// with a blank access token the tokens are refreshed first.
pub fn start_json_request(tokens: &DayliteTokenState) -> (r: Result<RequestStart, DayliteApiError>)
    ensures
        trimmed(tokens.access_token@).len() == 0 && trimmed(tokens.refresh_token@).len() == 0 ==> (r matches Err(e) && e.code
            == DayliteApiErrorCode::MissingToken && e.http_status is None && e.user_message@
            == "Es ist kein Daylite-Token hinterlegt. Bitte zuerst ein Personal Token verbinden."@ && e.technical_message@
            == "Weder Access- noch Refresh-Token sind vorhanden."@),
        trimmed(tokens.access_token@).len() == 0 && trimmed(tokens.refresh_token@).len() > 0 ==> (r matches Ok(
            RequestStart::Refresh(t),
        ) && t@ == tokens.refresh_token@),
        trimmed(tokens.access_token@).len() > 0 ==> (r matches Ok(RequestStart::Send(t)) && t@ == tokens.access_token@),
{
    let has_access = super::shared::has_text(tokens.access_token.as_str());
    let has_refresh = super::shared::has_text(tokens.refresh_token.as_str());
    if !has_access && !has_refresh {
        return Err(
            missing_token_error(
                "Es ist kein Daylite-Token hinterlegt. Bitte zuerst ein Personal Token verbinden.",
                "Weder Access- noch Refresh-Token sind vorhanden.",
            ),
        );
    }
    if !has_access {
        return Ok(RequestStart::Refresh(tokens.refresh_token.clone()));
    }
    Ok(RequestStart::Send(tokens.access_token.clone()))
}

/// What follows the first reply of a JSON request.
pub enum FirstReplyStep {
    /// The access token was refused: refresh with these tokens' refresh token,
    /// send once more, and finish with `after_final_reply`.
    Retry(DayliteTokenState),
    /// The request is over: the tokens to go on with, or the error.
    Finished(Result<DayliteTokenState, DayliteApiError>),
}

/// The outcome of a reply with the tokens adopted from it: its HTTP error, or
/// the tokens.
pub open spec fn finished_with(path: Seq<char>, t: DayliteTokenState, reply: DayliteReply, r: Result<
    DayliteTokenState,
    DayliteApiError,
>) -> bool {
    if 200 <= reply.status < 300 {
        r matches Ok(n) && token_view(n) == rotated_tokens(t, reply)
    } else {
        r matches Err(e) && e.code == http_error_kind(reply.status).0 && e.http_status == Some(reply.status) && e.user_message@
            == http_error_kind(reply.status).1 && e.technical_message@ == http_error_log(reply.status, reply.body@, path)
    }
}

fn finish_reply(path: &str, tokens: DayliteTokenState, reply: &DayliteReply) -> (r: Result<DayliteTokenState, DayliteApiError>)
    requires
        !access_rotation_panics(*reply),
    ensures
        finished_with(path@, tokens, *reply, r),
{
    let mut tokens = tokens;
    apply_rotated_tokens(reply, &mut tokens);
    if !(200 <= reply.status && reply.status < 300) {
        return Err(normalize_http_error(reply.status, reply.body.as_str(), path));
    }
    Ok(tokens)
}

/// After the first reply: the tokens it hands out are adopted; a 401 is
/// retried once after a refresh when a refresh token is left, and is the
/// HTTP error otherwise; any other reply finishes the request.
pub fn after_first_reply(path: &str, tokens: DayliteTokenState, reply: &DayliteReply) -> (r: FirstReplyStep)
    requires
        !access_rotation_panics(*reply),
    ensures
        reply.status == 401 && trimmed(rotated_tokens(tokens, *reply).1).len() > 0 ==> (r matches FirstReplyStep::Retry(n)
            && token_view(n) == rotated_tokens(tokens, *reply)),
        reply.status == 401 && trimmed(rotated_tokens(tokens, *reply).1).len() == 0 ==> (r matches FirstReplyStep::Finished(
            f,
        ) && finished_with(path@, tokens, *reply, f)),
        reply.status != 401 ==> (r matches FirstReplyStep::Finished(f) && finished_with(path@, tokens, *reply, f)),
{
    if reply.status == 401 {
        let mut rotated = tokens;
        apply_rotated_tokens(reply, &mut rotated);
        if super::shared::has_text(rotated.refresh_token.as_str()) {
            return FirstReplyStep::Retry(rotated);
        }
        return FirstReplyStep::Finished(Err(normalize_http_error(reply.status, reply.body.as_str(), path)));
    }
    FirstReplyStep::Finished(finish_reply(path, tokens, reply))
}

/// After the reply to the retried request: the tokens it hands out are
/// adopted and a failed status is the HTTP error.
pub fn after_final_reply(path: &str, tokens: DayliteTokenState, reply: &DayliteReply) -> (r: Result<
    DayliteTokenState,
    DayliteApiError,
>)
    requires
        !access_rotation_panics(*reply),
    ensures
        finished_with(path@, tokens, *reply, r),
{
    finish_reply(path, tokens, reply)
}

/// The error of a successful reply whose body is not the expected JSON;
/// `detail` is the decoder's own description.
pub fn body_decode_error(status: u16, body: &str, path: &str, detail: &str) -> (r: DayliteApiError)
    ensures
        r.code == DayliteApiErrorCode::InvalidResponse,
        r.http_status == Some(status),
        r.user_message@ == "Die Antwort von Daylite konnte nicht verarbeitet werden."@,
        r.technical_message@ == "JSON-Deserialisierung für "@ + path@ + " fehlgeschlagen: "@ + detail@ + "; body="@
            + truncated_for_log(body@),
{
    let mut technical = "JSON-Deserialisierung für ".to_owned();
    push_str(&mut technical, path);
    push_str(&mut technical, " fehlgeschlagen: ");
    push_str(&mut technical, detail);
    push_str(&mut technical, "; body=");
    let cut = truncate_for_log(body);
    push_str(&mut technical, cut.as_str());
    DayliteApiError::new(
        DayliteApiErrorCode::InvalidResponse,
        Some(status),
        "Die Antwort von Daylite konnte nicht verarbeitet werden.".to_owned(),
        technical,
    )
}

} // verus!
