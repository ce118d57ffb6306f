//! Provider diagnostics: what a provider said, kept in a form that gives no secrets away.

use crate::json::{
    counts, is_replaced, lemma_counting_member, lemma_member_counts, lemma_part_trees, member,
    members_of, no_members, object, object_of, put, text_member, trees, Json, JsonTree,
};
use crate::message::AssistantMessage;
use crate::outside::{json_parse, json_text, json_number, status_line, status_text};
use crate::redact::{bearer_tokens_replaced, try_redact_text, REDACTED};
use crate::text::{
    chars_of, ends_with, same_text, string_of, text_ends_with, trim_text, trimmed,
};
use vstd::prelude::*;

verus! {

/// The most characters of an error body that are kept.
pub const MAX_ERROR_BODY_CHARS: usize = 4096;

/// The most characters of one field of an error body that are kept.
pub const MAX_ERROR_FIELD_CHARS: usize = 512;

// ---------------------------------------------------------------------------------------------
// Cutting text short
// ---------------------------------------------------------------------------------------------

/// `s`, cut to `max` characters; three dots say that there was more.
pub open spec fn shortened(s: Seq<char>, max: nat) -> Seq<char> {
    if s.len() > max {
        s.take(max as int) + "..."@
    } else {
        s
    }
}

/// The text `value` cut to `max_chars` characters, and whether there was more.
pub fn truncate_chars(value: &str, max_chars: usize) -> (r: (String, bool))
    ensures
        r.0@ == shortened(value@, max_chars as nat),
        value@.len() <= max_chars ==> r.0@ == value@,
        value@.len() > max_chars ==> r.0@ == value@.take(max_chars as int) + "..."@,
        r.1 == (value@.len() > max_chars),
{
    let chars = chars_of(value);
    if chars.len() > max_chars {
        let mut out = string_of(&chars, 0, max_chars);
        assert(chars@.subrange(0, max_chars as int) =~= value@.take(max_chars as int));
        out.push_str("...");
        (out, true)
    } else {
        assert(chars@.subrange(0, chars@.len() as int) =~= value@);
        (string_of(&chars, 0, chars.len()), false)
    }
}

// ---------------------------------------------------------------------------------------------
// Names of secrets
// ---------------------------------------------------------------------------------------------

pub open spec fn is_ascii_letter_or_digit(c: char) -> bool {
    ||| '0' <= c <= '9'
    ||| 'A' <= c <= 'Z'
    ||| 'a' <= c <= 'z'
}

pub open spec fn ascii_lower(c: char) -> char {
    if 'A' <= c <= 'Z' {
        (c as u32 + 32) as char
    } else {
        c
    }
}

/// The letters and digits of a name, in lower case.
pub open spec fn plain_name(name: Seq<char>) -> Seq<char>
    decreases name.len(),
{
    if name.len() == 0 {
        Seq::empty()
    } else {
        let front = plain_name(name.drop_last());
        if is_ascii_letter_or_digit(name.last()) {
            front.push(ascii_lower(name.last()))
        } else {
            front
        }
    }
}

/// The name is one under which a secret is kept.
pub open spec fn names_secret(name: Seq<char>) -> bool {
    let plain = plain_name(name);
    ||| plain == "apikey"@
    ||| plain == "authorization"@
    ||| plain == "bearer"@
    ||| plain == "clientsecret"@
    ||| plain == "credential"@
    ||| plain == "credentials"@
    ||| plain == "password"@
    ||| plain == "refreshtoken"@
    ||| plain == "secret"@
    ||| plain == "token"@
    ||| ends_with(plain, "token"@)
    ||| ends_with(plain, "secret"@)
}

/// The letters and digits of `key`, in lower case.
fn plain_key(key: &str) -> (r: String)
    ensures
        r@ == plain_name(key@),
{
    let chars = chars_of(key);
    let mut out = String::new();
    let mut i: usize = 0;
    assert(chars@.take(0) =~= Seq::<char>::empty());
    while i < chars.len()
        invariant
            i <= chars@.len(),
            out@ == plain_name(chars@.take(i as int)),
        decreases chars@.len() - i,
    {
        let c = chars[i];
        assert(chars@.take(i + 1).drop_last() =~= chars@.take(i as int));
        if ('0' <= c && c <= '9') || ('a' <= c && c <= 'z') {
            out.push(c);
        } else if 'A' <= c && c <= 'Z' {
            out.push(((c as u8) + 32) as char);
        }
        i += 1;
    }
    assert(chars@.take(i as int) =~= chars@);
    out
}

/// Whether a secret is kept under the name `key`.
pub fn is_secret_key(key: &str) -> (r: bool)
    ensures
        r == names_secret(key@),
        ({
            let plain = plain_name(key@);
            r == (plain == "apikey"@ || plain == "authorization"@ || plain == "bearer"@ || plain
                == "credential"@ || plain == "credentials"@ || plain == "password"@ || plain
                == "clientsecret"@ || plain == "refreshtoken"@ || ends_with(plain, "secret"@)
                || ends_with(plain, "token"@))
        }),
{
    proof {
        assert("secret"@.skip(0) =~= "secret"@);
        assert("token"@.skip(0) =~= "token"@);
    }
    let plain = plain_key(key);
    let name = plain.as_str();
    same_text(name, "apikey") || same_text(name, "authorization") || same_text(name, "bearer")
        || same_text(name, "clientsecret") || same_text(name, "credential") || same_text(
        name,
        "credentials",
    ) || same_text(name, "password") || same_text(name, "refreshtoken") || same_text(name, "secret")
        || same_text(name, "token") || text_ends_with(name, "token") || text_ends_with(
        name,
        "secret",
    )
}

// ---------------------------------------------------------------------------------------------
// Secrets in JSON
// ---------------------------------------------------------------------------------------------

/// The value can be redacted: so can every text in it that is not replaced as a whole.
pub open spec fn redactable(tree: JsonTree) -> bool
    decreases tree,
{
    match tree {
        JsonTree::Text(s) => bearer_tokens_replaced(s) is Some,
        JsonTree::Array(items) => forall|i: int|
            0 <= i < items.len() ==> redactable(#[trigger] items[i]),
        JsonTree::Object(map) => forall|name: Seq<char>|
            #[trigger] map.dom().contains(name) && !names_secret(name) ==> redactable(map[name]),
        _ => true,
    }
}

/// What can be redacted has parts that can.
proof fn lemma_redactable_parts(tree: JsonTree)
    requires
        redactable(tree),
    ensures
        tree matches JsonTree::Array(items) ==> forall|i: int|
            0 <= i < items.len() ==> redactable(#[trigger] items[i]),
        tree matches JsonTree::Object(map) ==> forall|name: Seq<char>|
            #[trigger] map.dom().contains(name) && !names_secret(name) ==> redactable(map[name]),
{
}

/// A text with its tokens replaced, cut to the length of a field.
pub open spec fn redacted_field(s: Seq<char>) -> Seq<char> {
    shortened(bearer_tokens_replaced(s).unwrap(), MAX_ERROR_FIELD_CHARS as nat)
}

/// The value of the member `name` once its object is redacted.
pub open spec fn redacted_member(name: Seq<char>, redacted_value: JsonTree) -> JsonTree {
    if names_secret(name) {
        JsonTree::Text(REDACTED@)
    } else {
        redacted_value
    }
}

/// The value without its secrets: what is kept under the name of a secret is replaced, and of
/// each other text the tokens are, and it is cut short. Numbers, booleans and null stay.
pub open spec fn redacted(tree: JsonTree) -> JsonTree
    decreases tree,
{
    match tree {
        JsonTree::Text(s) => JsonTree::Text(redacted_field(s)),
        JsonTree::Array(items) => JsonTree::Array(
            Seq::new(
                items.len(),
                |i: int|
                    if 0 <= i < items.len() {
                        redacted(items[i])
                    } else {
                        arbitrary()
                    },
            ),
        ),
        JsonTree::Object(map) => JsonTree::Object(
            Map::new(
                |name: Seq<char>| map.dom().contains(name),
                |name: Seq<char>|
                    if map.dom().contains(name) {
                        redacted_member(name, redacted(map[name]))
                    } else {
                        arbitrary()
                    },
            ),
        ),
        _ => tree,
    }
}

/// Where the members of a redacted object come from.
proof fn lemma_redacted_object(map: Map<Seq<char>, JsonTree>)
    ensures
        redacted(JsonTree::Object(map)) is Object,
        redacted(JsonTree::Object(map))->Object_0.dom() == map.dom(),
        forall|name: Seq<char>|
            map.dom().contains(name) ==> (#[trigger] redacted(JsonTree::Object(map))->Object_0[name])
                == redacted_member(name, redacted(map[name])),
{
    assert(redacted(JsonTree::Object(map))->Object_0.dom() =~= map.dom());
}

/// The object without its secrets, where it can be redacted.
fn try_redact_members(members: &Vec<(String, Json)>) -> (r: Option<Vec<(String, Json)>>)
    ensures
        ({
            let tree = JsonTree::Object(object(members@));
            match r {
                Some(out) => redactable(tree) && JsonTree::Object(object(out@)) == redacted(tree),
                None => !redactable(tree),
            }
        }),
    decreases members,
{
    let ghost shown = members_of(members@);
    let ghost map = object(members@);
    let mut out = no_members();
    let mut i: usize = 0;
    while i < members.len()
        invariant
            i <= members@.len(),
            shown == members_of(members@),
            map == object_of(shown),
            forall|k: int| 0 <= k < i && counts(shown, k) ==> object(out@).dom().contains((#[trigger] shown[k]).0),
            forall|name: Seq<char>| #[trigger] object(out@).dom().contains(name) ==> map.dom().contains(name)
                && (names_secret(name) || redactable(map[name]))
                && object(out@)[name] == redacted_member(name, redacted(map[name])),
        decreases members@.len() - i,
    {
        proof {
            lemma_part_trees(Seq::empty(), members@);
        }
        if !is_replaced(members, i) {
            let entry = &members[i];
            proof {
                assert(shown[i as int] == (entry.0@, entry.1.tree()));
                lemma_counting_member(shown, i as int);
            }
            if is_secret_key(entry.0.as_str()) {
                put(&mut out, entry.0.as_str(), Json::text(REDACTED));
            } else {
                match try_redact_json_value(&entry.1) {
                    Some(value) => {
                        put(&mut out, entry.0.as_str(), value);
                    },
                    None => {
                        assert(!redactable(map[entry.0@]));
                        proof {
                            if redactable(JsonTree::Object(map)) {
                                lemma_redactable_parts(JsonTree::Object(map));
                            }
                        }
                        return None;
                    },
                }
            }
        }
        i += 1;
    }
    proof {
        let tree = JsonTree::Object(map);
        lemma_redacted_object(map);
        assert(object(out@).dom() =~= map.dom()) by {
            assert forall|name: Seq<char>| map.dom().contains(name) implies object(out@).dom().contains(name) by {
                let k = lemma_member_counts(shown, name);
                assert(object(out@).dom().contains(shown[k].0));
            }
        }
        assert(redactable(tree)) by {
            assert forall|name: Seq<char>| #[trigger] map.dom().contains(name) && !names_secret(name) implies redactable(map[name]) by {
                assert(object(out@).dom().contains(name));
            }
        }
        assert(object(out@) =~= redacted(tree)->Object_0);
    }
    Some(out)
}

/// The value without its secrets, where it can be redacted.
pub fn try_redact_json_value(value: &Json) -> (r: Option<Json>)
    ensures
        match r {
            Some(out) => redactable(value.tree()) && out.tree() == redacted(value.tree()),
            None => !redactable(value.tree()),
        },
    decreases value,
{
    match value {
        Json::Object(members) => match try_redact_members(members) {
            Some(out) => Some(Json::Object(out)),
            None => None,
        },
        Json::Array(items) => {
            let ghost shown = trees(items@);
            let mut out: Vec<Json> = Vec::new();
            let mut i: usize = 0;
            while i < items.len()
                invariant
                    i <= items@.len(),
                    value == Json::Array(*items),
                    shown == trees(items@),
                    out@.len() == i,
                    forall|k: int| 0 <= k < i ==> redactable(#[trigger] shown[k]) && trees(out@)[k] == redacted(shown[k]),
                decreases items@.len() - i,
            {
                let item = &items[i];
                proof {
                    lemma_part_trees(items@, Seq::empty());
                    crate::json::lemma_item_smaller(*value, *items, i as int);
                }
                let ghost before = out@;
                match try_redact_json_value(item) {
                    Some(done) => {
                        out.push(done);
                        proof {
                            crate::json::lemma_trees_push(before, done);
                        }
                    },
                    None => {
                        assert(!redactable(shown[i as int]));
                        proof {
                            if redactable(value.tree()) {
                                lemma_redactable_parts(value.tree());
                            }
                        }
                        return None;
                    },
                }
                i += 1;
            }
            let result = Json::Array(out);
            proof {
                lemma_part_trees(items@, Seq::empty());
                lemma_part_trees(out@, Seq::empty());
                assert(result.tree()->Array_0 =~= redacted(value.tree())->Array_0);
            }
            Some(result)
        },
        Json::Text(s) => match try_redact_text(s.as_str()) {
            Some(text) => Some(Json::Text(truncate_chars(text.as_str(), MAX_ERROR_FIELD_CHARS).0)),
            None => None,
        },
        Json::Null => Some(Json::Null),
        Json::Bool(b) => Some(Json::Bool(*b)),
        Json::Number(n) => Some(Json::Number(n.clone())),
    }
}

/// The value without its secrets.
pub fn redact_json_value(value: Json) -> (r: Json)
    requires
        redactable(value.tree()),
    ensures
        r.tree() == redacted(value.tree()),
{
    try_redact_json_value(&value).unwrap()
}

/// The object without its secrets.
pub fn redact_json_object(members: Vec<(String, Json)>) -> (r: Vec<(String, Json)>)
    requires
        redactable(JsonTree::Object(object(members@))),
    ensures
        JsonTree::Object(object(r@)) == redacted(JsonTree::Object(object(members@))),
{
    try_redact_members(&members).unwrap()
}

/// The value gives no secret away by its name, at any depth, and no text in it is longer than a
/// field with its three dots.
pub open spec fn hides_secrets(tree: JsonTree) -> bool
    decreases tree,
{
    match tree {
        JsonTree::Text(s) => s.len() <= MAX_ERROR_FIELD_CHARS + 3,
        JsonTree::Array(items) => forall|i: int|
            0 <= i < items.len() ==> hides_secrets(#[trigger] items[i]),
        JsonTree::Object(map) => forall|name: Seq<char>| #[trigger]
            map.dom().contains(name) ==> hides_secrets(map[name]) && (names_secret(name) ==> map[name]
                == JsonTree::Text(REDACTED@)),
        _ => true,
    }
}

/// A redacted value hides its secrets, however deep they lie.
pub proof fn law_redacted_hides_secrets(tree: JsonTree)
    requires
        redactable(tree),
    ensures
        hides_secrets(redacted(tree)),
    decreases tree,
{
    reveal_strlit("...");
    reveal_strlit("[redacted]");
    match tree {
        JsonTree::Array(items) => {
            let out = redacted(tree)->Array_0;
            assert forall|i: int| 0 <= i < out.len() implies hides_secrets(#[trigger] out[i]) by {
                assert(decreases_to!(tree => tree->Array_0));
                assert(decreases_to!(items => items[i]));
                assert(redactable(items[i]));
                law_redacted_hides_secrets(items[i]);
                assert(out[i] == redacted(items[i]));
            }
        },
        JsonTree::Object(map) => {
            let out = redacted(tree)->Object_0;
            lemma_redacted_object(map);
            assert forall|name: Seq<char>| #[trigger] out.dom().contains(name) implies hides_secrets(
                out[name],
            ) && (names_secret(name) ==> out[name] == JsonTree::Text(REDACTED@)) by {
                assert(map.dom().contains(name));
                if !names_secret(name) {
                    law_redacted_hides_secrets(map[name]);
                }
            }
        },
        _ => {},
    }
}

// ---------------------------------------------------------------------------------------------
// The message in an error body
// ---------------------------------------------------------------------------------------------

/// The text that a candidate for the message gives: that of a string that is not empty, or an
/// object written out.
pub open spec fn candidate_text(candidate: Option<JsonTree>) -> Option<Seq<char>> {
    match candidate {
        Some(JsonTree::Text(s)) => if s.len() > 0 {
            Some(s)
        } else {
            None
        },
        Some(JsonTree::Object(map)) => Some(json_text(JsonTree::Object(map))),
        _ => None,
    }
}

/// The member `inner` of the member `outer`.
pub open spec fn nested_member(tree: JsonTree, outer: Seq<char>, inner: Seq<char>) -> Option<
    JsonTree,
> {
    match member(tree, outer) {
        Some(value) => member(value, inner),
        None => None,
    }
}

/// The message of an error body, as it stands there: the first candidate that gives a text.
pub open spec fn raw_message(tree: JsonTree) -> Option<Seq<char>> {
    if let Some(s) = candidate_text(nested_member(tree, "error"@, "message"@)) {
        Some(s)
    } else if let Some(s) = candidate_text(member(tree, "message"@)) {
        Some(s)
    } else if let Some(s) = candidate_text(member(tree, "error"@)) {
        Some(s)
    } else {
        candidate_text(member(tree, "detail"@))
    }
}

/// The message of an error body can be redacted, where there is one.
pub open spec fn message_redactable(tree: JsonTree) -> bool {
    raw_message(tree) matches Some(s) ==> bearer_tokens_replaced(s) is Some
}

/// The message of an error body, redacted.
pub open spec fn extracted_message(tree: JsonTree) -> Option<Seq<char>> {
    match raw_message(tree) {
        Some(s) => Some(redacted_field(s)),
        None => None,
    }
}

fn candidate(value: Option<&Json>) -> (r: Option<String>)
    ensures
        crate::message::optional_text(r) == candidate_text(
            match value {
                Some(value) => Some(value.tree()),
                None => None,
            },
        ),
{
    match value {
        Some(Json::Text(s)) => if s.as_str().is_empty() {
            None
        } else {
            Some(s.clone())
        },
        Some(Json::Object(members)) => Some(value.unwrap().compact()),
        _ => None,
    }
}

/// The message of an error body, as it stands there.
fn find_message(value: &Json) -> (r: Option<String>)
    ensures
        crate::message::optional_text(r) == raw_message(value.tree()),
{
    let nested = match value.get("error") {
        Some(error) => error.get("message"),
        None => None,
    };
    let first = candidate(nested);
    if first.is_some() {
        return first;
    }
    let second = candidate(value.get("message"));
    if second.is_some() {
        return second;
    }
    let third = candidate(value.get("error"));
    if third.is_some() {
        return third;
    }
    candidate(value.get("detail"))
}

/// The message of an error body.
pub fn extract_message(value: &Json) -> (r: Option<String>)
    requires
        message_redactable(value.tree()),
    ensures
        crate::message::optional_text(r) == extracted_message(value.tree()),
{
    match find_message(value) {
        Some(s) => {
            let text = try_redact_text(s.as_str()).unwrap();
            Some(truncate_chars(text.as_str(), MAX_ERROR_FIELD_CHARS).0)
        },
        None => None,
    }
}

/// What kind of JSON value it is.
pub open spec fn kind_name(tree: JsonTree) -> Seq<char> {
    match tree {
        JsonTree::Null => "null"@,
        JsonTree::Bool(_) => "boolean"@,
        JsonTree::Number(_) => "number"@,
        JsonTree::Text(_) => "string"@,
        JsonTree::Array(_) => "array"@,
        JsonTree::Object(_) => "object"@,
    }
}

/// The name of the kind of JSON value that it is.
pub fn json_type(value: &Json) -> (r: &'static str)
    ensures
        r@ == kind_name(value.tree()),
        r@ == match value {
            Json::Null => "null"@,
            Json::Bool(_) => "boolean"@,
            Json::Number(_) => "number"@,
            Json::Text(_) => "string"@,
            Json::Array(_) => "array"@,
            Json::Object(_) => "object"@,
        },
{
    match value {
        Json::Null => "null",
        Json::Bool(_) => "boolean",
        Json::Number(_) => "number",
        Json::Text(_) => "string",
        Json::Array(_) => "array",
        Json::Object(_) => "object",
    }
}

// ---------------------------------------------------------------------------------------------
// Diagnostics
// ---------------------------------------------------------------------------------------------

/// A diagnostic, as a message keeps it.
pub open spec fn diagnostic_tree(kind: Seq<char>, message: Seq<char>, data: JsonTree) -> JsonTree {
    JsonTree::Object(
        Map::empty().insert("kind"@, JsonTree::Text(kind)).insert(
            "message"@,
            JsonTree::Text(message),
        ).insert("data"@, data),
    )
}

fn diagnostic_value(kind: &str, message: &str, data: Json) -> (r: Json)
    ensures
        r.tree() == diagnostic_tree(kind@, message@, data.tree()),
{
    let mut members = no_members();
    put(&mut members, "kind", Json::text(kind));
    put(&mut members, "message", Json::text(message));
    put(&mut members, "data", data);
    Json::Object(members)
}

/// A message with one diagnostic more.
pub open spec fn with_diagnostic(
    message: crate::message::AssistantView,
    diagnostic: JsonTree,
) -> crate::message::AssistantView {
    crate::message::AssistantView {
        diagnostics: Some(
            (match message.diagnostics {
                Some(earlier) => earlier,
                None => Seq::empty(),
            }).push(diagnostic),
        ),
        ..message
    }
}

/// Adds a diagnostic to those of a message.
pub fn add_diagnostic(message: &mut AssistantMessage, diagnostic: Json)
    ensures
        final(message)@ == (crate::message::AssistantView {
            diagnostics: Some(
                (match old(message)@.diagnostics {
                    Some(earlier) => earlier,
                    None => Seq::empty(),
                }).push(diagnostic.tree()),
            ),
            ..old(message)@
        }),
        final(message)@ == with_diagnostic(old(message)@, diagnostic.tree()),
{
    let ghost before = message@.diagnostics;
    let mut diagnostics = match message.diagnostics.take() {
        Some(earlier) => earlier,
        None => Vec::new(),
    };
    proof {
        lemma_part_trees(diagnostics@, Seq::empty());
        crate::json::lemma_trees_push(diagnostics@, diagnostic);
        if before is None {
            assert(trees(diagnostics@) =~= Seq::empty());
        }
    }
    diagnostics.push(diagnostic);
    message.diagnostics = Some(diagnostics);
}

/// What is kept of a provider's own word for why the model stopped.
pub open spec fn stop_reason_tree(provider: Seq<char>, raw_stop_reason: Seq<char>) -> JsonTree {
    diagnostic_tree(
        "provider_raw_stop_reason"@,
        provider + " raw stop reason: "@ + raw_stop_reason,
        JsonTree::Object(
            Map::empty().insert("provider"@, JsonTree::Text(provider)).insert(
                "rawStopReason"@,
                JsonTree::Text(shortened(raw_stop_reason, MAX_ERROR_FIELD_CHARS as nat)),
            ),
        ),
    )
}

/// The diagnostic that keeps a provider's own word for why the model stopped.
pub fn raw_stop_reason_diagnostic(provider: &str, raw_stop_reason: &str) -> (r: Json)
    ensures
        r.tree() == diagnostic_tree(
            "provider_raw_stop_reason"@,
            provider@ + " raw stop reason: "@ + raw_stop_reason@,
            JsonTree::Object(
                Map::empty().insert("provider"@, JsonTree::Text(provider@)).insert(
                    "rawStopReason"@,
                    JsonTree::Text(shortened(raw_stop_reason@, MAX_ERROR_FIELD_CHARS as nat)),
                ),
            ),
        ),
        r.tree() == stop_reason_tree(provider@, raw_stop_reason@),
{
    let mut message = provider.to_string();
    message.push_str(" raw stop reason: ");
    message.push_str(raw_stop_reason);
    let mut data = no_members();
    put(&mut data, "provider", Json::text(provider));
    let kept = truncate_chars(raw_stop_reason, MAX_ERROR_FIELD_CHARS).0;
    put(&mut data, "rawStopReason", Json::Text(kept));
    diagnostic_value("provider_raw_stop_reason", message.as_str(), Json::Object(data))
}

// ---------------------------------------------------------------------------------------------
// HTTP errors
// ---------------------------------------------------------------------------------------------

/// An HTTP error of a provider: a message for people and a diagnostic for the record.
#[derive(Debug)]
pub struct NormalizedProviderHttpError {
    pub message: String,
    pub diagnostic: Json,
}

impl Clone for NormalizedProviderHttpError {
    fn clone(&self) -> (r: NormalizedProviderHttpError)
        ensures
            r.message == self.message,
            r.diagnostic.tree() == self.diagnostic.tree(),
    {
        NormalizedProviderHttpError {
            message: self.message.clone(),
            diagnostic: self.diagnostic.clone(),
        }
    }
}

/// What a body that was read as JSON needs so that it can be kept: an object is kept redacted,
/// and so is the message in it; nothing else has a message.
pub open spec fn parsed_redactable(parsed: Option<JsonTree>) -> bool {
    match parsed {
        Some(JsonTree::Object(map)) => redactable(JsonTree::Object(map)) && message_redactable(
            redacted(JsonTree::Object(map)),
        ),
        _ => true,
    }
}

/// The message that the body of an error gives.
pub open spec fn body_message(preview: Seq<char>, parsed: Option<JsonTree>) -> Option<Seq<char>> {
    match parsed {
        Some(JsonTree::Object(map)) => extracted_message(redacted(JsonTree::Object(map))),
        Some(_) => None,
        None => if preview.len() > 0 {
            Some(preview)
        } else {
            None
        },
    }
}

/// The message of an HTTP error.
pub open spec fn http_error_message(status_line: Seq<char>, said: Option<Seq<char>>) -> Seq<char> {
    "HTTP "@ + status_line + ": "@ + match said {
        Some(said) => said,
        None => "provider request failed"@,
    }
}

/// What is kept of an HTTP error: an object that was read is kept as a body, redacted; of
/// anything else there is a preview.
pub open spec fn http_error_data(
    provider: Seq<char>,
    status: u16,
    preview: Seq<char>,
    truncated: bool,
    parsed: Option<JsonTree>,
) -> Map<Seq<char>, JsonTree> {
    let common = Map::empty().insert("provider"@, JsonTree::Text(provider)).insert(
        "status"@,
        JsonTree::Number(json_number(status as u64)),
    ).insert("bodyTruncated"@, JsonTree::Bool(truncated));
    match parsed {
        Some(JsonTree::Object(map)) => common.insert(
            "body"@,
            redacted(JsonTree::Object(map)),
        ).insert("bodyType"@, JsonTree::Text("object"@)),
        Some(value) => common.insert("bodyPreview"@, JsonTree::Text(preview)).insert(
            "bodyType"@,
            JsonTree::Text(kind_name(value)),
        ),
        None => if preview.len() > 0 {
            common.insert("bodyPreview"@, JsonTree::Text(preview)).insert(
                "bodyType"@,
                JsonTree::Text("text"@),
            )
        } else {
            common.insert("bodyType"@, JsonTree::Text("empty"@))
        },
    }
}

/// What an optional JSON value stands for.
pub open spec fn optional_tree(value: Option<Json>) -> Option<JsonTree> {
    match value {
        Some(value) => Some(value.tree()),
        None => None,
    }
}

/// What is kept of an HTTP error that is told as `message`.
pub open spec fn http_error_tree(message: Seq<char>, data: Map<Seq<char>, JsonTree>) -> JsonTree {
    diagnostic_tree("provider_http_error"@, message, JsonTree::Object(data))
}

/// The error for a body of which `preview` is kept and which was read as `parsed`.
pub fn normalize_parsed_http_error(
    provider: &str,
    status: u16,
    status_line: &str,
    preview: &str,
    truncated: bool,
    parsed: Option<Json>,
) -> (r: NormalizedProviderHttpError)
    requires
        parsed_redactable(optional_tree(parsed)),
    ensures
        r.message@ == http_error_message(
            status_line@,
            body_message(preview@, optional_tree(parsed)),
        ),
        r.diagnostic.tree() == diagnostic_tree(
            "provider_http_error"@,
            r.message@,
            JsonTree::Object(
                http_error_data(provider@, status, preview@, truncated, optional_tree(parsed)),
            ),
        ),
        r.diagnostic.tree() == http_error_tree(
            r.message@,
            http_error_data(provider@, status, preview@, truncated, optional_tree(parsed)),
        ),
{
    let mut data = no_members();
    put(&mut data, "provider", Json::text(provider));
    put(&mut data, "status", Json::number(status as u64));
    put(&mut data, "bodyTruncated", Json::Bool(truncated));
    let said: Option<String> = match parsed {
        Some(Json::Object(map)) => {
            let body = Json::Object(redact_json_object(map));
            let found = extract_message(&body);
            put(&mut data, "body", body);
            put(&mut data, "bodyType", Json::text("object"));
            found
        },
        Some(value) => {
            put(&mut data, "bodyPreview", Json::text(preview));
            put(&mut data, "bodyType", Json::text(json_type(&value)));
            None
        },
        None => if !preview.is_empty() {
            put(&mut data, "bodyPreview", Json::text(preview));
            put(&mut data, "bodyType", Json::text("text"));
            Some(preview.to_string())
        } else {
            put(&mut data, "bodyType", Json::text("empty"));
            None
        },
    };
    let mut message = "HTTP ".to_string();
    message.push_str(status_line);
    message.push_str(": ");
    match said {
        Some(said) => {
            message.push_str(said.as_str());
        },
        None => {
            message.push_str("provider request failed");
        },
    }
    let diagnostic = diagnostic_value("provider_http_error", message.as_str(), Json::Object(data));
    NormalizedProviderHttpError { message, diagnostic }
}

/// What is looked at of an error body: its text without tokens and without the white space
/// around it.
pub open spec fn body_text(body: Seq<char>) -> Seq<char> {
    trimmed(bearer_tokens_replaced(body).unwrap())
}

/// What is kept of an error body.
pub open spec fn body_preview(body: Seq<char>) -> Seq<char> {
    shortened(body_text(body), MAX_ERROR_BODY_CHARS as nat)
}

/// The body of an error can be kept.
pub open spec fn body_redactable(body: Seq<char>) -> bool {
    bearer_tokens_replaced(body) is Some && parsed_redactable(json_parse(body_preview(body)))
}

/// The error for the HTTP answer `status` with the body `body`.
pub fn normalize_provider_http_error(provider: &str, status: u16, body: &str) -> (r:
    NormalizedProviderHttpError)
    requires
        100 <= status <= 999,
        body_redactable(body@),
    ensures
        r.message@ == http_error_message(
            status_text(status),
            body_message(body_preview(body@), json_parse(body_preview(body@))),
        ),
        r.diagnostic.tree() == diagnostic_tree(
            "provider_http_error"@,
            r.message@,
            JsonTree::Object(
                http_error_data(
                    provider@,
                    status,
                    body_preview(body@),
                    body_text(body@).len() > MAX_ERROR_BODY_CHARS,
                    json_parse(body_preview(body@)),
                ),
            ),
        ),
{
    let redacted_body = try_redact_text(body).unwrap();
    let text = trim_text(redacted_body.as_str());
    let (preview, truncated) = truncate_chars(text.as_str(), MAX_ERROR_BODY_CHARS);
    let parsed = Json::parse(preview.as_str());
    let line = status_line(status);
    normalize_parsed_http_error(
        provider,
        status,
        line.as_str(),
        preview.as_str(),
        truncated,
        parsed,
    )
}

/// Whether the body of an error can be kept.
fn is_body_redactable(body: &str) -> (r: bool)
    ensures
        r == body_redactable(body@),
{
    let redacted_body = match try_redact_text(body) {
        Some(redacted_body) => redacted_body,
        None => {
            return false;
        },
    };
    let text = trim_text(redacted_body.as_str());
    let preview = truncate_chars(text.as_str(), MAX_ERROR_BODY_CHARS).0;
    match Json::parse(preview.as_str()) {
        Some(Json::Object(members)) => match try_redact_members(&members) {
            Some(out) => {
                let kept = Json::Object(out);
                match find_message(&kept) {
                    Some(message) => try_redact_text(message.as_str()).is_some(),
                    None => true,
                }
            },
            None => false,
        },
        _ => true,
    }
}

/// The error for the HTTP answer `status` with the body `body`; nothing where the body cannot be
/// kept because a search for tokens in it leaves the text.
pub fn try_normalize_provider_http_error(provider: &str, status: u16, body: &str) -> (r: Option<
    NormalizedProviderHttpError,
>)
    requires
        100 <= status <= 999,
    ensures
        r is Some <==> body_redactable(body@),
        r matches Some(error) ==> error.message@ == http_error_message(
            status_text(status),
            body_message(body_preview(body@), json_parse(body_preview(body@))),
        ) && error.diagnostic.tree() == diagnostic_tree(
            "provider_http_error"@,
            error.message@,
            JsonTree::Object(
                http_error_data(
                    provider@,
                    status,
                    body_preview(body@),
                    body_text(body@).len() > MAX_ERROR_BODY_CHARS,
                    json_parse(body_preview(body@)),
                ),
            ),
        ),
{
    if is_body_redactable(body) {
        Some(normalize_provider_http_error(provider, status, body))
    } else {
        None
    }
}

/// The body was read as an object.
pub open spec fn is_object(parsed: Option<JsonTree>) -> bool {
    match parsed {
        Some(JsonTree::Object(_)) => true,
        _ => false,
    }
}

/// Only what was read as an object is kept as a body; arrays, single values and plain text are
/// previews, and an empty body is neither.
pub proof fn law_only_objects_are_bodies(
    provider: Seq<char>,
    status: u16,
    preview: Seq<char>,
    truncated: bool,
    parsed: Option<JsonTree>,
)
    ensures
        ({
            let data = http_error_data(provider, status, preview, truncated, parsed);
            &&& data.dom().contains("body"@) == is_object(parsed)
            &&& data.dom().contains("bodyPreview"@) == (!is_object(parsed) && (parsed is Some
                || preview.len() > 0))
            &&& (data["bodyType"@] == JsonTree::Text("object"@)) == is_object(parsed)
        }),
{
    reveal_strlit("provider");
    reveal_strlit("status");
    reveal_strlit("bodyTruncated");
    reveal_strlit("body");
    reveal_strlit("bodyPreview");
    reveal_strlit("bodyType");
    reveal_strlit("object");
    reveal_strlit("null");
    reveal_strlit("boolean");
    reveal_strlit("number");
    reveal_strlit("string");
    reveal_strlit("array");
    reveal_strlit("text");
    reveal_strlit("empty");
    assert("body"@.len() == 4 && "bodyPreview"@.len() == 11 && "bodyTruncated"@.len() == 13);
    assert("status"@.len() == 6 && "bodyType"@.len() == 8 && "provider"@.len() == 8);
    assert("bodyType"@[0] == 'b' && "provider"@[0] == 'p');
    assert("object"@.len() == 6 && "null"@.len() == 4 && "boolean"@.len() == 7);
    assert("array"@.len() == 5 && "text"@.len() == 4 && "empty"@.len() == 5);
    assert("object"@[0] == 'o' && "number"@[0] == 'n' && "string"@[0] == 's');
}

/// However long a body is, what is kept of it as a preview is bounded, and the diagnostic says
/// whether something was left out.
pub proof fn law_preview_is_bounded(body: Seq<char>)
    ensures
        body_preview(body).len() <= MAX_ERROR_BODY_CHARS + 3,
        body_text(body).len() > MAX_ERROR_BODY_CHARS ==> crate::text::ends_with(
            body_preview(body),
            "..."@,
        ),
        body_text(body).len() <= MAX_ERROR_BODY_CHARS ==> body_preview(body) == body_text(body),
{
    reveal_strlit("...");
    let text = body_text(body);
    if text.len() > MAX_ERROR_BODY_CHARS {
        assert(body_preview(body).skip(MAX_ERROR_BODY_CHARS as int) =~= "..."@);
    }
}

// ---------------------------------------------------------------------------------------------
// Laws on what is hidden and what is kept
// ---------------------------------------------------------------------------------------------

/// A text of no more than `max` characters stays as it is; of a longer one the first `max` are
/// left, with three dots behind them.
pub proof fn law_only_long_text_is_cut(s: Seq<char>, max: nat)
    ensures
        s.len() <= max ==> shortened(s, max) == s,
        s.len() > max ==> shortened(s, max) == s.subrange(0, max as int) + seq!['.', '.', '.'],
{
    reveal_strlit("...");
    if s.len() > max {
        assert(shortened(s, max) =~= s.subrange(0, max as int) + seq!['.', '.', '.']);
    }
}

/// A name is taken character by character: its letters in lower case, its digits, and nothing of
/// what stands between them.
pub proof fn law_name_is_taken_by_characters(a: Seq<char>, b: Seq<char>, c: char)
    ensures
        plain_name(a + b) == plain_name(a) + plain_name(b),
        'a' <= c <= 'z' || '0' <= c <= '9' ==> plain_name(seq![c]) == seq![c],
        'A' <= c <= 'Z' ==> plain_name(seq![c]) == seq![(c as u32 + 32) as char],
        !('a' <= c <= 'z' || '0' <= c <= '9' || 'A' <= c <= 'Z') ==> plain_name(seq![c]).len()
            == 0,
    decreases b.len(),
{
    reveal_with_fuel(plain_name, 2);
    assert(seq![c].drop_last() =~= Seq::<char>::empty());
    assert('A' <= c <= 'Z' ==> plain_name(seq![c]) =~= seq![(c as u32 + 32) as char]);
    assert('a' <= c <= 'z' || '0' <= c <= '9' ==> plain_name(seq![c]) =~= seq![c]);
    if b.len() == 0 {
        assert(a + b =~= a);
        assert(plain_name(a) + plain_name(b) =~= plain_name(a));
    } else {
        law_name_is_taken_by_characters(a, b.drop_last(), c);
        assert((a + b).drop_last() =~= a + b.drop_last());
        assert(plain_name(a + b) =~= plain_name(a) + plain_name(b));
    }
}

/// In every object, what stands under a name whose letters and digits end with "secret" or "token",
/// or are one of the other words for a secret, is replaced by "[redacted]".
pub proof fn law_secrets_are_replaced(
    map: Map<Seq<char>, JsonTree>,
    name: Seq<char>,
    front: Seq<char>,
)
    requires
        map.dom().contains(name),
        ({
            let plain = plain_name(name);
            ||| plain == front + "secret"@
            ||| plain == front + "token"@
            ||| plain == "apikey"@
            ||| plain == "authorization"@
            ||| plain == "bearer"@
            ||| plain == "credential"@
            ||| plain == "credentials"@
            ||| plain == "password"@
        }),
    ensures
        redacted(JsonTree::Object(map)) is Object,
        redacted(JsonTree::Object(map))->Object_0.dom().contains(name),
        redacted(JsonTree::Object(map))->Object_0[name] == JsonTree::Text("[redacted]"@),
{
    lemma_redacted_object(map);
    let plain = plain_name(name);
    if plain == front + "secret"@ {
        assert(plain.skip(plain.len() - "secret"@.len()) =~= "secret"@);
    }
    if plain == front + "token"@ {
        assert(plain.skip(plain.len() - "token"@.len()) =~= "token"@);
    }
}

/// In every object, what stands under any other name is kept, redacted in its turn, and no member
/// comes or goes.
pub proof fn law_other_members_are_kept(map: Map<Seq<char>, JsonTree>, name: Seq<char>)
    requires
        map.dom().contains(name),
        forall|front: Seq<char>| plain_name(name) != #[trigger] (front + "secret"@),
        forall|front: Seq<char>| plain_name(name) != #[trigger] (front + "token"@),
        plain_name(name) != "apikey"@,
        plain_name(name) != "authorization"@,
        plain_name(name) != "bearer"@,
        plain_name(name) != "credential"@,
        plain_name(name) != "credentials"@,
        plain_name(name) != "password"@,
    ensures
        redacted(JsonTree::Object(map)) is Object,
        redacted(JsonTree::Object(map))->Object_0.dom() == map.dom(),
        redacted(JsonTree::Object(map))->Object_0[name] == redacted(map[name]),
{
    lemma_redacted_object(map);
    let plain = plain_name(name);
    let none = Seq::<char>::empty();
    assert(none + "secret"@ =~= "secret"@);
    assert(none + "token"@ =~= "token"@);
    assert("client"@ + "secret"@ =~= "clientsecret"@) by {
        reveal_strlit("client");
        reveal_strlit("secret");
        reveal_strlit("clientsecret");
    }
    assert("refresh"@ + "token"@ =~= "refreshtoken"@) by {
        reveal_strlit("refresh");
        reveal_strlit("token");
        reveal_strlit("refreshtoken");
    }
    if ends_with(plain, "secret"@) {
        assert(plain =~= plain.take(plain.len() - "secret"@.len()) + "secret"@);
    }
    if ends_with(plain, "token"@) {
        assert(plain =~= plain.take(plain.len() - "token"@.len()) + "token"@);
    }
}

/// A name of lower letters and digits alone stands for itself.
pub proof fn law_plain_name_is_itself(s: Seq<char>)
    requires
        forall|i: int|
            0 <= i < s.len() ==> 'a' <= #[trigger] s[i] <= 'z' || '0' <= s[i] <= '9',
    ensures
        plain_name(s) == s,
    decreases s.len(),
{
    if s.len() > 0 {
        assert(s.last() == s[s.len() - 1]);
        law_plain_name_is_itself(s.drop_last());
        assert(s.drop_last().push(s.last()) =~= s);
    } else {
        assert(plain_name(s) =~= s);
    }
}

/// Two words with a mark between them stand for the two words in a row.
proof fn lemma_two_words(whole: Seq<char>, a: Seq<char>, mark: char, b: Seq<char>)
    requires
        whole == a + seq![mark] + b,
        !is_ascii_letter_or_digit(mark),
        forall|i: int| 0 <= i < a.len() ==> 'a' <= #[trigger] a[i] <= 'z',
        forall|i: int| 0 <= i < b.len() ==> 'a' <= #[trigger] b[i] <= 'z',
    ensures
        plain_name(whole) == a + b,
{
    law_name_is_taken_by_characters(a, seq![mark], mark);
    law_name_is_taken_by_characters(a + seq![mark], b, mark);
    law_plain_name_is_itself(a);
    law_plain_name_is_itself(b);
    assert(plain_name(whole) =~= a + b);
}

/// Whatever an object holds under the usual names for secrets, it holds "[redacted]" there once it
/// is redacted.
pub proof fn law_usual_secrets_are_replaced(map: Map<Seq<char>, JsonTree>)
    ensures
        ({
            let out = redacted(JsonTree::Object(map))->Object_0;
            let hidden = JsonTree::Text("[redacted]"@);
            &&& map.dom().contains("client_secret"@) ==> out["client_secret"@] == hidden
            &&& map.dom().contains("access_token"@) ==> out["access_token"@] == hidden
            &&& map.dom().contains("api_key"@) ==> out["api_key"@] == hidden
            &&& map.dom().contains("Authorization"@) ==> out["Authorization"@] == hidden
        }),
{
    assert(plain_name("client_secret"@) == "client"@ + "secret"@) by {
        reveal_strlit("client_secret");
        reveal_strlit("client");
        reveal_strlit("secret");
        assert("client_secret"@ =~= "client"@ + seq!['_'] + "secret"@);
        lemma_two_words("client_secret"@, "client"@, '_', "secret"@);
    }
    assert(plain_name("access_token"@) == "access"@ + "token"@) by {
        reveal_strlit("access_token");
        reveal_strlit("access");
        reveal_strlit("token");
        assert("access_token"@ =~= "access"@ + seq!['_'] + "token"@);
        lemma_two_words("access_token"@, "access"@, '_', "token"@);
    }
    assert(plain_name("api_key"@) == "apikey"@) by {
        reveal_strlit("api_key");
        reveal_strlit("api");
        reveal_strlit("key");
        reveal_strlit("apikey");
        assert("api_key"@ =~= "api"@ + seq!['_'] + "key"@);
        lemma_two_words("api_key"@, "api"@, '_', "key"@);
        assert("api"@ + "key"@ =~= "apikey"@);
    }
    assert(plain_name("Authorization"@) == "authorization"@) by {
        reveal_strlit("Authorization");
        reveal_strlit("uthorization");
        reveal_strlit("authorization");
        assert("Authorization"@ =~= seq!['A'] + "uthorization"@);
        law_name_is_taken_by_characters(seq!['A'], "uthorization"@, 'A');
        law_plain_name_is_itself("uthorization"@);
        assert(seq!['a'] + "uthorization"@ =~= "authorization"@);
    }
    if map.dom().contains("client_secret"@) {
        law_secrets_are_replaced(map, "client_secret"@, "client"@);
    }
    if map.dom().contains("access_token"@) {
        law_secrets_are_replaced(map, "access_token"@, "access"@);
    }
    if map.dom().contains("api_key"@) {
        law_secrets_are_replaced(map, "api_key"@, Seq::empty());
    }
    if map.dom().contains("Authorization"@) {
        law_secrets_are_replaced(map, "Authorization"@, Seq::empty());
    }
}

/// Redacting keeps the shape of a value: null, booleans and numbers stay, an array keeps its
/// length and has each item redacted, and a text stays without its tokens, cut to 512 characters
/// and three dots where it is longer.
pub proof fn law_redacting_keeps_the_shape(
    items: Seq<JsonTree>,
    number: serde_json::Number,
    b: bool,
    s: Seq<char>,
)
    ensures
        redacted(JsonTree::Null) == JsonTree::Null,
        redacted(JsonTree::Bool(b)) == JsonTree::Bool(b),
        redacted(JsonTree::Number(number)) == JsonTree::Number(number),
        redacted(JsonTree::Array(items)) is Array,
        redacted(JsonTree::Array(items))->Array_0.len() == items.len(),
        forall|i: int|
            0 <= i < items.len() ==> #[trigger] redacted(JsonTree::Array(items))->Array_0[i]
                == redacted(items[i]),
        ({
            let clean = bearer_tokens_replaced(s)->0;
            &&& clean.len() <= 512 ==> redacted(JsonTree::Text(s)) == JsonTree::Text(clean)
            &&& clean.len() > 512 ==> redacted(JsonTree::Text(s)) == JsonTree::Text(
                clean.subrange(0, 512) + seq!['.', '.', '.'],
            )
        }),
{
    law_only_long_text_is_cut(bearer_tokens_replaced(s)->0, 512);
}

/// The message of an error body is what stands under "message" in its "error", whatever else the
/// body holds: a text with anything in it, or an object written out.
pub proof fn law_nested_message_comes_first(
    map: Map<Seq<char>, JsonTree>,
    inner: Map<Seq<char>, JsonTree>,
)
    requires
        map.dom().contains("error"@),
        map["error"@] == JsonTree::Object(inner),
        inner.dom().contains("message"@),
    ensures
        inner["message"@] is Text && inner["message"@]->Text_0.len() > 0 ==> raw_message(
            JsonTree::Object(map),
        ) == Some(inner["message"@]->Text_0),
        inner["message"@] is Object ==> raw_message(JsonTree::Object(map)) == Some(
            json_text(inner["message"@]),
        ),
{
}

/// Without a message in its "error", the message of an error body is what stands under "message": a
/// text with anything in it, or an object written out. An empty text, a number, a boolean, null and
/// an array are no message.
pub proof fn law_plain_message_comes_second(map: Map<Seq<char>, JsonTree>)
    requires
        map.dom().contains("error"@) && map["error"@] is Object
            && map["error"@]->Object_0.dom().contains("message"@) ==> match map["error"@]->Object_0["message"@] {
            JsonTree::Text(s) => s.len() == 0,
            JsonTree::Object(_) => false,
            _ => true,
        },
        map.dom().contains("message"@),
    ensures
        map["message"@] is Text && map["message"@]->Text_0.len() > 0 ==> raw_message(
            JsonTree::Object(map),
        ) == Some(map["message"@]->Text_0),
        map["message"@] is Object ==> raw_message(JsonTree::Object(map)) == Some(
            json_text(map["message"@]),
        ),
{
}

/// Without either message, the message of an error body is its "error": a text with anything in it,
/// or the object written out.
pub proof fn law_error_comes_third(map: Map<Seq<char>, JsonTree>)
    requires
        map.dom().contains("error"@),
        map.dom().contains("message"@) ==> match map["message"@] {
            JsonTree::Text(s) => s.len() == 0,
            JsonTree::Object(_) => false,
            _ => true,
        },
        map["error"@] is Object && map["error"@]->Object_0.dom().contains("message"@)
            ==> match map["error"@]->Object_0["message"@] {
            JsonTree::Text(s) => s.len() == 0,
            JsonTree::Object(_) => false,
            _ => true,
        },
    ensures
        map["error"@] is Text && map["error"@]->Text_0.len() > 0 ==> raw_message(
            JsonTree::Object(map),
        ) == Some(map["error"@]->Text_0),
        map["error"@] is Object ==> raw_message(JsonTree::Object(map)) == Some(
            json_text(map["error"@]),
        ),
{
}

/// Without all of these, the message of an error body is its "detail"; and there is none where it
/// has none of the four, or where they are empty, numbers, booleans, null or arrays.
pub proof fn law_detail_comes_last(map: Map<Seq<char>, JsonTree>)
    requires
        map.dom().contains("error"@) ==> !(map["error"@] is Object) && (map["error"@] is Text
            ==> map["error"@]->Text_0.len() == 0),
        map.dom().contains("message"@) ==> !(map["message"@] is Object) && (map["message"@]
            is Text ==> map["message"@]->Text_0.len() == 0),
    ensures
        !map.dom().contains("detail"@) ==> raw_message(JsonTree::Object(map)) is None,
        map.dom().contains("detail"@) ==> raw_message(JsonTree::Object(map)) == match map["detail"@] {
            JsonTree::Text(s) => if s.len() > 0 {
                Some(s)
            } else {
                None
            },
            JsonTree::Object(inner) => Some(json_text(JsonTree::Object(inner))),
            _ => None,
        },
{
}

/// What is shown of a message is the message without its tokens, cut to 512 characters and three
/// dots where it is longer; a body without a message shows none.
pub proof fn law_shown_message_is_clean(tree: JsonTree)
    ensures
        raw_message(tree) is None ==> extracted_message(tree) is None,
        raw_message(tree) is Some ==> ({
            let clean = bearer_tokens_replaced(raw_message(tree)->0)->0;
            &&& clean.len() <= 512 ==> extracted_message(tree) == Some(clean)
            &&& clean.len() > 512 ==> extracted_message(tree) == Some(
                clean.subrange(0, 512) + seq!['.', '.', '.'],
            )
        }),
{
    if raw_message(tree) is Some {
        law_only_long_text_is_cut(bearer_tokens_replaced(raw_message(tree)->0)->0, 512);
    }
}

/// An HTTP error tells the status and what the provider said: the message of a body that is an
/// object, or the text of a body that is no JSON. Of other JSON and of an empty body it says that
/// the request failed.
pub proof fn law_http_error_tells_what_was_said(
    line: Seq<char>,
    preview: Seq<char>,
    parsed: Option<JsonTree>,
    map: Map<Seq<char>, JsonTree>,
)
    ensures
        ({
            let told = http_error_message(line, body_message(preview, parsed));
            &&& parsed is None && preview.len() > 0 ==> told == "HTTP "@ + line + ": "@ + preview
            &&& parsed is None && preview.len() == 0 ==> told == "HTTP "@ + line + ": "@
                + "provider request failed"@
            &&& parsed is Some && !(parsed->0 is Object) ==> told == "HTTP "@ + line + ": "@
                + "provider request failed"@
        }),
        ({
            let body = JsonTree::Object(map);
            let told = http_error_message(line, body_message(preview, Some(body)));
            match extracted_message(redacted(body)) {
                Some(said) => told == "HTTP "@ + line + ": "@ + said,
                None => told == "HTTP "@ + line + ": "@ + "provider request failed"@,
            }
        }),
{
}

/// The names under which a diagnostic keeps things are different names.
proof fn lemma_names_of_data()
    ensures
        "provider"@ != "status"@ && "provider"@ != "bodyTruncated"@ && "provider"@ != "body"@,
        "provider"@ != "bodyPreview"@ && "provider"@ != "bodyType"@ && "status"@ != "body"@,
        "status"@ != "bodyTruncated"@ && "status"@ != "bodyPreview"@ && "status"@ != "bodyType"@,
        "bodyTruncated"@ != "body"@ && "bodyTruncated"@ != "bodyPreview"@,
        "bodyTruncated"@ != "bodyType"@ && "body"@ != "bodyPreview"@ && "body"@ != "bodyType"@,
        "bodyPreview"@ != "bodyType"@,
        "kind"@ != "message"@ && "kind"@ != "data"@ && "message"@ != "data"@,
        "provider"@ != "rawStopReason"@,
{
    reveal_strlit("provider");
    reveal_strlit("status");
    reveal_strlit("bodyTruncated");
    reveal_strlit("body");
    reveal_strlit("bodyPreview");
    reveal_strlit("bodyType");
    reveal_strlit("kind");
    reveal_strlit("message");
    reveal_strlit("data");
    reveal_strlit("rawStopReason");
    assert("body"@.len() == 4 && "bodyPreview"@.len() == 11 && "bodyTruncated"@.len() == 13);
    assert("status"@.len() == 6 && "bodyType"@.len() == 8 && "provider"@.len() == 8);
    assert("bodyType"@[0] == 'b' && "provider"@[0] == 'p' && "kind"@[0] == 'k' && "data"@[0]
        == 'd');
    assert("kind"@.len() == 4 && "data"@.len() == 4 && "message"@.len() == 7);
    assert("rawStopReason"@.len() == 13);
}

/// A diagnostic is an object with a kind, a message and data, and nothing else.
pub proof fn law_diagnostic_has_three_members(kind: Seq<char>, message: Seq<char>, data: JsonTree)
    ensures
        member(diagnostic_tree(kind, message, data), "kind"@) == Some(JsonTree::Text(kind)),
        member(diagnostic_tree(kind, message, data), "message"@) == Some(JsonTree::Text(message)),
        member(diagnostic_tree(kind, message, data), "data"@) == Some(data),
        forall|name: Seq<char>|
            name != "kind"@ && name != "message"@ && name != "data"@ ==> #[trigger] member(
                diagnostic_tree(kind, message, data),
                name,
            ) is None,
{
    lemma_names_of_data();
}

/// Of an HTTP error the provider, the status and whether the body was cut are always kept. An
/// object is kept redacted; of another JSON value, of which the kind is named, and of plain text
/// the preview is kept; of an empty body it is kept that it is empty.
pub proof fn law_http_error_is_on_record(
    provider: Seq<char>,
    status: u16,
    preview: Seq<char>,
    truncated: bool,
    parsed: Option<JsonTree>,
)
    ensures
        ({
            let data = http_error_data(provider, status, preview, truncated, parsed);
            &&& data.dom().contains("provider"@) && data["provider"@] == JsonTree::Text(provider)
            &&& data.dom().contains("status"@) && data["status"@] == JsonTree::Number(
                json_number(status as u64),
            )
            &&& data.dom().contains("bodyTruncated"@) && data["bodyTruncated"@] == JsonTree::Bool(
                truncated,
            )
            &&& data.dom().contains("bodyType"@) && data["bodyType"@] == JsonTree::Text(
                match parsed {
                    Some(JsonTree::Object(_)) => "object"@,
                    Some(JsonTree::Array(_)) => "array"@,
                    Some(JsonTree::Text(_)) => "string"@,
                    Some(JsonTree::Number(_)) => "number"@,
                    Some(JsonTree::Bool(_)) => "boolean"@,
                    Some(JsonTree::Null) => "null"@,
                    None => if preview.len() > 0 {
                        "text"@
                    } else {
                        "empty"@
                    },
                },
            )
            &&& data.dom().contains("body"@) <==> parsed is Some && parsed->0 is Object
            &&& data.dom().contains("body"@) ==> data["body"@] == redacted(parsed->0)
            &&& data.dom().contains("bodyPreview"@) ==> data["bodyPreview"@] == JsonTree::Text(
                preview,
            )
            &&& data.dom().contains("bodyPreview"@) <==> (parsed is Some && !(parsed->0 is Object))
                || (parsed is None && preview.len() > 0)
        }),
{
    lemma_names_of_data();
}

/// The kind of a JSON value is named as JSON names it.
pub proof fn law_kinds_have_their_names(tree: JsonTree)
    ensures
        tree is Null ==> kind_name(tree) == "null"@,
        tree is Bool ==> kind_name(tree) == "boolean"@,
        tree is Number ==> kind_name(tree) == "number"@,
        tree is Text ==> kind_name(tree) == "string"@,
        tree is Array ==> kind_name(tree) == "array"@,
        tree is Object ==> kind_name(tree) == "object"@,
{
}

/// What is kept of a body is its text without tokens and without white space around it, cut to
/// 4096 characters and three dots where it is longer.
pub proof fn law_preview_is_the_beginning(body: Seq<char>)
    ensures
        ({
            let text = trimmed(bearer_tokens_replaced(body)->0);
            &&& body_text(body) == text
            &&& text.len() <= 4096 ==> body_preview(body) == text
            &&& text.len() > 4096 ==> body_preview(body) == text.subrange(0, 4096) + seq![
                '.',
                '.',
                '.',
            ]
        }),
{
    law_only_long_text_is_cut(body_text(body), 4096);
}

/// What can be redacted: null, booleans and numbers always; a text where the search for tokens in
/// it does not leave it; an array where each item can; an object where each member can that does not
/// stand under the name of a secret.
pub proof fn law_what_can_be_redacted(
    items: Seq<JsonTree>,
    map: Map<Seq<char>, JsonTree>,
    number: serde_json::Number,
    b: bool,
    s: Seq<char>,
)
    ensures
        redactable(JsonTree::Null),
        redactable(JsonTree::Bool(b)),
        redactable(JsonTree::Number(number)),
        redactable(JsonTree::Text(s)) <==> bearer_tokens_replaced(s) is Some,
        redactable(JsonTree::Array(items)) <==> forall|i: int|
            0 <= i < items.len() ==> redactable(#[trigger] items[i]),
        redactable(JsonTree::Object(map)) <==> (forall|name: Seq<char>|
            #[trigger] map.dom().contains(name) && !names_secret(name) ==> redactable(map[name])),
{
    let array = JsonTree::Array(items);
    let object = JsonTree::Object(map);
    if redactable(array) {
        lemma_redactable_parts(array);
    } else {
        assert(!forall|i: int| 0 <= i < items.len() ==> redactable(#[trigger] items[i]));
    }
    if redactable(object) {
        lemma_redactable_parts(object);
        assert forall|name: Seq<char>|
            #[trigger] map.dom().contains(name) && !names_secret(name) implies redactable(
            map[name],
        ) by {
            assert(object->Object_0 == map);
            assert(object->Object_0.dom().contains(name));
        }
    } else {
        assert(!(forall|name: Seq<char>|
            #[trigger] map.dom().contains(name) && !names_secret(name) ==> redactable(map[name])));
    }
}

/// The body of an error can be kept where its text can be redacted and, if it is an object, that
/// object and the message in it can.
pub proof fn law_which_bodies_can_be_kept(body: Seq<char>, tree: JsonTree)
    ensures
        body_redactable(body) ==> bearer_tokens_replaced(body) is Some,
        bearer_tokens_replaced(body) is Some && json_parse(body_preview(body)) is None
            ==> body_redactable(body),
        bearer_tokens_replaced(body) is Some && json_parse(body_preview(body)) == Some(tree) && !(
        tree is Object) ==> body_redactable(body),
        bearer_tokens_replaced(body) is Some && json_parse(body_preview(body)) == Some(tree)
            && tree is Object ==> (body_redactable(body) <==> redactable(tree) && (raw_message(
            redacted(tree),
        ) is Some ==> bearer_tokens_replaced(raw_message(redacted(tree))->0) is Some)),
{
}

/// A diagnostic comes behind those that a message has, and nothing else of the message changes.
pub proof fn law_diagnostic_comes_last(
    message: crate::message::AssistantView,
    diagnostic: JsonTree,
)
    ensures
        ({
            let after = with_diagnostic(message, diagnostic);
            &&& after.diagnostics is Some
            &&& after.diagnostics->0.last() == diagnostic
            &&& message.diagnostics is Some ==> after.diagnostics->0.drop_last()
                == message.diagnostics->0
            &&& message.diagnostics is None ==> after.diagnostics->0.len() == 1
            &&& after.blocks == message.blocks && after.usage == message.usage
            &&& after.stop_reason == message.stop_reason
            &&& after.error_message == message.error_message
            &&& after.api == message.api && after.provider == message.provider
            &&& after.model == message.model && after.response_model == message.response_model
            &&& after.response_id == message.response_id && after.timestamp == message.timestamp
        }),
{
    if message.diagnostics is Some {
        assert(with_diagnostic(message, diagnostic).diagnostics->0.drop_last()
            =~= message.diagnostics->0);
    }
}

/// A provider's own word for why the model stopped is told in full and kept cut to 512 characters,
/// together with the provider.
pub proof fn law_own_word_is_kept(provider: Seq<char>, raw_stop_reason: Seq<char>)
    ensures
        ({
            let tree = stop_reason_tree(provider, raw_stop_reason);
            let data = member(tree, "data"@)->0;
            &&& text_member(tree, "kind"@) == Some("provider_raw_stop_reason"@)
            &&& text_member(tree, "message"@) == Some(
                provider + " raw stop reason: "@ + raw_stop_reason,
            )
            &&& member(tree, "data"@) is Some
            &&& text_member(data, "provider"@) == Some(provider)
            &&& raw_stop_reason.len() <= 512 ==> text_member(data, "rawStopReason"@) == Some(
                raw_stop_reason,
            )
            &&& raw_stop_reason.len() > 512 ==> text_member(data, "rawStopReason"@) == Some(
                raw_stop_reason.subrange(0, 512) + seq!['.', '.', '.'],
            )
        }),
{
    lemma_names_of_data();
    law_only_long_text_is_cut(raw_stop_reason, 512);
}

/// An HTTP error is on record under its own kind, with the message that is told and the data.
pub proof fn law_http_error_has_its_kind(message: Seq<char>, data: Map<Seq<char>, JsonTree>)
    ensures
        text_member(http_error_tree(message, data), "kind"@) == Some("provider_http_error"@),
        text_member(http_error_tree(message, data), "message"@) == Some(message),
        member(http_error_tree(message, data), "data"@) == Some(JsonTree::Object(data)),
{
    lemma_names_of_data();
}

} // verus!
