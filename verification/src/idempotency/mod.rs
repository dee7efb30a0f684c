//! The `dev.mcpg/idempotency` extension: request deduplication at the gateway.
//!
//! A caller names a request by an idempotency key. The functions here check
//! the key, hash what identifies the caller and the request, and mark a
//! replayed answer; [`store`] and [`kv_store`] keep the records.
use vstd::prelude::*;
use vstd::string::*;

use crate::clock::Timestamp;
use crate::json;
use crate::json::Json;
use crate::outside;
use crate::text;

pub mod kv_store;
pub mod store;

verus! {

/// The identifier under which the extension is advertised.
pub const EXTENSION_ID: &'static str = "dev.mcpg/idempotency";

/// The `_meta` field of a request that carries the key.
pub const META_KEY_REQUEST: &'static str = "dev.mcpg/idempotency-key";

/// The `_meta` field of an answer that says that it is a replay.
pub const META_KEY_REPLAYED: &'static str = "dev.mcpg/idempotency-replayed";

/// The `_meta` field of a replay that carries the time of the first answer.
pub const META_KEY_ORIGINAL_COMPLETED_AT: &'static str =
    "dev.mcpg/idempotency-original-completed-at";

/// The error code of a key that was used with another request body.
pub const ERROR_CODE_CONFLICT: i32 = -32010;

/// The error code of a key whose request is still running.
pub const ERROR_CODE_IN_FLIGHT: i32 = -32011;

/// The error code of a key that breaks the format rules.
pub const ERROR_CODE_KEY_MALFORMED: i32 = -32013;

/// The longest key, in bytes.
pub const MAX_KEY_LEN: usize = 255;

/// What came of checking a key.
#[derive(Debug, Clone, PartialEq, Eq)]
pub enum KeyValidation {
    /// No key was given, or `null`.
    Absent,
    /// The key, trimmed.
    Valid(String),
    /// The key breaks the format rules.
    Invalid(KeyMalformedReason),
}

/// Why a key was refused.
#[derive(Debug, Clone, Copy, PartialEq, Eq, Structural)]
pub enum KeyMalformedReason {
    /// It is not a text.
    NotAString,
    /// Nothing is left of it after trimming.
    Empty,
    /// It is longer than [`MAX_KEY_LEN`] bytes.
    TooLong,
    /// It holds a character outside ASCII.
    NonAscii,
}

/// What came of checking a key, over plain values.
pub enum KeyVerdict {
    Absent,
    Valid(Seq<char>),
    Invalid(KeyMalformedReason),
}

impl DeepView for KeyValidation {
    type V = KeyVerdict;

    open spec fn deep_view(&self) -> KeyVerdict {
        match self {
            KeyValidation::Absent => KeyVerdict::Absent,
            KeyValidation::Valid(k) => KeyVerdict::Valid(k@),
            KeyValidation::Invalid(r) => KeyVerdict::Invalid(*r),
        }
    }
}

/// The message of a refusal.
pub open spec fn reason_text(reason: KeyMalformedReason) -> Seq<char> {
    match reason {
        KeyMalformedReason::NotAString =>
            "`_meta[\"dev.mcpg/idempotency-key\"]` must be a string"@,
        KeyMalformedReason::Empty => "idempotency key must not be empty after trim"@,
        KeyMalformedReason::TooLong => "idempotency key exceeds 255 bytes"@,
        KeyMalformedReason::NonAscii =>
            "idempotency key must be ASCII (RFC `draft-ietf-httpapi-idempotency-key-header-07`)"@,
    }
}

impl KeyMalformedReason {
    /// The message for the caller.
    pub fn as_message(self) -> (r: &'static str)
        ensures
            r@ == reason_text(self),
    {
        match self {
            KeyMalformedReason::NotAString =>
                "`_meta[\"dev.mcpg/idempotency-key\"]` must be a string",
            KeyMalformedReason::Empty => "idempotency key must not be empty after trim",
            KeyMalformedReason::TooLong => "idempotency key exceeds 255 bytes",
            KeyMalformedReason::NonAscii =>
                "idempotency key must be ASCII (RFC `draft-ietf-httpapi-idempotency-key-header-07`)",
        }
    }
}

/// The verdict on a key text: it must be non-empty after trimming, short, and
/// ASCII, in this order.
pub open spec fn key_text_verdict(raw: Seq<char>) -> KeyVerdict {
    let k = text::trimmed(raw);
    if k.len() == 0 {
        KeyVerdict::Invalid(KeyMalformedReason::Empty)
    } else if vstd::utf8::encode_utf8(k).len() > MAX_KEY_LEN {
        KeyVerdict::Invalid(KeyMalformedReason::TooLong)
    } else if !vstd::utf8::is_ascii_chars(k) {
        KeyVerdict::Invalid(KeyMalformedReason::NonAscii)
    } else {
        KeyVerdict::Valid(k)
    }
}

/// The verdict on a key value.
pub open spec fn key_verdict(value: Option<json::Tree>) -> KeyVerdict {
    match value {
        None => KeyVerdict::Absent,
        Some(json::Tree::Null) => KeyVerdict::Absent,
        Some(json::Tree::Str(raw)) => key_text_verdict(raw),
        Some(_) => KeyVerdict::Invalid(KeyMalformedReason::NotAString),
    }
}

/// Checks a key value.
pub fn validate_request_key(meta_value: Option<&Json>) -> (r: KeyValidation)
    ensures
        r.deep_view() == key_verdict(meta_value.deep_view()),
{
    let value: &Json = match meta_value {
        None => {
            return KeyValidation::Absent;
        },
        Some(v) => v,
    };
    if value.is_null() {
        return KeyValidation::Absent;
    }
    let raw: &str = match value.as_str() {
        None => {
            return KeyValidation::Invalid(KeyMalformedReason::NotAString);
        },
        Some(s) => s,
    };
    let k: String = text::trim(raw);
    if k.as_str().is_empty() {
        return KeyValidation::Invalid(KeyMalformedReason::Empty);
    }
    if k.as_str().as_bytes().len() > MAX_KEY_LEN {
        return KeyValidation::Invalid(KeyMalformedReason::TooLong);
    }
    if !k.as_str().is_ascii() {
        return KeyValidation::Invalid(KeyMalformedReason::NonAscii);
    }
    KeyValidation::Valid(k)
}

/// The key value that a `_meta` object holds.
pub open spec fn meta_key(meta: Option<json::Tree>) -> Option<json::Tree> {
    match meta {
        Some(m) => json::tree_get(m, META_KEY_REQUEST@),
        None => None,
    }
}

/// Finds the key in a `_meta` value and checks it.
pub fn extract_request_key(meta: Option<&Json>) -> (r: KeyValidation)
    ensures
        r.deep_view() == key_verdict(meta_key(meta.deep_view())),
{
    match meta {
        None => KeyValidation::Absent,
        Some(m) => validate_request_key(m.get(META_KEY_REQUEST)),
    }
}

/// A key that is accepted is short ASCII text that no trimming changes, so
/// accepting it again gives the same key.
pub proof fn law_accepted_key_is_canonical(raw: Seq<char>)
    requires
        key_text_verdict(raw) is Valid,
    ensures
        key_text_verdict(key_text_verdict(raw)->Valid_0) == key_text_verdict(raw),
        0 < key_text_verdict(raw)->Valid_0.len() <= MAX_KEY_LEN,
        vstd::utf8::is_ascii_chars(key_text_verdict(raw)->Valid_0),
{
    text::law_trim_is_idempotent(raw);
    let k = text::trimmed(raw);
    vstd::utf8::is_ascii_chars_encode_utf8(k);
}

/// The texts of a list as JSON values.
pub open spec fn text_trees(s: Seq<Seq<char>>) -> Seq<json::Tree> {
    Seq::new(s.len(), |i: int| json::Tree::Str(s[i]))
}

fn text_array(items: &[&str]) -> (r: Json)
    ensures
        r.tree() == json::Tree::Array(text_trees(Seq::new(items@.len(), |i: int| items@[i]@))),
{
    let mut out: Vec<Json> = Vec::new();
    let mut i: usize = 0;
    while i < items.len()
        invariant
            i <= items@.len(),
            out@.len() == i,
            forall|j: int| 0 <= j < i ==> (#[trigger] out@[j]).tree() == json::Tree::Str(
                items@[j]@,
            ),
        decreases items.len() - i,
    {
        out.push(Json::text(items[i]));
        i += 1;
    }
    proof {
        json::lemma_elements(out@);
        assert(json::elements(out@) =~= text_trees(
            Seq::new(items@.len(), |i: int| items@[i]@),
        ));
    }
    Json::Array(out)
}

/// The value advertised for the extension.
pub open spec fn advertisement(
    default_ttl_seconds: u64,
    max_ttl_seconds: u64,
    scope_label: Seq<char>,
    methods: Seq<Seq<char>>,
    conflict_policy: Seq<char>,
) -> json::Tree {
    json::object_of(
        seq![
            ("scope"@, json::Tree::Str(scope_label)),
            (
                "default_ttl_seconds"@,
                json::Tree::Number(text::decimal_text(default_ttl_seconds as nat)),
            ),
            ("max_ttl_seconds"@, json::Tree::Number(text::decimal_text(max_ttl_seconds as nat))),
            ("supported_methods"@, json::Tree::Array(text_trees(methods))),
            ("supports_replay_marker"@, json::Tree::Bool(true)),
            ("conflict_policy"@, json::Tree::Str(conflict_policy)),
        ],
    )
}

/// Builds the value advertised for the extension.
pub fn capability_advertisement(
    default_ttl_seconds: u64,
    max_ttl_seconds: u64,
    scope_label: &str,
    supported_methods: &[&str],
    conflict_policy_label: &str,
) -> (r: Json)
    ensures
        r.tree() == advertisement(
            default_ttl_seconds,
            max_ttl_seconds,
            scope_label@,
            Seq::new(supported_methods@.len(), |i: int| supported_methods@[i]@),
            conflict_policy_label@,
        ),
{
    proof {
        reveal_with_fuel(json::map_of, 7);
    }
    Json::object().with("scope", Json::text(scope_label)).with(
        "default_ttl_seconds",
        Json::count(default_ttl_seconds),
    ).with("max_ttl_seconds", Json::count(max_ttl_seconds)).with(
        "supported_methods",
        text_array(supported_methods),
    ).with("supports_replay_marker", Json::Bool(true)).with(
        "conflict_policy",
        Json::text(conflict_policy_label),
    )
}

pub(crate) fn push_bytes(out: &mut Vec<u8>, data: &[u8])
    ensures
        final(out)@ == old(out)@ + data@,
{
    let ghost start = out@;
    let mut i: usize = 0;
    while i < data.len()
        invariant
            i <= data@.len(),
            out@ == start + data@.take(i as int),
        decreases data.len() - i,
    {
        proof {
            assert(start + data@.take(i + 1) =~= (start + data@.take(i as int)).push(
                data@[i as int],
            ));
        }
        out.push(data[i]);
        i += 1;
    }
    proof {
        assert(data@.take(data@.len() as int) =~= data@);
    }
}

/// The bytes that are hashed for a request: method, tool name and the JSON of
/// the arguments, separated by zero bytes.
pub open spec fn body_bytes(
    method: Seq<char>,
    tool_name: Seq<char>,
    arguments: Option<json::Tree>,
) -> Seq<u8> {
    vstd::utf8::encode_utf8(method) + seq![0u8] + vstd::utf8::encode_utf8(tool_name) + seq![0u8] + (
    match arguments {
        Some(t) => match outside::json_bytes(t) {
            Ok(b) => b,
            Err(_) => seq![],
        },
        None => seq![],
    })
}

/// Hashes what a request asks for.
pub fn hash_request_body(method: &str, tool_name: &str, arguments: Option<&Json>) -> (r: [u8; 32])
    ensures
        r@ == outside::blake3_digest(body_bytes(method@, tool_name@, arguments.deep_view())),
{
    let mut data: Vec<u8> = Vec::new();
    push_bytes(&mut data, method.as_bytes());
    data.push(0);
    push_bytes(&mut data, tool_name.as_bytes());
    data.push(0);
    if let Some(args) = arguments {
        if let Ok(bytes) = outside::json_to_vec(args) {
            push_bytes(&mut data, bytes.as_slice());
        }
    }
    proof {
        assert(data@ =~= body_bytes(method@, tool_name@, arguments.deep_view()));
    }
    outside::blake3_hash(data.as_slice())
}

/// The text, or the empty text where there is none.
pub open spec fn or_empty(o: Option<Seq<char>>) -> Seq<char> {
    match o {
        Some(s) => s,
        None => seq![],
    }
}

/// The bytes that are hashed for a caller: subject, provider and issuer,
/// separated by zero bytes.
pub open spec fn identity_bytes(
    subject_id: Option<Seq<char>>,
    auth_provider: Option<Seq<char>>,
    issuer: Option<Seq<char>>,
) -> Seq<u8> {
    vstd::utf8::encode_utf8(or_empty(subject_id)) + seq![0u8] + vstd::utf8::encode_utf8(
        or_empty(auth_provider),
    ) + seq![0u8] + vstd::utf8::encode_utf8(or_empty(issuer))
}

fn text_or_empty(o: Option<&str>) -> (r: &str)
    ensures
        r@ == or_empty(o.deep_view()),
{
    proof {
        reveal_strlit("");
        assert(""@ =~= Seq::<char>::empty());
    }
    match o {
        Some(s) => s,
        None => "",
    }
}

/// Hashes what identifies a caller.
pub fn hash_identity(
    subject_id: Option<&str>,
    auth_provider: Option<&str>,
    issuer: Option<&str>,
) -> (r: [u8; 32])
    ensures
        r@ == outside::blake3_digest(
            identity_bytes(subject_id.deep_view(), auth_provider.deep_view(), issuer.deep_view()),
        ),
{
    let mut data: Vec<u8> = Vec::new();
    push_bytes(&mut data, text_or_empty(subject_id).as_bytes());
    data.push(0);
    push_bytes(&mut data, text_or_empty(auth_provider).as_bytes());
    data.push(0);
    push_bytes(&mut data, text_or_empty(issuer).as_bytes());
    proof {
        assert(data@ =~= identity_bytes(
            subject_id.deep_view(),
            auth_provider.deep_view(),
            issuer.deep_view(),
        ));
    }
    outside::blake3_hash(data.as_slice())
}

/// The first sixteen bytes of a digest, as hexadecimal text.
pub open spec fn short_hex(digest: Seq<u8>) -> Seq<char> {
    outside::hex_text(digest.take(16))
}

pub(crate) fn short_hex_of(digest: &[u8; 32]) -> (r: String)
    ensures
        r@ == short_hex(digest@),
{
    let mut head: Vec<u8> = Vec::new();
    let mut i: usize = 0;
    while i < 16
        invariant
            i <= 16,
            digest@.len() == 32,
            head@ == digest@.take(i as int),
        decreases 16 - i,
    {
        proof {
            assert(digest@.take(i + 1) =~= digest@.take(i as int).push(digest@[i as int]));
        }
        head.push(digest[i]);
        i += 1;
    }
    outside::hex_encode(head.as_slice())
}

/// The short hash of a key, for records that must not hold the key itself.
pub open spec fn key_hash_text(key: Seq<char>) -> Seq<char> {
    short_hex(outside::blake3_digest(vstd::utf8::encode_utf8(key)))
}

/// The short hash of a key, for records that must not hold the key itself.
pub fn key_hash_hex(key: &str) -> (r: String)
    ensures
        r@ == key_hash_text(key@),
{
    let digest: [u8; 32] = outside::blake3_hash(key.as_bytes());
    short_hex_of(&digest)
}

/// The `_meta` object of a replay.
pub open spec fn marked_meta(
    meta: Map<Seq<char>, json::Tree>,
    completed_at: Seq<char>,
) -> Map<Seq<char>, json::Tree> {
    meta.insert(META_KEY_REPLAYED@, json::Tree::Bool(true)).insert(
        META_KEY_ORIGINAL_COMPLETED_AT@,
        json::Tree::Str(completed_at),
    )
}

/// An answer marked as a replay. An answer that is no object, or whose `_meta`
/// is no object, stays as it is.
pub open spec fn marked(envelope: json::Tree, completed_at: Seq<char>) -> json::Tree {
    match envelope {
        json::Tree::Object(m) => if !m.contains_key("_meta"@) {
            json::Tree::Object(
                m.insert(
                    "_meta"@,
                    json::Tree::Object(marked_meta(Map::empty(), completed_at)),
                ),
            )
        } else {
            match m["_meta"@] {
                json::Tree::Object(meta) => json::Tree::Object(
                    m.insert("_meta"@, json::Tree::Object(marked_meta(meta, completed_at))),
                ),
                _ => envelope,
            }
        },
        _ => envelope,
    }
}

/// Marks an answer as a replay of one that was completed at the given time.
pub fn stamp_replay_marker(envelope: Json, original_completed_at: Timestamp) -> (r: Json)
    ensures
        r.tree() == marked(envelope.tree(), original_completed_at.rfc3339_view()),
{
    if !envelope.is_object() {
        return envelope;
    }
    let meta: Json = match envelope.get("_meta") {
        None => Json::object(),
        Some(m) => {
            if !m.is_object() {
                return envelope;
            }
            m.copy()
        },
    };
    let meta: Json = meta.with(META_KEY_REPLAYED, Json::Bool(true)).with(
        META_KEY_ORIGINAL_COMPLETED_AT,
        Json::Str(original_completed_at.to_rfc3339()),
    );
    envelope.with("_meta", meta)
}

/// Marking an answer changes nothing of it but `_meta`, and there only the two
/// fields of the marker.
pub proof fn law_marker_touches_meta_only(
    envelope: Map<Seq<char>, json::Tree>,
    completed_at: Seq<char>,
    field: Seq<char>,
)
    requires
        field != "_meta"@,
    ensures
        json::tree_get(marked(json::Tree::Object(envelope), completed_at), field)
            == json::tree_get(json::Tree::Object(envelope), field),
{
}

/// Marking a marked answer with the same time changes nothing.
pub proof fn law_marking_is_idempotent(envelope: json::Tree, completed_at: Seq<char>)
    ensures
        marked(marked(envelope, completed_at), completed_at) == marked(envelope, completed_at),
{
    if let json::Tree::Object(m) = envelope {
        let meta = if !m.contains_key("_meta"@) {
            Some(Map::<Seq<char>, json::Tree>::empty())
        } else {
            match m["_meta"@] {
                json::Tree::Object(x) => Some(x),
                _ => None,
            }
        };
        if let Some(x) = meta {
            let once = marked_meta(x, completed_at);
            assert(marked_meta(once, completed_at) =~= once);
            let out = m.insert("_meta"@, json::Tree::Object(once));
            assert(out.insert("_meta"@, json::Tree::Object(once)) =~= out);
        }
    }
}

/// A one-byte mark stands in the bytes of a text only where the text holds it as
/// a character.
pub proof fn lemma_mark_is_a_character(t: Seq<char>, mark: u8)
    requires
        mark < 128,
        forall|i: int| 0 <= i < t.len() ==> #[trigger] t[i] as u32 != mark as u32,
    ensures
        forall|i: int|
            0 <= i < vstd::utf8::encode_utf8(t).len() ==> #[trigger] vstd::utf8::encode_utf8(t)[i]
                != mark,
    decreases t.len(),
{
    if t.len() > 0 {
        let after = t.drop_first();
        assert forall|i: int| 0 <= i < after.len() implies #[trigger] after[i] as u32
            != mark as u32 by {
            assert(after[i] == t[i + 1]);
        }
        lemma_mark_is_a_character(after, mark);
        let c = t[0] as u32;
        assert(c <= 0x7F ==> (c & 0x7F) as u8 == c as u8) by (bit_vector);
        assert(c <= 0x7F ==> c as u8 as u32 == c) by (bit_vector);
        assert(0xC0u8 | ((c >> 6) & 0x1F) as u8 >= 128) by (bit_vector);
        assert(0xE0u8 | ((c >> 12) & 0x0F) as u8 >= 128) by (bit_vector);
        assert(0xF0u8 | ((c >> 18) & 0x7) as u8 >= 128) by (bit_vector);
        assert(0x80u8 | (c & 0x3F) as u8 >= 128) by (bit_vector);
        assert(0x80u8 | ((c >> 6) & 0x3F) as u8 >= 128) by (bit_vector);
        assert(0x80u8 | ((c >> 12) & 0x3F) as u8 >= 128) by (bit_vector);
        assert(t[0] as u32 != mark as u32);
        let head = vstd::utf8::encode_scalar(c);
        let rest = vstd::utf8::encode_utf8(after);
        assert forall|i: int| 0 <= i < head.len() + rest.len() implies #[trigger] (head + rest)[i]
            != mark by {
            if i >= head.len() {
                assert((head + rest)[i] == rest[i - head.len()]);
            }
        }
    }
}

/// Texts that do not hold a mark can be read back from their bytes in front of it.
pub proof fn lemma_split_at_mark(s: Seq<char>, a: Seq<u8>, t: Seq<char>, b: Seq<u8>, mark: u8)
    requires
        mark < 128,
        forall|i: int| 0 <= i < s.len() ==> #[trigger] s[i] as u32 != mark as u32,
        forall|i: int| 0 <= i < t.len() ==> #[trigger] t[i] as u32 != mark as u32,
        vstd::utf8::encode_utf8(s) + seq![mark] + a == vstd::utf8::encode_utf8(t) + seq![mark] + b,
    ensures
        s == t,
        a == b,
{
    lemma_mark_is_a_character(s, mark);
    lemma_mark_is_a_character(t, mark);
    let x = vstd::utf8::encode_utf8(s);
    let y = vstd::utf8::encode_utf8(t);
    let l = x + seq![mark] + a;
    let r = y + seq![mark] + b;
    assert(l[x.len() as int] == mark && r[y.len() as int] == mark);
    if x.len() < y.len() {
        assert(r[x.len() as int] == y[x.len() as int]);
    }
    if y.len() < x.len() {
        assert(l[y.len() as int] == x[y.len() as int]);
    }
    assert(x =~= l.take(x.len() as int));
    assert(y =~= r.take(y.len() as int));
    assert(a =~= l.skip(x.len() as int + 1));
    assert(b =~= r.skip(y.len() as int + 1));
    vstd::utf8::encode_utf8_decode_utf8(s);
    vstd::utf8::encode_utf8_decode_utf8(t);
}

/// Whether a text holds no zero character, so that it can be told from what
/// follows it where parts are separated by zero bytes.
pub open spec fn without_zero(t: Seq<char>) -> bool {
    forall|i: int| 0 <= i < t.len() ==> #[trigger] t[i] as u32 != 0
}

/// Callers are told apart before they are hashed: the same bytes stand for the
/// same subject, the same provider and the same issuer. Left out are names that
/// hold a zero character.
pub proof fn law_callers_are_told_apart(
    subject_a: Option<Seq<char>>,
    provider_a: Option<Seq<char>>,
    issuer_a: Option<Seq<char>>,
    subject_b: Option<Seq<char>>,
    provider_b: Option<Seq<char>>,
    issuer_b: Option<Seq<char>>,
)
    requires
        subject_a matches Some(t) ==> without_zero(t),
        provider_a matches Some(t) ==> without_zero(t),
        subject_b matches Some(t) ==> without_zero(t),
        provider_b matches Some(t) ==> without_zero(t),
        identity_bytes(subject_a, provider_a, issuer_a) == identity_bytes(
            subject_b,
            provider_b,
            issuer_b,
        ),
    ensures
        subject_a is Some && subject_b is Some ==> subject_a == subject_b,
        provider_a is Some && provider_b is Some ==> provider_a == provider_b,
        issuer_a is Some && issuer_b is Some ==> issuer_a == issuer_b,
        subject_a matches Some(t) ==> subject_b is None ==> t.len() == 0,
        provider_a matches Some(t) ==> provider_b is None ==> t.len() == 0,
        issuer_a matches Some(t) ==> issuer_b is None ==> t.len() == 0,
{
    let ra = vstd::utf8::encode_utf8(or_empty(provider_a)) + seq![0u8] + vstd::utf8::encode_utf8(
        or_empty(issuer_a),
    );
    let rb = vstd::utf8::encode_utf8(or_empty(provider_b)) + seq![0u8] + vstd::utf8::encode_utf8(
        or_empty(issuer_b),
    );
    assert(identity_bytes(subject_a, provider_a, issuer_a) =~= vstd::utf8::encode_utf8(
        or_empty(subject_a),
    ) + seq![0u8] + ra);
    assert(identity_bytes(subject_b, provider_b, issuer_b) =~= vstd::utf8::encode_utf8(
        or_empty(subject_b),
    ) + seq![0u8] + rb);
    lemma_split_at_mark(or_empty(subject_a), ra, or_empty(subject_b), rb, 0);
    lemma_split_at_mark(
        or_empty(provider_a),
        vstd::utf8::encode_utf8(or_empty(issuer_a)),
        or_empty(provider_b),
        vstd::utf8::encode_utf8(or_empty(issuer_b)),
        0,
    );
    vstd::utf8::encode_utf8_decode_utf8(or_empty(issuer_a));
    vstd::utf8::encode_utf8_decode_utf8(or_empty(issuer_b));
}

/// Requests are told apart before they are hashed: the same bytes stand for the
/// same method, the same tool and arguments that are written alike. Left out are
/// names that hold a zero character, and arguments that cannot be written.
pub proof fn law_requests_are_told_apart(
    method_a: Seq<char>,
    tool_a: Seq<char>,
    arguments_a: Option<json::Tree>,
    method_b: Seq<char>,
    tool_b: Seq<char>,
    arguments_b: Option<json::Tree>,
)
    requires
        without_zero(method_a),
        without_zero(tool_a),
        without_zero(method_b),
        without_zero(tool_b),
        body_bytes(method_a, tool_a, arguments_a) == body_bytes(method_b, tool_b, arguments_b),
    ensures
        method_a == method_b,
        tool_a == tool_b,
        arguments_a matches Some(x) ==> arguments_b matches Some(y) ==> outside::json_bytes(x) is Ok
            ==> outside::json_bytes(y) is Ok ==> outside::json_bytes(x) == outside::json_bytes(y),
        arguments_a matches Some(x) ==> arguments_b is None ==> outside::json_bytes(x) is Ok
            ==> outside::json_bytes(x)->Ok_0.len() == 0,
{
    let ta = match arguments_a {
        Some(t) => match outside::json_bytes(t) {
            Ok(b) => b,
            Err(_) => seq![],
        },
        None => seq![],
    };
    let tb = match arguments_b {
        Some(t) => match outside::json_bytes(t) {
            Ok(b) => b,
            Err(_) => seq![],
        },
        None => seq![],
    };
    let ra = vstd::utf8::encode_utf8(tool_a) + seq![0u8] + ta;
    let rb = vstd::utf8::encode_utf8(tool_b) + seq![0u8] + tb;
    assert(body_bytes(method_a, tool_a, arguments_a) =~= vstd::utf8::encode_utf8(method_a)
        + seq![0u8] + ra);
    assert(body_bytes(method_b, tool_b, arguments_b) =~= vstd::utf8::encode_utf8(method_b)
        + seq![0u8] + rb);
    lemma_split_at_mark(method_a, ra, method_b, rb, 0);
    lemma_split_at_mark(tool_a, ta, tool_b, tb, 0);
}

/// A key is accepted exactly where it is a text that, trimmed, holds something,
/// takes at most 255 bytes and is ASCII; and what is accepted is that trimmed
/// text. No key, and `null`, count as no key, and never as a fault.
pub proof fn law_accepted_keys_are_short_ascii(value: Option<json::Tree>)
    ensures
        key_verdict(value) is Absent <==> value is None || value == Some(json::Tree::Null),
        key_verdict(value) is Valid <==> (value matches Some(json::Tree::Str(raw)) && 0
            < vstd::utf8::encode_utf8(text::trimmed(raw)).len() <= 255
            && vstd::utf8::is_ascii_chars(text::trimmed(raw))),
        key_verdict(value) matches KeyVerdict::Valid(k) ==> (value matches Some(
            json::Tree::Str(raw),
        ) && k == text::trimmed(raw)),
        key_verdict(value) == KeyVerdict::Invalid(KeyMalformedReason::NotAString) <==> !(value
            matches Some(json::Tree::Str(_))) && value is Some && value != Some(json::Tree::Null),
        key_verdict(value) == KeyVerdict::Invalid(KeyMalformedReason::Empty) <==> (value
            matches Some(json::Tree::Str(raw)) && text::trimmed(raw).len() == 0),
        key_verdict(value) == KeyVerdict::Invalid(KeyMalformedReason::TooLong) <==> (value
            matches Some(json::Tree::Str(raw)) && vstd::utf8::encode_utf8(
            text::trimmed(raw),
        ).len() > 255),
{
    if let Some(json::Tree::Str(raw)) = value {
        let k = text::trimmed(raw);
        if k.len() > 0 {
            let c = k[0] as u32;
            assert(vstd::utf8::encode_utf8(k) == vstd::utf8::encode_scalar(c)
                + vstd::utf8::encode_utf8(k.drop_first()));
            assert(vstd::utf8::encode_scalar(c).len() > 0);
        } else {
            assert(vstd::utf8::encode_utf8(k).len() == 0);
        }
    }
}

/// A replay says that it is one and when the first answer came, and keeps every
/// other field that the first answer's `_meta` had.
pub proof fn law_replays_are_marked(envelope: Map<Seq<char>, json::Tree>, completed_at: Seq<char>)
    requires
        envelope.contains_key("_meta"@) ==> envelope["_meta"@] is Object,
    ensures
        ({
            let meta = json::tree_get(
                marked(json::Tree::Object(envelope), completed_at),
                "_meta"@,
            );
            &&& meta is Some
            &&& json::tree_get(meta->0, "dev.mcpg/idempotency-replayed"@) == Some(
                json::Tree::Bool(true),
            )
            &&& json::tree_get(meta->0, "dev.mcpg/idempotency-original-completed-at"@) == Some(
                json::Tree::Str(completed_at),
            )
            &&& forall|field: Seq<char>|
                field != "dev.mcpg/idempotency-replayed"@ && field
                    != "dev.mcpg/idempotency-original-completed-at"@ && envelope.contains_key(
                    "_meta"@,
                ) ==> #[trigger] json::tree_get(meta->0, field) == json::tree_get(
                    envelope["_meta"@],
                    field,
                )
        }),
{
    reveal_strlit("dev.mcpg/idempotency-replayed");
    reveal_strlit("dev.mcpg/idempotency-original-completed-at");
    assert("dev.mcpg/idempotency-replayed"@.len()
        != "dev.mcpg/idempotency-original-completed-at"@.len());
}

/// What is wrong with a key is told apart from what else could be.
pub proof fn law_faults_of_keys_are_told_apart(
    a: KeyMalformedReason,
    b: KeyMalformedReason,
    of_a: &str,
    of_b: &str,
)
    requires
        call_ensures(KeyMalformedReason::as_message, (a,), of_a),
        call_ensures(KeyMalformedReason::as_message, (b,), of_b),
    ensures
        of_a@ == of_b@ <==> a == b,
{
    reveal_strlit("`_meta[\"dev.mcpg/idempotency-key\"]` must be a string");
    reveal_strlit("idempotency key must not be empty after trim");
    reveal_strlit("idempotency key exceeds 255 bytes");
    reveal_strlit(
        "idempotency key must be ASCII (RFC `draft-ietf-httpapi-idempotency-key-header-07`)",
    );
    assert("`_meta[\"dev.mcpg/idempotency-key\"]` must be a string"@[0] == '`');
    assert("idempotency key must not be empty after trim"@.len() == 44);
    assert("idempotency key exceeds 255 bytes"@.len() == 33);
    assert("idempotency key must be ASCII (RFC `draft-ietf-httpapi-idempotency-key-header-07`)"@.len()
        > 44);
    assert("idempotency key must not be empty after trim"@[0] == 'i');
    assert("idempotency key exceeds 255 bytes"@[0] == 'i');
    assert("idempotency key must be ASCII (RFC `draft-ietf-httpapi-idempotency-key-header-07`)"@[0]
        == 'i');
}

/// What the gateway says of the extension is what it is set to: how long records are
/// kept, for whom, for which methods and what happens to a key used twice, and always
/// that replays are marked.
pub proof fn law_extension_is_told_as_it_is_set(
    default_ttl_seconds: u64,
    max_ttl_seconds: u64,
    scope_label: &str,
    supported_methods: &[&str],
    conflict_policy_label: &str,
    r: Json,
)
    requires
        call_ensures(
            capability_advertisement,
            (
                default_ttl_seconds,
                max_ttl_seconds,
                scope_label,
                supported_methods,
                conflict_policy_label,
            ),
            r,
        ),
    ensures
        json::tree_get(r.tree(), "scope"@) == Some(json::Tree::Str(scope_label@)),
        json::tree_get(r.tree(), "default_ttl_seconds"@) == Some(
            json::Tree::Number(text::decimal_text(default_ttl_seconds as nat)),
        ),
        json::tree_get(r.tree(), "max_ttl_seconds"@) == Some(
            json::Tree::Number(text::decimal_text(max_ttl_seconds as nat)),
        ),
        json::tree_get(r.tree(), "supports_replay_marker"@) == Some(json::Tree::Bool(true)),
        json::tree_get(r.tree(), "conflict_policy"@) == Some(
            json::Tree::Str(conflict_policy_label@),
        ),
        json::tree_get(r.tree(), "supported_methods"@) matches Some(json::Tree::Array(m)) && m.len()
            == supported_methods@.len() && forall|i: int|
            0 <= i < m.len() ==> #[trigger] m[i] == json::Tree::Str(supported_methods@[i]@),
{
    reveal_with_fuel(json::map_of, 7);
    reveal_strlit("scope");
    reveal_strlit("default_ttl_seconds");
    reveal_strlit("max_ttl_seconds");
    reveal_strlit("supported_methods");
    reveal_strlit("supports_replay_marker");
    reveal_strlit("conflict_policy");
    assert("scope"@.len() == 5);
    assert("default_ttl_seconds"@.len() == 19);
    assert("max_ttl_seconds"@.len() == 15 && "max_ttl_seconds"@[0] == 'm');
    assert("supported_methods"@.len() == 17);
    assert("supports_replay_marker"@.len() == 22);
    assert("conflict_policy"@.len() == 15 && "conflict_policy"@[0] == 'c');
}

/// The key that a call chose is read out of its `_meta` under its full name, and a call
/// without one has none.
pub proof fn law_keys_are_read_under_their_name(meta: Json, r: KeyValidation)
    requires
        call_ensures(extract_request_key, (Some(&meta),), r),
    ensures
        json::tree_get(meta.tree(), "dev.mcpg/idempotency-key"@) is None ==> r is Absent,
        r matches KeyValidation::Valid(k) ==> (json::tree_get(
            meta.tree(),
            "dev.mcpg/idempotency-key"@,
        ) matches Some(json::Tree::Str(raw)) && k@ == text::trimmed(raw) && k@.len() > 0),
{
}

} // verus!
