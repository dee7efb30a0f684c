//! Calls into the crates that hash, encode and parse for the runtime. Each
//! contract here is taken on trust from the crate named above it.
use vstd::prelude::*;
use vstd::string::*;

use crate::json;
use crate::json::{Field, Json};
use crate::text;

verus! {

#[verifier::external_type_specification]
#[verifier::external_body]
pub struct ExValue(serde_json::Value);

/// The 32-byte BLAKE3 digest of a byte string.
pub uninterp spec fn blake3_digest(data: Seq<u8>) -> Seq<u8>;

/// `blake3::hash`: the digest has 32 bytes and depends on the input alone.
#[verifier::external_body]
pub(crate) fn blake3_hash(data: &[u8]) -> (r: [u8; 32])
    ensures
        r@ == blake3_digest(data@),
{
    *blake3::hash(data).as_bytes()
}

/// The lower-case hexadecimal digit of a value below sixteen.
pub open spec fn hex_char(d: int) -> char {
    if d < 10 {
        text::digit_char(d)
    } else {
        (87 + d) as char
    }
}

/// Two lower-case hexadecimal digits for each byte, the high half first.
pub open spec fn hex_text(data: Seq<u8>) -> Seq<char> {
    Seq::new(
        2 * data.len(),
        |i: int|
            hex_char(
                if i % 2 == 0 {
                    data[i / 2] as int / 16
                } else {
                    data[i / 2] as int % 16
                },
            ),
    )
}

/// `hex::encode`: two lower-case digits for each byte, in order.
#[verifier::external_body]
pub(crate) fn hex_encode(data: &[u8]) -> (r: String)
    ensures
        r@ == hex_text(data@),
{
    hex::encode(data)
}

/// The base64 digit of a value below 64, in the standard alphabet.
pub open spec fn base64_char(d: int) -> char {
    if d < 26 {
        (65 + d) as char
    } else if d < 52 {
        (71 + d) as char
    } else if d < 62 {
        text::digit_char(d - 52)
    } else if d == 62 {
        '+'
    } else {
        '/'
    }
}

/// A byte of a byte string, or zero past its end.
pub open spec fn byte_or_zero(data: Seq<u8>, i: int) -> int {
    if i < data.len() {
        data[i] as int
    } else {
        0
    }
}

/// The standard base64 text of a byte string, with padding: four digits for each
/// three bytes, and `=` for a digit that stands for no byte.
pub open spec fn base64_text(data: Seq<u8>) -> Seq<char> {
    Seq::new(
        4 * ((data.len() + 2) / 3),
        |i: int|
            {
                let first = i / 4 * 3;
                let bits = byte_or_zero(data, first) * 65536 + byte_or_zero(data, first + 1) * 256
                    + byte_or_zero(data, first + 2);
                if i % 4 == 0 {
                    base64_char(bits / 262144)
                } else if i % 4 == 1 {
                    base64_char(bits / 4096 % 64)
                } else if first + i % 4 - 1 >= data.len() {
                    '='
                } else if i % 4 == 2 {
                    base64_char(bits / 64 % 64)
                } else {
                    base64_char(bits % 64)
                }
            },
    )
}

/// `Engine::encode` of base64's `STANDARD` engine: the standard alphabet, with
/// padding.
#[verifier::external_body]
pub(crate) fn base64_encode(data: &[u8]) -> (r: String)
    ensures
        r@ == base64_text(data@),
{
    base64::Engine::encode(&base64::engine::general_purpose::STANDARD, data)
}

/// The base64 digit of a value below 64, in the alphabet for addresses.
pub open spec fn url64_char(d: int) -> char {
    if d == 62 {
        '-'
    } else if d == 63 {
        '_'
    } else {
        base64_char(d)
    }
}

/// The base64 text of a byte string in the alphabet for addresses, without padding.
pub open spec fn url64_text(data: Seq<u8>) -> Seq<char> {
    Seq::new(
        (4 * data.len() + 2) / 3,
        |i: int|
            {
                let first = i / 4 * 3;
                let bits = byte_or_zero(data, first) * 65536 + byte_or_zero(data, first + 1) * 256
                    + byte_or_zero(data, first + 2);
                if i % 4 == 0 {
                    url64_char(bits / 262144)
                } else if i % 4 == 1 {
                    url64_char(bits / 4096 % 64)
                } else if i % 4 == 2 {
                    url64_char(bits / 64 % 64)
                } else {
                    url64_char(bits % 64)
                }
            },
    )
}

/// The byte string that a base64 text in the alphabet for addresses stands for.
pub uninterp spec fn url64_bytes(s: Seq<char>) -> Option<Seq<u8>>;

/// `Engine::decode` of base64's `URL_SAFE_NO_PAD` engine: it accepts the texts that
/// `url64_text` makes of byte strings and no others, and gives the byte string back.
#[verifier::external_body]
pub(crate) fn url64_decode(s: &str) -> (r: Option<Vec<u8>>)
    ensures
        match r {
            Some(d) => url64_bytes(s@) == Some(d@) && url64_text(d@) == s@,
            None => url64_bytes(s@) is None && forall|d: Seq<u8>| #[trigger] url64_text(d) != s@,
        },
{
    base64::Engine::decode(&base64::engine::general_purpose::URL_SAFE_NO_PAD, s).ok()
}

/// The text that a byte string encodes, where it is UTF-8.
pub open spec fn utf8_text(data: Seq<u8>) -> Option<Seq<char>> {
    if vstd::utf8::valid_utf8(data) {
        Some(vstd::utf8::decode_utf8(data))
    } else {
        None
    }
}

/// `std::str::from_utf8`: it succeeds where the bytes are UTF-8, with the text
/// that they encode.
#[verifier::external_body]
pub(crate) fn utf8_decode(data: &[u8]) -> (r: Option<String>)
    ensures
        r.deep_view() == utf8_text(data@),
{
    std::str::from_utf8(data).ok().map(|s| s.to_owned())
}

/// The value of `serde_json` that stands for a value of the library, variant by
/// variant.
#[verifier::external_body]
fn to_serde(v: &Json) -> (r: serde_json::Value) {
    match v {
        Json::Null => serde_json::Value::Null,
        Json::Bool(b) => serde_json::Value::Bool(*b),
        Json::Number(t) => serde_json::from_str(t).unwrap_or(serde_json::Value::Null),
        Json::Str(t) => serde_json::Value::String(t.clone()),
        Json::Array(a) => serde_json::Value::Array(a.iter().map(to_serde).collect()),
        Json::Object(fs) => serde_json::Value::Object(
            fs.iter().map(|f| (f.name.clone(), to_serde(&f.value))).collect(),
        ),
    }
}

/// The value of the library that stands for a value of `serde_json`, variant by
/// variant.
#[verifier::external_body]
fn from_serde(v: serde_json::Value) -> (r: Json) {
    match v {
        serde_json::Value::Null => Json::Null,
        serde_json::Value::Bool(b) => Json::Bool(b),
        serde_json::Value::Number(n) => Json::Number(n.to_string()),
        serde_json::Value::String(t) => Json::Str(t),
        serde_json::Value::Array(a) => Json::Array(a.into_iter().map(from_serde).collect()),
        serde_json::Value::Object(m) => Json::Object(
            m.into_iter().map(|(name, v)| Field { name, value: from_serde(v) }).collect(),
        ),
    }
}

/// What `serde_json::to_vec` makes of a value: its compact JSON bytes, or the
/// error's text.
pub uninterp spec fn json_bytes(t: json::Tree) -> Result<Seq<u8>, Seq<char>>;

/// `serde_json::to_vec`: objects are kept sorted by name, so the bytes depend
/// on what the value denotes alone.
#[verifier::external_body]
pub(crate) fn json_to_vec(v: &Json) -> (r: Result<Vec<u8>, String>)
    ensures
        match r {
            Ok(b) => json_bytes(v.tree()) == Ok::<Seq<u8>, Seq<char>>(b@),
            Err(e) => json_bytes(v.tree()) == Err::<Seq<u8>, Seq<char>>(e@),
        },
{
    serde_json::to_vec(&to_serde(v)).map_err(|e| e.to_string())
}

/// The compact JSON text of a value.
pub uninterp spec fn json_text(t: json::Tree) -> Seq<char>;

/// `serde_json::Value::to_string`: objects are kept sorted by name, so the text
/// depends on what the value denotes alone.
#[verifier::external_body]
pub(crate) fn json_to_string(v: &Json) -> (r: String)
    ensures
        r@ == json_text(v.tree()),
{
    to_serde(v).to_string()
}

/// What `serde_json::from_str` makes of a text: a value, or the error's text.
pub uninterp spec fn json_parsed(s: Seq<char>) -> Result<json::Tree, Seq<char>>;

/// `serde_json::from_str`: whether it succeeds, with which value or with which
/// error text, depends on the input alone.
#[verifier::external_body]
pub(crate) fn json_from_str(s: &str) -> (r: Result<Json, String>)
    ensures
        match r {
            Ok(v) => json_parsed(s@) == Ok::<json::Tree, Seq<char>>(v.tree()),
            Err(e) => json_parsed(s@) == Err::<json::Tree, Seq<char>>(e@),
        },
{
    match serde_json::from_str::<serde_json::Value>(s) {
        Ok(v) => Ok(from_serde(v)),
        Err(e) => Err(e.to_string()),
    }
}

/// The RFC 3339 text of a UTC time, given as seconds since the epoch and
/// nanoseconds.
pub uninterp spec fn rfc3339_text(secs: int, nanos: int) -> Seq<char>;

/// `chrono::DateTime::<Utc>::to_rfc3339` of `DateTime::from_timestamp`: the
/// text depends on the two numbers alone. The bounds are those between which
/// `from_timestamp` returns a value.
#[verifier::external_body]
pub(crate) fn rfc3339(secs: i64, nanos: u32) -> (r: String)
    requires
        -8_334_601_228_800 <= secs <= 8_210_266_876_799,
        nanos < 1_000_000_000,
    ensures
        r@ == rfc3339_text(secs as int, nanos as int),
{
    chrono::DateTime::<chrono::Utc>::from_timestamp(secs, nanos)
        .map(|t| t.to_rfc3339())
        .unwrap_or_default()
}

/// `chrono::Utc::now`, as seconds since the epoch and nanoseconds: a time from
/// the epoch on that `DateTime` can hold, which never falls inside a leap second.
/// Which time it is rests on the system's clock, so no more is claimed. The call
/// panics where that clock stands before the epoch.
#[verifier::external_body]
pub(crate) fn utc_now() -> (r: (i64, u32))
    ensures
        0 <= r.0 <= 8_210_266_876_799,
        r.1 < 1_000_000_000,
{
    let t = chrono::Utc::now();
    (t.timestamp(), t.timestamp_subsec_nanos())
}

/// A hexadecimal digit of a number, counted from the lowest.
pub open spec fn hex_digit_of(n: nat, place: nat) -> int {
    (n as int / vstd::arithmetic::power::pow(16, place)) % 16
}

/// Whether a number is that of a random UUID: its version is 4 and its variant
/// that of RFC 4122.
pub open spec fn random_uuid_number(n: nat) -> bool {
    hex_digit_of(n, 19) == 4 && 8 <= hex_digit_of(n, 15) < 12
}

/// `uuid::Uuid::new_v4`, as a number: it has the version and the variant of a
/// random UUID, and is otherwise open.
#[verifier::external_body]
pub(crate) fn random_uuid() -> (r: u128)
    ensures
        random_uuid_number(r as nat),
{
    uuid::Uuid::new_v4().as_u128()
}

/// The hyphenated text of a UUID: the 32 lower-case hexadecimal digits of its
/// number, the highest first, in groups of 8, 4, 4, 4 and 12.
pub open spec fn uuid_view(n: nat) -> Seq<char> {
    Seq::new(
        36,
        |i: int|
            if i == 8 || i == 13 || i == 18 || i == 23 {
                '-'
            } else {
                let hyphens: int = if i < 8 {
                    0
                } else if i < 13 {
                    1
                } else if i < 18 {
                    2
                } else if i < 23 {
                    3
                } else {
                    4
                };
                hex_char(hex_digit_of(n, (31 - (i - hyphens)) as nat))
            },
    )
}

/// `uuid::Uuid::to_string` of `Uuid::from_u128`: the hyphenated text.
#[verifier::external_body]
pub(crate) fn uuid_text(n: u128) -> (r: String)
    ensures
        r@ == uuid_view(n as nat),
{
    uuid::Uuid::from_u128(n).to_string()
}

#[verifier::external_type_specification]
#[verifier::external_body]
pub struct ExProgram(cel::Program);

/// Whether `cel::Program::compile` accepts a source text.
pub uninterp spec fn cel_compiles(source: Seq<char>) -> bool;

/// The source text that a program was compiled from.
pub uninterp spec fn cel_source(program: cel::Program) -> Seq<char>;

/// `cel::Program::compile`: whether it accepts a source depends on the source
/// alone, and the program is that of the source. The error carries the parser's
/// text, of which nothing is claimed.
#[verifier::external_body]
pub(crate) fn cel_compile(source: &str) -> (r: Result<cel::Program, String>)
    ensures
        match r {
            Ok(p) => cel_compiles(source@) && cel_source(p) == source@,
            Err(_) => !cel_compiles(source@),
        },
{
    cel::Program::compile(source).map_err(|e| e.to_string())
}

/// What running a CEL program came to.
#[derive(Debug)]
pub enum CelOutcome {
    /// A truth value.
    Bool(bool),
    /// Another value, as its debug text.
    Other(String),
    /// An error, as its text.
    Failed(String),
}

/// What running a CEL program came to, over plain values: a truth value or the
/// debug text of another value, or else the error's text.
pub open spec fn outcome_view(o: CelOutcome) -> Result<Result<bool, Seq<char>>, Seq<char>> {
    match o {
        CelOutcome::Bool(b) => Ok(Ok(b)),
        CelOutcome::Other(t) => Ok(Err(t@)),
        CelOutcome::Failed(e) => Err(e@),
    }
}

/// Whether `cel::Program::execute` of the program of a source, with the given
/// variables, can come out as given.
pub uninterp spec fn cel_may_give(
    source: Seq<char>,
    variables: json::Tree,
    outcome: Result<Result<bool, Seq<char>>, Seq<char>>,
) -> bool;

/// `cel::Program::execute` with the fields of an object as its variables: the
/// outcome is one that the source and the variables allow. That there is only one
/// is not claimed: a program may walk a map, whose order differs from run to run.
#[verifier::external_body]
pub(crate) fn cel_execute(program: &cel::Program, variables: &Json) -> (r: CelOutcome)
    ensures
        cel_may_give(cel_source(*program), variables.tree(), outcome_view(r)),
{
    let mut context = cel::Context::default();
    if let Json::Object(fields) = variables {
        for f in fields {
            let value = cel::to_value(to_serde(&f.value)).unwrap_or(cel::Value::Null);
            context.add_variable_from_value(f.name.clone(), value);
        }
    }
    match program.execute(&context) {
        Ok(cel::Value::Bool(b)) => CelOutcome::Bool(b),
        Ok(other) => CelOutcome::Other(format!("{other:?}")),
        Err(e) => CelOutcome::Failed(e.to_string()),
    }
}

#[verifier::external_type_specification]
#[verifier::external_body]
#[verifier::reject_recursive_types(K)]
#[verifier::reject_recursive_types(V)]
#[verifier::reject_recursive_types(S)]
pub struct ExDashMap<K, V, S>(dashmap::DashMap<K, V, S>);

/// What a concurrent map from texts to pairs of numbers holds.
pub uninterp spec fn dash_entries(m: dashmap::DashMap<String, (u64, u64)>) -> Map<
    Seq<char>,
    (u64, u64),
>;

/// `dashmap::DashMap::new`: the map holds nothing.
#[verifier::external_body]
pub(crate) fn dash_new() -> (r: dashmap::DashMap<String, (u64, u64)>)
    ensures
        dash_entries(r).dom() == Set::<Seq<char>>::empty(),
{
    dashmap::DashMap::new()
}

/// `dashmap::DashMap::get`: the value of the key, where the map has it.
#[verifier::external_body]
pub(crate) fn dash_get(m: &dashmap::DashMap<String, (u64, u64)>, key: &str) -> (r: Option<
    (u64, u64),
>)
    ensures
        r == (if dash_entries(*m).contains_key(key@) {
            Some(dash_entries(*m)[key@])
        } else {
            None
        }),
{
    m.get(key).map(|v| *v)
}

/// `dashmap::DashMap::insert`: the key has the value, in place of one that it
/// had, and every other key is as before.
#[verifier::external_body]
pub(crate) fn dash_insert(
    m: &mut dashmap::DashMap<String, (u64, u64)>,
    key: &str,
    value: (u64, u64),
)
    ensures
        dash_entries(*final(m)) == dash_entries(*old(m)).insert(key@, value),
{
    m.insert(key.to_owned(), value);
}

/// What `serde_json::from_slice` makes of a byte string: a value, or the error's
/// text.
pub uninterp spec fn json_parsed_bytes(data: Seq<u8>) -> Result<json::Tree, Seq<char>>;

/// `serde_json::from_slice`: whether it succeeds, with which value or with which
/// error text, depends on the input alone.
#[verifier::external_body]
pub(crate) fn json_from_slice(data: &[u8]) -> (r: Result<Json, String>)
    ensures
        match r {
            Ok(v) => json_parsed_bytes(data@) == Ok::<json::Tree, Seq<char>>(v.tree()),
            Err(e) => json_parsed_bytes(data@) == Err::<json::Tree, Seq<char>>(e@),
        },
{
    match serde_json::from_slice::<serde_json::Value>(data) {
        Ok(v) => Ok(from_serde(v)),
        Err(e) => Err(e.to_string()),
    }
}

/// The debug text of an optional text.
pub uninterp spec fn opt_debug_text(o: Option<Seq<char>>) -> Seq<char>;

/// `std::fmt::Debug` of `Option<&str>`, by `format!`: the text depends on the
/// value alone.
#[verifier::external_body]
pub(crate) fn opt_debug(o: Option<&str>) -> (r: String)
    ensures
        r@ == opt_debug_text(o.deep_view()),
{
    format!("{o:?}")
}

#[verifier::external_type_specification]
#[verifier::external_body]
#[verifier::reject_recursive_types(T)]
pub struct ExHeaderMap<T>(http::HeaderMap<T>);

#[verifier::external_type_specification]
#[verifier::external_body]
pub struct ExHeaderValue(http::HeaderValue);

/// A character of a header's name, in lower case, where it is allowed there.
pub open spec fn header_char(c: char) -> Option<char> {
    if 'A' <= c <= 'Z' {
        Some(((c as int) + 32) as char)
    } else if 'a' <= c <= 'z' || '0' <= c <= '9' || c == '!' || c == '#' || c == '$' || c == '%'
        || c == '&' || c == '\'' || c == '*' || c == '+' || c == '-' || c == '.' || c == '^' || c
        == '_' || c == '`' || c == '|' || c == '~' {
        Some(c)
    } else {
        None
    }
}

/// The name of a header in lower case, where it is a name.
pub open spec fn header_key(raw: Seq<char>) -> Option<Seq<char>> {
    if 0 < raw.len() <= 65535 && (forall|i: int|
        0 <= i < raw.len() ==> header_char(#[trigger] raw[i]) is Some) {
        Some(Seq::new(raw.len(), |i: int| header_char(raw[i])->0))
    } else {
        None
    }
}

/// Whether a text can be the value of a header.
pub open spec fn header_value_valid(raw: Seq<char>) -> bool {
    forall|i: int|
        0 <= i < raw.len() ==> (#[trigger] raw[i] >= ' ' && raw[i] != '\x7f') || raw[i] == '\t'
}

/// The value of a header as text: values with other than ASCII characters have
/// none.
pub open spec fn header_value_text(raw: Seq<char>) -> Option<Seq<char>> {
    if forall|i: int| 0 <= i < raw.len() ==> '\x7f' > #[trigger] raw[i] {
        Some(raw)
    } else {
        None
    }
}

/// What a map of headers holds: for each name, in lower case, its first value as
/// text, where it is text.
pub uninterp spec fn header_values(m: http::HeaderMap<http::HeaderValue>) -> Map<
    Seq<char>,
    Option<Seq<char>>,
>;

/// `http::HeaderMap::new`: the map holds nothing.
#[verifier::external_body]
pub(crate) fn header_map_new() -> (r: http::HeaderMap<http::HeaderValue>)
    ensures
        header_values(r).dom() == Set::<Seq<char>>::empty(),
{
    http::HeaderMap::new()
}

/// `http::HeaderMap::insert` of what `HeaderName::from_bytes` and
/// `HeaderValue::from_str` make of two texts: where both accept their text, the
/// value takes the place of all values of the name; otherwise the map is as
/// before. A map with no more names than the bound always has room for one more.
#[verifier::external_body]
pub(crate) fn header_insert(
    m: &mut http::HeaderMap<http::HeaderValue>,
    name: &str,
    value: &str,
)
    requires
        header_values(*old(m)).dom().finite(),
        header_values(*old(m)).dom().len() <= 6553,
    ensures
        header_values(*final(m)) == (if header_key(name@) is Some && header_value_valid(value@) {
            header_values(*old(m)).insert(header_key(name@)->0, header_value_text(value@))
        } else {
            header_values(*old(m))
        }),
{
    if let (Ok(n), Ok(v)) = (
        http::header::HeaderName::from_bytes(name.as_bytes()),
        http::header::HeaderValue::from_str(value),
    ) {
        m.insert(n, v);
    }
}

/// `http::HeaderMap::keys_len`: how many names the map holds.
#[verifier::external_body]
pub(crate) fn header_count(m: &http::HeaderMap<http::HeaderValue>) -> (r: usize)
    ensures
        r == header_values(*m).dom().len(),
{
    m.keys_len()
}

/// `http::HeaderMap::get` and `HeaderValue::to_str`: the first value of the
/// name, whatever its case, where it is text.
#[verifier::external_body]
pub(crate) fn header_get(m: &http::HeaderMap<http::HeaderValue>, name: &str) -> (r: Option<String>)
    ensures
        r.deep_view() == (if header_key(name@) is Some && header_values(*m).contains_key(
            header_key(name@)->0,
        ) {
            header_values(*m)[header_key(name@)->0]
        } else {
            None
        }),
{
    m.get(name).and_then(|v| v.to_str().ok()).map(|s| s.to_owned())
}

#[verifier::external_type_specification]
#[verifier::external_body]
pub struct ExJwkSet(jsonwebtoken::jwk::JwkSet);

#[verifier::external_type_specification]
#[verifier::external_body]
pub struct ExDecodingKey(jsonwebtoken::DecodingKey);

/// What a key stands for: its bytes, or the modulus and the exponent of an RSA
/// key that is given by its numbers.
pub uninterp spec fn key_material(key: jsonwebtoken::DecodingKey) -> (Seq<u8>, Option<Seq<u8>>);

/// `jsonwebtoken::DecodingKey::kind`: the bytes of a key, or its modulus and its
/// exponent.
#[verifier::external_body]
pub(crate) fn key_parts(key: &jsonwebtoken::DecodingKey) -> (r: (Vec<u8>, Option<Vec<u8>>))
    ensures
        r.0@ == key_material(*key).0,
        r.1.deep_view() == key_material(*key).1,
{
    match key.kind() {
        jsonwebtoken::DecodingKeyKind::SecretOrDer(bytes) => (bytes.clone(), None),
        jsonwebtoken::DecodingKeyKind::RsaModulusExponent { n, e } => (n.clone(), Some(e.clone())),
    }
}

/// What a set of keys holds: for each key its id, the name of its algorithm, and
/// what the key stands for that `DecodingKey::from_jwk` makes of it, if it accepts
/// it.
pub uninterp spec fn jwk_entries(set: jsonwebtoken::jwk::JwkSet) -> Seq<
    (Option<Seq<char>>, Option<Seq<char>>, Option<(Seq<u8>, Option<Seq<u8>>)>),
>;

/// The keys that `serde_json::from_str` finds in a text that describes a set of
/// keys.
pub uninterp spec fn jwk_set_read(text: Seq<char>) -> Option<
    Seq<(Option<Seq<char>>, Option<Seq<char>>, Option<(Seq<u8>, Option<Seq<u8>>)>)>,
>;

/// `serde_json::from_str::<JwkSet>`: whether it succeeds, and with which keys,
/// depends on the text alone.
#[verifier::external_body]
pub(crate) fn jwk_set_parse(text: &str) -> (r: Option<jsonwebtoken::jwk::JwkSet>)
    ensures
        match r {
            Some(s) => jwk_set_read(text@) == Some(jwk_entries(s)),
            None => jwk_set_read(text@) is None,
        },
{
    serde_json::from_str::<jsonwebtoken::jwk::JwkSet>(text).ok()
}

/// The number of keys of a `jsonwebtoken::jwk::JwkSet`.
#[verifier::external_body]
pub(crate) fn jwk_count(set: &jsonwebtoken::jwk::JwkSet) -> (r: usize)
    ensures
        r == jwk_entries(*set).len(),
{
    set.keys.len()
}

/// The id and the algorithm of a key, as its `CommonParameters` have them; the
/// algorithm by its debug text.
#[verifier::external_body]
pub(crate) fn jwk_names(set: &jsonwebtoken::jwk::JwkSet, i: usize) -> (r: (
    Option<String>,
    Option<String>,
))
    requires
        i < jwk_entries(*set).len(),
    ensures
        r.0.deep_view() == jwk_entries(*set)[i as int].0,
        r.1.deep_view() == jwk_entries(*set)[i as int].1,
{
    let c = &set.keys[i].common;
    (c.key_id.clone(), c.key_algorithm.map(|a| format!("{a:?}")))
}

/// `jsonwebtoken::DecodingKey::from_jwk` of a key of the set: whether it
/// succeeds, and with which key, is what the set's contents say.
#[verifier::external_body]
pub(crate) fn decoding_key(set: &jsonwebtoken::jwk::JwkSet, i: usize) -> (r: Option<
    jsonwebtoken::DecodingKey,
>)
    requires
        i < jwk_entries(*set).len(),
    ensures
        match r {
            Some(k) => jwk_entries(*set)[i as int].2 == Some(key_material(k)),
            None => jwk_entries(*set)[i as int].2 is None,
        },
{
    jsonwebtoken::DecodingKey::from_jwk(&set.keys[i]).ok()
}

/// What `jsonwebtoken::decode_header` reads in a token: the name of its
/// algorithm and the id of its key, or the error's text.
pub uninterp spec fn jwt_header_read(token: Seq<char>) -> Result<
    (Seq<char>, Option<Seq<char>>),
    Seq<char>,
>;

/// `jsonwebtoken::decode_header`: the algorithm, by its debug text, and the key
/// id, which depend on the token alone.
#[verifier::external_body]
pub(crate) fn jwt_header(token: &str) -> (r: Result<
    (String, Option<String>),
    String,
>)
    ensures
        match r {
            Ok(h) => jwt_header_read(token@) == Ok::<(Seq<char>, Option<Seq<char>>), Seq<char>>(
                (h.0@, h.1.deep_view()),
            ),
            Err(e) => jwt_header_read(token@) == Err::<(Seq<char>, Option<Seq<char>>), Seq<char>>(
                e@,
            ),
        },
{
    match jsonwebtoken::decode_header(token) {
        Ok(h) => Ok((format!("{:?}", h.alg), h.kid)),
        Err(e) => Err(e.to_string()),
    }
}

/// What the payload of a token says, where its header names the given algorithm
/// and its signature holds by that algorithm under a key.
pub uninterp spec fn jwt_payload(
    token: Seq<char>,
    algorithm: Seq<char>,
    material: (Seq<u8>, Option<Seq<u8>>),
) -> Option<json::Tree>;

/// Whether `jsonwebtoken::decode`, asked to check a token by an algorithm under a key
/// for an issuer, an audience and claims that must be there, can come out as given:
/// with what the token says, or without. Both can happen at different times.
pub uninterp spec fn jwt_may_decode(
    token: Seq<char>,
    algorithm: Seq<char>,
    material: (Seq<u8>, Option<Seq<u8>>),
    issuer: Option<Seq<char>>,
    audience: Option<Seq<char>>,
    required: Seq<Seq<char>>,
    outcome: Option<json::Tree>,
) -> bool;

/// What is known of the claims of a token that passed its checks: where they are
/// an object, each required claim is there and not null; an issuer that is a text
/// is the one asked for; and an audience that is a text or a list of texts is or
/// holds the one asked for.
pub open spec fn checked_claims(
    claims: json::Tree,
    issuer: Option<Seq<char>>,
    audience: Option<Seq<char>>,
    required: Seq<Seq<char>>,
) -> bool {
    &&& claims is Object && required.contains("exp"@) ==> (json::tree_get(
        claims,
        "exp"@,
    ) matches Some(v) && v != json::Tree::Null)
    &&& claims is Object && required.contains("iss"@) ==> (json::tree_get(
        claims,
        "iss"@,
    ) matches Some(v) && v != json::Tree::Null)
    &&& claims is Object && required.contains("aud"@) ==> (json::tree_get(
        claims,
        "aud"@,
    ) matches Some(v) && v != json::Tree::Null)
    &&& json::tree_get(claims, "iss"@) matches Some(json::Tree::Str(s)) ==> issuer is None
        || issuer == Some(s)
    &&& json::tree_get(claims, "aud"@) matches Some(json::Tree::Str(s)) ==> audience == Some(s)
    &&& json::tree_get(claims, "aud"@) matches Some(json::Tree::Array(s)) ==> (forall|i: int|
        0 <= i < s.len() ==> (#[trigger] s[i]) is Str) ==> audience is Some && s.contains(
        json::Tree::Str(audience->0),
    )
}

/// `jsonwebtoken::decode` with a `Validation` that checks the signature, the
/// algorithm, the expiry, the issuer, the audience and the presence of the
/// required claims. The outcome is one that the arguments allow; that there is only
/// one is not claimed, since whether a token passes rests on the time too. A token
/// that passed is signed by the algorithm under the key, its claims are what its
/// payload says, and they are as the checks make sure. A check by EdDSA reads the
/// first 32 bytes of its key. A claim that the payload gives twice, and that no check
/// reads, counts as given last.
#[verifier::external_body]
pub(crate) fn jwt_decode(
    token: &str,
    key: &jsonwebtoken::DecodingKey,
    algorithm: &str,
    issuer: Option<&str>,
    audience: Option<&str>,
    required: &Vec<String>,
) -> (r: Option<Json>)
    requires
        algorithm@ == "EdDSA"@ && key_material(*key).1 is None ==> key_material(*key).0.len() >= 32,
    ensures
        jwt_may_decode(
            token@,
            algorithm@,
            key_material(*key),
            issuer.deep_view(),
            audience.deep_view(),
            required.deep_view(),
            r.deep_view(),
        ),
        r matches Some(j) ==> jwt_payload(token@, algorithm@, key_material(*key)) == Some(
            j.tree(),
        ) && checked_claims(
            j.tree(),
            issuer.deep_view(),
            audience.deep_view(),
            required.deep_view(),
        ),
{
    let mut v = jsonwebtoken::Validation::new(algorithm.parse().ok()?);
    v.iss = issuer.map(|s| [s.to_owned()].into());
    v.aud = audience.map(|s| [s.to_owned()].into());
    v.required_spec_claims = required.iter().cloned().collect();
    let data = jsonwebtoken::decode::<serde_json::Value>(token, key, &v);
    data.ok().map(|d| from_serde(d.claims))
}

} // verus!
