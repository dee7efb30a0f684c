//! Callers that prove who they are with a signed token.
use vstd::prelude::*;
use vstd::string::*;

use crate::json;
use crate::json::Json;
use crate::outside;
use crate::text;
use crate::text::{chars_of, opt_as_str, opt_str_eq, str_eq};
use crate::token_text;

verus! {

/// The audience of a token.
#[derive(Debug, Clone)]
pub enum Audience {
    Single(String),
    Multiple(Vec<String>),
}

/// The claims of a token that say who its bearer is.
#[derive(Debug, Clone)]
pub struct StandardClaims {
    pub sub: Option<String>,
    pub iss: Option<String>,
    pub aud: Option<Audience>,
    pub exp: Option<u64>,
    pub iat: Option<u64>,
    pub nbf: Option<u64>,
}

/// An audience over plain values.
pub enum AudienceView {
    Single(Seq<char>),
    Multiple(Seq<Seq<char>>),
}

impl DeepView for Audience {
    type V = AudienceView;

    open spec fn deep_view(&self) -> AudienceView {
        match self {
            Audience::Single(s) => AudienceView::Single(s@),
            Audience::Multiple(v) => AudienceView::Multiple(text::texts(v@)),
        }
    }
}

/// The claims of a token over plain values.
pub struct ClaimsView {
    pub sub: Option<Seq<char>>,
    pub iss: Option<Seq<char>>,
    pub aud: Option<AudienceView>,
    pub exp: Option<u64>,
    pub iat: Option<u64>,
    pub nbf: Option<u64>,
}

impl DeepView for StandardClaims {
    type V = ClaimsView;

    open spec fn deep_view(&self) -> ClaimsView {
        ClaimsView {
            sub: self.sub.deep_view(),
            iss: self.iss.deep_view(),
            aud: self.aud.deep_view(),
            exp: self.exp,
            iat: self.iat,
            nbf: self.nbf,
        }
    }
}

/// Whether a value is missing or null.
pub open spec fn blank(v: Option<json::Tree>) -> bool {
    v is None || v == Some(json::Tree::Null)
}

/// A claim that is a text, if it is there.
pub open spec fn text_claim(v: Option<json::Tree>) -> Result<Option<Seq<char>>, ()> {
    if blank(v) {
        Ok(None)
    } else {
        match v->0 {
            json::Tree::Str(s) => Ok(Some(s)),
            _ => Err(()),
        }
    }
}

fn text_claim_of(v: Option<&Json>) -> (r: Result<Option<String>, ()>)
    ensures
        match text_claim(v.deep_view()) {
            Ok(o) => r matches Ok(x) && x.deep_view() == o,
            Err(_) => r is Err,
        },
{
    match v {
        None => Ok(None),
        Some(Json::Null) => Ok(None),
        Some(Json::Str(s)) => Ok(Some(s.clone())),
        Some(_) => Err(()),
    }
}

/// The value of a run of digits.
pub open spec fn digits_value(s: Seq<char>) -> Option<nat>
    decreases s.len(),
{
    if s.len() == 0 {
        Some(0)
    } else {
        match digits_value(s.drop_last()) {
            Some(n) => if '0' <= s.last() <= '9' {
                Some(n * 10 + (s.last() as nat - '0' as nat) as nat)
            } else {
                None
            },
            None => None,
        }
    }
}

/// The number that a text of digits stands for, where it fits 64 bits.
pub open spec fn natural_of(s: Seq<char>) -> Option<u64> {
    match digits_value(s) {
        Some(n) => if s.len() > 0 && n <= u64::MAX {
            Some(n as u64)
        } else {
            None
        },
        None => None,
    }
}

proof fn lemma_digits_grow(s: Seq<char>, i: int)
    requires
        0 <= i <= s.len(),
        digits_value(s) is Some,
    ensures
        digits_value(s.take(i)) is Some,
        digits_value(s.take(i))->0 <= digits_value(s)->0,
    decreases s.len(),
{
    if i < s.len() {
        lemma_digits_grow(s.drop_last(), i);
        assert(s.drop_last().take(i) =~= s.take(i));
    } else {
        assert(s.take(i) =~= s);
    }
}

fn parse_natural(s: &str) -> (r: Option<u64>)
    ensures
        r == natural_of(s@),
{
    let cs: Vec<char> = chars_of(s);
    if cs.len() == 0 {
        return None;
    }
    let mut n: u64 = 0;
    let mut i: usize = 0;
    while i < cs.len()
        invariant
            i <= cs@.len(),
            cs@ == s@,
            digits_value(cs@.take(i as int)) == Some(n as nat),
        decreases cs.len() - i,
    {
        let c: char = cs[i];
        let ghost next = cs@.take(i + 1);
        proof {
            assert(next.drop_last() =~= cs@.take(i as int));
            if digits_value(cs@) is Some {
                lemma_digits_grow(cs@, i + 1);
            }
        }
        if !('0' <= c && c <= '9') {
            return None;
        }
        let d: u64 = (c as u32 - 48) as u64;
        n = match n.checked_mul(10) {
            None => {
                return None;
            },
            Some(t) => match t.checked_add(d) {
                None => {
                    return None;
                },
                Some(u) => u,
            },
        };
        i += 1;
    }
    proof {
        assert(cs@.take(cs@.len() as int) =~= cs@);
    }
    Some(n)
}

/// A claim that is a number, if it is there.
pub open spec fn number_claim(v: Option<json::Tree>) -> Result<Option<u64>, ()> {
    if blank(v) {
        Ok(None)
    } else {
        match v->0 {
            json::Tree::Number(s) => match natural_of(s) {
                Some(n) => Ok(Some(n)),
                None => Err(()),
            },
            _ => Err(()),
        }
    }
}

fn number_claim_of(v: Option<&Json>) -> (r: Result<Option<u64>, ()>)
    ensures
        r == number_claim(v.deep_view()),
{
    match v {
        None => Ok(None),
        Some(Json::Null) => Ok(None),
        Some(Json::Number(s)) => match parse_natural(s.as_str()) {
            Some(n) => Ok(Some(n)),
            None => Err(()),
        },
        Some(_) => Err(()),
    }
}

/// Whether every value of a run is a text.
pub open spec fn all_texts(s: Seq<json::Tree>) -> bool {
    forall|i: int| 0 <= i < s.len() ==> #[trigger] s[i] is Str
}

/// A claim that is an audience, if it is there.
pub open spec fn audience_claim(v: Option<json::Tree>) -> Result<Option<AudienceView>, ()> {
    if blank(v) {
        Ok(None)
    } else {
        match v->0 {
            json::Tree::Str(s) => Ok(Some(AudienceView::Single(s))),
            json::Tree::Array(a) => if all_texts(a) {
                Ok(Some(AudienceView::Multiple(Seq::new(a.len(), |i: int| a[i]->Str_0))))
            } else {
                Err(())
            },
            _ => Err(()),
        }
    }
}

fn audience_claim_of(v: Option<&Json>) -> (r: Result<Option<Audience>, ()>)
    ensures
        match audience_claim(v.deep_view()) {
            Ok(o) => r matches Ok(x) && x.deep_view() == o,
            Err(_) => r is Err,
        },
{
    match v {
        None => Ok(None),
        Some(Json::Null) => Ok(None),
        Some(Json::Str(s)) => Ok(Some(Audience::Single(s.clone()))),
        Some(Json::Array(a)) => {
            let mut out: Vec<String> = Vec::new();
            let mut i: usize = 0;
            proof {
                json::lemma_elements(a@);
            }
            while i < a.len()
                invariant
                    i <= a@.len(),
                    out@.len() == i,
                    json::elements(a@).len() == a@.len(),
                    v.deep_view() == Some(json::Tree::Array(json::elements(a@))),
                    forall|j: int|
                        0 <= j < a@.len() ==> #[trigger] json::elements(a@)[j] == a@[j].tree(),
                    forall|j: int|
                        0 <= j < i ==> #[trigger] json::elements(a@)[j] == json::Tree::Str(
                            out@[j]@,
                        ),
                decreases a.len() - i,
            {
                match &a[i] {
                    Json::Str(s) => {
                        out.push(s.clone());
                    },
                    _ => {
                        proof {
                            assert(!(json::elements(a@)[i as int] is Str));
                        }
                        return Err(());
                    },
                }
                i += 1;
            }
            proof {
                let e = json::elements(a@);
                assert(text::texts(out@) =~= Seq::new(e.len(), |i: int| e[i]->Str_0));
            }
            Ok(Some(Audience::Multiple(out)))
        },
        Some(_) => Err(()),
    }
}

/// The claims that a value holds, where each is of its kind.
pub open spec fn claims_of(t: json::Tree) -> Option<ClaimsView> {
    let sub = text_claim(json::tree_get(t, "sub"@));
    let iss = text_claim(json::tree_get(t, "iss"@));
    let aud = audience_claim(json::tree_get(t, "aud"@));
    let exp = number_claim(json::tree_get(t, "exp"@));
    let iat = number_claim(json::tree_get(t, "iat"@));
    let nbf = number_claim(json::tree_get(t, "nbf"@));
    if t is Object && sub is Ok && iss is Ok && aud is Ok && exp is Ok && iat is Ok && nbf is Ok {
        Some(
            ClaimsView {
                sub: sub->Ok_0,
                iss: iss->Ok_0,
                aud: aud->Ok_0,
                exp: exp->Ok_0,
                iat: iat->Ok_0,
                nbf: nbf->Ok_0,
            },
        )
    } else {
        None
    }
}

/// Reads the claims of a token.
pub fn read_claims(v: &Json) -> (r: Option<StandardClaims>)
    ensures
        r.deep_view() == claims_of(v.tree()),
{
    if !v.is_object() {
        return None;
    }
    match (
        text_claim_of(v.get("sub")),
        text_claim_of(v.get("iss")),
        audience_claim_of(v.get("aud")),
        number_claim_of(v.get("exp")),
        number_claim_of(v.get("iat")),
        number_claim_of(v.get("nbf")),
    ) {
        (Ok(sub), Ok(iss), Ok(aud), Ok(exp), Ok(iat), Ok(nbf)) => Some(
            StandardClaims { sub, iss, aud, exp, iat, nbf },
        ),
        _ => None,
    }
}

/// How a token is signed.
#[allow(clippy::upper_case_acronyms)]
#[derive(Debug, Clone, Copy, PartialEq, Eq, Structural)]
pub enum JwtAlgorithm {
    HS256,
    HS384,
    HS512,
    ES256,
    ES384,
    RS256,
    RS384,
    RS512,
    PS256,
    PS384,
    PS512,
    EdDSA,
}

/// The algorithms that a key may name. Some do not sign.
#[allow(non_camel_case_types, clippy::upper_case_acronyms)]
#[derive(Debug, Clone, Copy, PartialEq, Eq, Structural)]
pub enum KeyAlgorithm {
    HS256,
    HS384,
    HS512,
    ES256,
    ES384,
    RS256,
    RS384,
    RS512,
    PS256,
    PS384,
    PS512,
    EdDSA,
    RSA1_5,
    RSA_OAEP,
    RSA_OAEP_256,
    UNKNOWN_ALGORITHM,
}

/// The name of an algorithm.
pub open spec fn algorithm_text(a: JwtAlgorithm) -> Seq<char> {
    match a {
        JwtAlgorithm::HS256 => "HS256"@,
        JwtAlgorithm::HS384 => "HS384"@,
        JwtAlgorithm::HS512 => "HS512"@,
        JwtAlgorithm::ES256 => "ES256"@,
        JwtAlgorithm::ES384 => "ES384"@,
        JwtAlgorithm::RS256 => "RS256"@,
        JwtAlgorithm::RS384 => "RS384"@,
        JwtAlgorithm::RS512 => "RS512"@,
        JwtAlgorithm::PS256 => "PS256"@,
        JwtAlgorithm::PS384 => "PS384"@,
        JwtAlgorithm::PS512 => "PS512"@,
        JwtAlgorithm::EdDSA => "EdDSA"@,
    }
}

fn algorithm_name(a: JwtAlgorithm) -> (r: &'static str)
    ensures
        r@ == algorithm_text(a),
{
    match a {
        JwtAlgorithm::HS256 => "HS256",
        JwtAlgorithm::HS384 => "HS384",
        JwtAlgorithm::HS512 => "HS512",
        JwtAlgorithm::ES256 => "ES256",
        JwtAlgorithm::ES384 => "ES384",
        JwtAlgorithm::RS256 => "RS256",
        JwtAlgorithm::RS384 => "RS384",
        JwtAlgorithm::RS512 => "RS512",
        JwtAlgorithm::PS256 => "PS256",
        JwtAlgorithm::PS384 => "PS384",
        JwtAlgorithm::PS512 => "PS512",
        JwtAlgorithm::EdDSA => "EdDSA",
    }
}

/// The algorithm by which a key verifies, if it is one that signs.
pub open spec fn signing(ka: KeyAlgorithm) -> Option<JwtAlgorithm> {
    match ka {
        KeyAlgorithm::HS256 => Some(JwtAlgorithm::HS256),
        KeyAlgorithm::HS384 => Some(JwtAlgorithm::HS384),
        KeyAlgorithm::HS512 => Some(JwtAlgorithm::HS512),
        KeyAlgorithm::ES256 => Some(JwtAlgorithm::ES256),
        KeyAlgorithm::ES384 => Some(JwtAlgorithm::ES384),
        KeyAlgorithm::RS256 => Some(JwtAlgorithm::RS256),
        KeyAlgorithm::RS384 => Some(JwtAlgorithm::RS384),
        KeyAlgorithm::RS512 => Some(JwtAlgorithm::RS512),
        KeyAlgorithm::PS256 => Some(JwtAlgorithm::PS256),
        KeyAlgorithm::PS384 => Some(JwtAlgorithm::PS384),
        KeyAlgorithm::PS512 => Some(JwtAlgorithm::PS512),
        KeyAlgorithm::EdDSA => Some(JwtAlgorithm::EdDSA),
        _ => None,
    }
}

/// The algorithm by which a key verifies, if it is one that signs.
pub fn map_key_algorithm(ka: KeyAlgorithm) -> (r: Option<JwtAlgorithm>)
    ensures
        r == signing(ka),
{
    match ka {
        KeyAlgorithm::HS256 => Some(JwtAlgorithm::HS256),
        KeyAlgorithm::HS384 => Some(JwtAlgorithm::HS384),
        KeyAlgorithm::HS512 => Some(JwtAlgorithm::HS512),
        KeyAlgorithm::ES256 => Some(JwtAlgorithm::ES256),
        KeyAlgorithm::ES384 => Some(JwtAlgorithm::ES384),
        KeyAlgorithm::RS256 => Some(JwtAlgorithm::RS256),
        KeyAlgorithm::RS384 => Some(JwtAlgorithm::RS384),
        KeyAlgorithm::RS512 => Some(JwtAlgorithm::RS512),
        KeyAlgorithm::PS256 => Some(JwtAlgorithm::PS256),
        KeyAlgorithm::PS384 => Some(JwtAlgorithm::PS384),
        KeyAlgorithm::PS512 => Some(JwtAlgorithm::PS512),
        KeyAlgorithm::EdDSA => Some(JwtAlgorithm::EdDSA),
        _ => None,
    }
}

/// The algorithm that a name stands for.
pub open spec fn key_algorithm_of_text(name: Seq<char>) -> KeyAlgorithm {
    if name == "HS256"@ {
        KeyAlgorithm::HS256
    } else if name == "HS384"@ {
        KeyAlgorithm::HS384
    } else if name == "HS512"@ {
        KeyAlgorithm::HS512
    } else if name == "ES256"@ {
        KeyAlgorithm::ES256
    } else if name == "ES384"@ {
        KeyAlgorithm::ES384
    } else if name == "RS256"@ {
        KeyAlgorithm::RS256
    } else if name == "RS384"@ {
        KeyAlgorithm::RS384
    } else if name == "RS512"@ {
        KeyAlgorithm::RS512
    } else if name == "PS256"@ {
        KeyAlgorithm::PS256
    } else if name == "PS384"@ {
        KeyAlgorithm::PS384
    } else if name == "PS512"@ {
        KeyAlgorithm::PS512
    } else if name == "EdDSA"@ {
        KeyAlgorithm::EdDSA
    } else if name == "RSA1_5"@ {
        KeyAlgorithm::RSA1_5
    } else if name == "RSA_OAEP"@ {
        KeyAlgorithm::RSA_OAEP
    } else if name == "RSA_OAEP_256"@ {
        KeyAlgorithm::RSA_OAEP_256
    } else {
        KeyAlgorithm::UNKNOWN_ALGORITHM
    }
}

fn key_algorithm_of_name(name: &str) -> (r: KeyAlgorithm)
    ensures
        r == key_algorithm_of_text(name@),
{
    if str_eq(name, "HS256") {
        KeyAlgorithm::HS256
    } else if str_eq(name, "HS384") {
        KeyAlgorithm::HS384
    } else if str_eq(name, "HS512") {
        KeyAlgorithm::HS512
    } else if str_eq(name, "ES256") {
        KeyAlgorithm::ES256
    } else if str_eq(name, "ES384") {
        KeyAlgorithm::ES384
    } else if str_eq(name, "RS256") {
        KeyAlgorithm::RS256
    } else if str_eq(name, "RS384") {
        KeyAlgorithm::RS384
    } else if str_eq(name, "RS512") {
        KeyAlgorithm::RS512
    } else if str_eq(name, "PS256") {
        KeyAlgorithm::PS256
    } else if str_eq(name, "PS384") {
        KeyAlgorithm::PS384
    } else if str_eq(name, "PS512") {
        KeyAlgorithm::PS512
    } else if str_eq(name, "EdDSA") {
        KeyAlgorithm::EdDSA
    } else if str_eq(name, "RSA1_5") {
        KeyAlgorithm::RSA1_5
    } else if str_eq(name, "RSA_OAEP") {
        KeyAlgorithm::RSA_OAEP
    } else if str_eq(name, "RSA_OAEP_256") {
        KeyAlgorithm::RSA_OAEP_256
    } else {
        KeyAlgorithm::UNKNOWN_ALGORITHM
    }
}

/// A key, with its id and the algorithm that it names. One that names none is
/// never used, so that no token can choose how it is checked.
pub struct KeyEntry {
    kid: Option<String>,
    key: jsonwebtoken::DecodingKey,
    algorithm: Option<JwtAlgorithm>,
}

/// A key over plain values.
pub struct KeyView {
    pub kid: Option<Seq<char>>,
    pub algorithm: Option<JwtAlgorithm>,
    /// What signatures are checked with.
    pub material: (Seq<u8>, Option<Seq<u8>>),
}

impl KeyEntry {
    /// What is known of the key.
    pub closed spec fn view(&self) -> KeyView {
        KeyView {
            kid: self.kid.deep_view(),
            algorithm: self.algorithm,
            material: outside::key_material(self.key),
        }
    }

    fn is_long_enough(&self) -> (r: bool)
        ensures
            r == long_enough(self.view()),
    {
        match self.algorithm {
            Some(JwtAlgorithm::EdDSA) => {
                let (bytes, exponent): (Vec<u8>, Option<Vec<u8>>) = outside::key_parts(&self.key);
                exponent.is_some() || bytes.len() >= 32
            },
            _ => true,
        }
    }
}

/// What came of the check of a token.
#[derive(Debug)]
pub enum JwtVerificationResult {
    /// The token proves who its bearer is.
    Verified { subject: String, issuer: Option<String> },
    /// There is no token.
    NoToken,
    /// The token proves nothing; the text says why.
    Invalid(String),
}

/// What came of the check of a token, over plain values.
pub enum JwtView {
    Verified { subject: Seq<char>, issuer: Option<Seq<char>> },
    NoToken,
    Invalid(Seq<char>),
}

impl DeepView for JwtVerificationResult {
    type V = JwtView;

    open spec fn deep_view(&self) -> JwtView {
        match self {
            JwtVerificationResult::Verified { subject, issuer } => JwtView::Verified {
                subject: subject@,
                issuer: issuer.deep_view(),
            },
            JwtVerificationResult::NoToken => JwtView::NoToken,
            JwtVerificationResult::Invalid(e) => JwtView::Invalid(e@),
        }
    }
}

/// How tokens are checked.
#[derive(Debug, Clone)]
pub struct JwksConfig {
    pub url: String,
    pub keys_json: Option<String>,
    pub issuer: Option<String>,
    pub audience: Option<String>,
    pub header_name: String,
    pub header_prefix: String,
    /// Whether a token may leave its audience out, though one is asked for.
    pub allow_missing_audience: bool,
}

/// Checks tokens against a set of keys.
pub struct JwtVerifier {
    keys: Vec<KeyEntry>,
    issuer: Option<String>,
    audience: Option<String>,
    allow_missing_audience: bool,
    header_name: String,
    header_prefix: String,
}

/// An entry of a set of keys: its id, the name of its algorithm, and what its key
/// stands for, if it is one.
pub type EntryView = (
    Option<Seq<char>>,
    Option<Seq<char>>,
    Option<(Seq<u8>, Option<Seq<u8>>)>,
);

/// The key that an entry of a set describes.
pub open spec fn key_of(entry: EntryView) -> KeyView {
    KeyView {
        kid: entry.0,
        algorithm: match entry.1 {
            Some(name) => signing(key_algorithm_of_text(name)),
            None => None,
        },
        material: entry.2->0,
    }
}

/// The first entry of a set that is no key.
pub open spec fn first_bad(entries: Seq<EntryView>) -> Option<
    int,
>
    decreases entries.len(),
{
    if entries.len() == 0 {
        None
    } else {
        match first_bad(entries.drop_last()) {
            Some(i) => Some(i),
            None => if entries.last().2 is Some {
                None
            } else {
                Some(entries.len() - 1)
            },
        }
    }
}

/// The keys that a text describes, or why it describes none.
pub open spec fn keys_of(text: Seq<char>) -> Result<Seq<KeyView>, Seq<char>> {
    match outside::jwk_set_read(text) {
        None => Err("failed to parse JWKS JSON"@),
        Some(entries) => match first_bad(entries) {
            Some(i) => Err(
                "failed to create decoding key from JWK (kid: "@ + outside::opt_debug_text(
                    entries[i].0,
                ) + ")"@,
            ),
            None => if entries.len() == 0 {
                Err("JWKS contains no usable keys"@)
            } else {
                Ok(Seq::new(entries.len(), |i: int| key_of(entries[i])))
            },
        },
    }
}

/// The claims that a token must have.
pub open spec fn required_claims(
    issuer: Option<Seq<char>>,
    audience: Option<Seq<char>>,
    allow_missing_audience: bool,
) -> Seq<Seq<char>> {
    let base = seq!["exp"@];
    let with_iss = if issuer is Some {
        base.push("iss"@)
    } else {
        base
    };
    if audience is Some && !allow_missing_audience {
        with_iss.push("aud"@)
    } else {
        with_iss
    }
}

proof fn lemma_only_eddsa(a: JwtAlgorithm)
    ensures
        algorithm_text(a) == "EdDSA"@ <==> a == JwtAlgorithm::EdDSA,
{
    reveal_strlit("EdDSA");
    reveal_strlit("HS256");
    reveal_strlit("HS384");
    reveal_strlit("HS512");
    reveal_strlit("ES256");
    reveal_strlit("ES384");
    reveal_strlit("RS256");
    reveal_strlit("RS384");
    reveal_strlit("RS512");
    reveal_strlit("PS256");
    reveal_strlit("PS384");
    reveal_strlit("PS512");
    assert(algorithm_text(a)[1] == 'd' <==> a == JwtAlgorithm::EdDSA);
}

/// Whether a key is long enough for the algorithm that it names: 32 bytes make a
/// key for EdDSA.
pub open spec fn long_enough(key: KeyView) -> bool {
    key.algorithm == Some(JwtAlgorithm::EdDSA) && key.material.1 is None ==> key.material.0.len()
        >= 32
}

/// Whether a key may check a token: it is the one that the token names, if the
/// token names one, it names the algorithm of the token itself, and it is long
/// enough for it.
pub open spec fn may_check(key: KeyView, kid: Option<Seq<char>>, algorithm: Seq<char>) -> bool {
    &&& kid is Some ==> key.kid == kid
    &&& key.algorithm is Some
    &&& algorithm_text(key.algorithm->0) == algorithm
    &&& long_enough(key)
}

/// What follows from the claims of a token that passed its checks: it must name
/// its bearer.
pub open spec fn verdict(claims: ClaimsView) -> JwtView {
    match claims.sub {
        Some(sub) => if text::trimmed(sub).len() == 0 {
            JwtView::Invalid("JWT missing or empty 'sub' claim"@)
        } else {
            JwtView::Verified { subject: sub, issuer: claims.iss }
        },
        None => JwtView::Invalid("JWT missing or empty 'sub' claim"@),
    }
}

/// What follows from the claims of a token that passed its checks.
pub fn conclude(claims: StandardClaims) -> (r: JwtVerificationResult)
    ensures
        r.deep_view() == verdict(claims.deep_view()),
{
    match claims.sub {
        Some(sub) => {
            if text::trim(sub.as_str()).as_str().unicode_len() == 0 {
                JwtVerificationResult::Invalid("JWT missing or empty 'sub' claim".to_owned())
            } else {
                JwtVerificationResult::Verified { subject: sub, issuer: claims.iss }
            }
        },
        None => JwtVerificationResult::Invalid("JWT missing or empty 'sub' claim".to_owned()),
    }
}

/// What follows from one key's check of a token, where anything does: `value`
/// is what the token says, if the key let it pass. A token whose claims cannot
/// be read is left to the next key.
pub open spec fn settled(value: Option<json::Tree>) -> Option<JwtView> {
    match value {
        Some(t) => match claims_of(t) {
            Some(c) => Some(verdict(c)),
            None => None,
        },
        None => None,
    }
}

/// What follows from one key's check of a token, where anything does.
pub fn settle(value: &Option<Json>) -> (r: Option<JwtVerificationResult>)
    ensures
        r.deep_view() == settled(value.deep_view()),
{
    match value {
        Some(v) => match read_claims(v) {
            Some(c) => Some(conclude(c)),
            None => None,
        },
        None => None,
    }
}

/// Whether no check before a place settles the matter.
pub open spec fn reached(checks: Seq<Option<json::Tree>>, i: int) -> bool {
    forall|j: int| 0 <= j < i ==> settled(#[trigger] checks[j]) is None
}

proof fn lemma_reached(checks: Seq<Option<json::Tree>>, next: Option<json::Tree>)
    ensures
        forall|i: int|
            0 <= i <= checks.len() ==> #[trigger] reached(checks.push(next), i) == reached(
                checks,
                i,
            ),
        reached(checks.push(next), checks.len() as int + 1) == (reached(checks, checks.len() as int)
            && settled(next) is None),
{
    let after = checks.push(next);
    assert forall|i: int| 0 <= i <= checks.len() implies #[trigger] reached(after, i) == reached(
        checks,
        i,
    ) by {
        if reached(after, i) {
            assert forall|j: int| 0 <= j < i implies settled(#[trigger] checks[j]) is None by {
                assert(after[j] == checks[j]);
            }
        }
    }
    if reached(after, checks.len() as int + 1) {
        assert(reached(after, checks.len() as int));
        assert(after[checks.len() as int] == next);
    }
    assert(reached(after, checks.len() as int) == reached(checks, checks.len() as int));
}

/// What follows from the checks of a token by one key after another: the first
/// from which anything follows decides, and a token that none settles is not
/// verified.
pub open spec fn decision(checks: Seq<Option<json::Tree>>) -> JwtView
    decreases checks.len(),
{
    if checks.len() == 0 {
        unverified()
    } else {
        match settled(checks[0]) {
            Some(v) => v,
            None => decision(checks.skip(1)),
        }
    }
}

/// What follows from the checks of a token by one key after another.
pub fn decide(checks: &Vec<Option<Json>>) -> (r: JwtVerificationResult)
    ensures
        r.deep_view() == decision(checks.deep_view()),
{
    let ghost all = checks.deep_view();
    let mut i: usize = 0;
    proof {
        assert(all.skip(0) =~= all);
    }
    while i < checks.len()
        invariant
            i <= checks.len(),
            all == checks.deep_view(),
            decision(all) == decision(all.skip(i as int)),
        decreases checks.len() - i,
    {
        proof {
            assert(all.skip(i as int)[0] == checks@[i as int].deep_view());
            assert(all.skip(i as int).skip(1) =~= all.skip(i + 1));
        }
        if let Some(outcome) = settle(&checks[i]) {
            return outcome;
        }
        i += 1;
    }
    JwtVerificationResult::Invalid("token signature verification failed".to_owned())
}

proof fn lemma_some_check_decides(checks: Seq<Option<json::Tree>>) -> (i: int)
    requires
        decision(checks) != unverified(),
    ensures
        0 <= i < checks.len(),
        settled(checks[i]) == Some(decision(checks)),
        forall|j: int| 0 <= j < i ==> settled(#[trigger] checks[j]) is None,
    decreases checks.len(),
{
    if settled(checks[0]) is Some {
        0
    } else {
        let rest = checks.skip(1);
        let k = lemma_some_check_decides(rest);
        assert forall|j: int| 0 <= j < k + 1 implies settled(#[trigger] checks[j]) is None by {
            if j > 0 {
                assert(rest[j - 1] == checks[j]);
            }
        }
        k + 1
    }
}

/// Whether claims are those of a token that a key of the verifier let pass.
pub open spec fn accepted(
    claims: ClaimsView,
    issuer: Option<Seq<char>>,
    audience: Option<Seq<char>>,
    allow_missing_audience: bool,
) -> bool {
    &&& issuer is Some ==> claims.iss == issuer
    &&& claims.aud matches Some(AudienceView::Single(a)) ==> audience == Some(a)
    &&& claims.aud matches Some(AudienceView::Multiple(v)) ==> audience is Some && v.contains(
        audience->0,
    )
    &&& audience is Some && !allow_missing_audience ==> claims.aud is Some
    &&& claims.exp is Some
}

/// A token that no key let pass.
pub open spec fn unverified() -> JwtView {
    JwtView::Invalid("token signature verification failed"@)
}

impl JwtVerifier {
    /// The keys of the verifier.
    pub closed spec fn key_views(&self) -> Seq<KeyView> {
        Seq::new(self.keys@.len(), |i: int| self.keys@[i].view())
    }

    /// The issuer that is asked for.
    pub closed spec fn asked_issuer(&self) -> Option<Seq<char>> {
        self.issuer.deep_view()
    }

    /// The audience that is asked for.
    pub closed spec fn asked_audience(&self) -> Option<Seq<char>> {
        self.audience.deep_view()
    }

    /// Whether a token may leave its audience out.
    pub closed spec fn audience_optional(&self) -> bool {
        self.allow_missing_audience
    }

    /// The header that carries the token.
    pub closed spec fn header(&self) -> Seq<char> {
        self.header_name@
    }

    /// What stands before the token in its header.
    pub closed spec fn prefix(&self) -> Seq<char> {
        self.header_prefix@
    }

    /// Makes a verifier from the text that describes a set of keys.
    pub fn from_jwks_json(jwks_json: &str, config: &JwksConfig) -> (r: Result<JwtVerifier, String>)
        ensures
            match keys_of(jwks_json@) {
                Err(e) => r matches Err(x) && x@ == e,
                Ok(keys) => r matches Ok(v) && v.key_views() == keys && v.asked_issuer()
                    == config.issuer.deep_view() && v.asked_audience()
                    == config.audience.deep_view() && v.audience_optional()
                    == config.allow_missing_audience && v.header() == config.header_name@
                    && v.prefix() == config.header_prefix@,
            },
    {
        let set: jsonwebtoken::jwk::JwkSet = match outside::jwk_set_parse(jwks_json) {
            Some(s) => s,
            None => {
                return Err("failed to parse JWKS JSON".to_owned());
            },
        };
        let ghost entries = outside::jwk_entries(set);
        let n: usize = outside::jwk_count(&set);
        let mut keys: Vec<KeyEntry> = Vec::new();
        let mut i: usize = 0;
        while i < n
            invariant
                i <= n,
                n == entries.len(),
                entries == outside::jwk_entries(set),
                outside::jwk_set_read(jwks_json@) == Some(entries),
                keys@.len() == i,
                first_bad(entries.take(i as int)) is None,
                forall|j: int| 0 <= j < i ==> (#[trigger] keys@[j]).view() == key_of(entries[j]),
            decreases n - i,
        {
            proof {
                assert(entries.take(i + 1).drop_last() =~= entries.take(i as int));
            }
            let (kid, alg): (Option<String>, Option<String>) = outside::jwk_names(&set, i);
            let key: jsonwebtoken::DecodingKey = match outside::decoding_key(&set, i) {
                Some(k) => k,
                None => {
                    proof {
                        lemma_first_bad(entries, i as int);
                    }
                    let mut message: String =
                        "failed to create decoding key from JWK (kid: ".to_owned();
                    message.append(outside::opt_debug(opt_as_str(&kid)).as_str());
                    message.append(")");
                    return Err(message);
                },
            };
            let algorithm: Option<JwtAlgorithm> = match &alg {
                Some(name) => map_key_algorithm(key_algorithm_of_name(name.as_str())),
                None => None,
            };
            keys.push(KeyEntry { kid, key, algorithm });
            i += 1;
        }
        proof {
            assert(entries.take(n as int) =~= entries);
        }
        if keys.len() == 0 {
            return Err("JWKS contains no usable keys".to_owned());
        }
        let v: JwtVerifier = JwtVerifier {
            keys,
            issuer: text::copy_opt_str(opt_as_str(&config.issuer)),
            audience: text::copy_opt_str(opt_as_str(&config.audience)),
            allow_missing_audience: config.allow_missing_audience,
            header_name: config.header_name.clone(),
            header_prefix: config.header_prefix.clone(),
        };
        proof {
            assert(v.key_views() =~= Seq::new(entries.len(), |i: int| key_of(entries[i])));
        }
        Ok(v)
    }

    /// How many keys the verifier has.
    pub fn key_count(&self) -> (r: usize)
        ensures
            r == self.key_views().len(),
    {
        self.keys.len()
    }

    /// The header that carries the token.
    pub fn header_name(&self) -> (r: &str)
        ensures
            r@ == self.header(),
    {
        self.header_name.as_str()
    }

    /// The token that a header's value carries.
    pub open spec fn token_in(&self, value: Option<Seq<char>>) -> Option<Seq<char>> {
        match value {
            None => None,
            Some(v) => if self.prefix().len() == 0 {
                Some(v)
            } else if text::has_prefix(v, self.prefix()) {
                Some(v.skip(self.prefix().len() as int))
            } else {
                None
            },
        }
    }

    /// The token that the headers carry.
    pub open spec fn token_of(&self, headers: http::HeaderMap<http::HeaderValue>) -> Option<
        Seq<char>,
    > {
        self.token_in(header_value(headers, self.header()))
    }

    /// The token that the headers carry.
    pub fn extract_token(&self, headers: &http::HeaderMap<http::HeaderValue>) -> (r: Option<String>)
        ensures
            r.deep_view() == self.token_of(*headers),
    {
        let value: String = match outside::header_get(headers, self.header_name.as_str()) {
            Some(v) => v,
            None => {
                return None;
            },
        };
        if self.header_prefix.as_str().unicode_len() == 0 {
            return Some(value);
        }
        text::strip_prefix(value.as_str(), self.header_prefix.as_str())
    }

    /// Whether some key has an id.
    pub open spec fn knows(&self, kid: Seq<char>) -> bool {
        exists|i: int|
            0 <= i < self.key_views().len() && (#[trigger] self.key_views()[i]).kid == Some(kid)
    }

    /// The answer to a token that is refused without a look at its signature.
    pub open spec fn refusal(&self, token: Seq<char>) -> Option<JwtView> {
        match outside::jwt_header_read(token) {
            Err(e) => Some(JwtView::Invalid("invalid JWT header: "@ + e)),
            Ok((algorithm, kid)) => if kid is Some && !self.knows(kid->0) {
                Some(JwtView::Invalid("no key found for kid: "@ + kid->0))
            } else {
                None
            },
        }
    }

    fn has_kid(&self, kid: &str) -> (r: bool)
        ensures
            r == self.knows(kid@),
    {
        let mut i: usize = 0;
        while i < self.keys.len()
            invariant
                i <= self.keys@.len(),
                forall|j: int|
                    0 <= j < i ==> (#[trigger] self.key_views()[j]).kid != Some(kid@),
            decreases self.keys.len() - i,
        {
            if opt_str_eq(opt_as_str(&self.keys[i].kid), Some(kid)) {
                proof {
                    assert(self.key_views()[i as int].kid == Some(kid@));
                }
                return true;
            }
            i += 1;
        }
        false
    }

    /// The claims that a token must have.
    fn required(&self) -> (r: Vec<String>)
        ensures
            r.deep_view() == required_claims(
                self.asked_issuer(),
                self.asked_audience(),
                self.audience_optional(),
            ),
    {
        let mut out: Vec<String> = Vec::new();
        out.push("exp".to_owned());
        if self.issuer.is_some() {
            out.push("iss".to_owned());
        }
        if self.audience.is_some() && !self.allow_missing_audience {
            out.push("aud".to_owned());
        }
        proof {
            assert(out.deep_view() =~= required_claims(
                self.asked_issuer(),
                self.asked_audience(),
                self.audience_optional(),
            ));
        }
        out
    }

    /// Checks a token. Keys are tried in order; the first that lets the token
    /// pass decides. Whether one does rests on the time.
    pub fn verify_token(&self, token: &str) -> (r: JwtVerificationResult)
        ensures
            self.vouches(token@, r.deep_view()),
    {
        let (algorithm, kid): (String, Option<String>) = match outside::jwt_header(token) {
            Ok(h) => h,
            Err(e) => {
                let mut message: String = "invalid JWT header: ".to_owned();
                message.append(e.as_str());
                return JwtVerificationResult::Invalid(message);
            },
        };
        if let Some(k) = &kid {
            if !self.has_kid(k.as_str()) {
                let mut message: String = "no key found for kid: ".to_owned();
                message.append(k.as_str());
                return JwtVerificationResult::Invalid(message);
            }
        }
        if token_text::repeats_claim(token, "iat") {
            return JwtVerificationResult::Invalid("token signature verification failed".to_owned());
        }
        let required: Vec<String> = self.required();
        let mut checks: Vec<Option<Json>> = Vec::new();
        let mut over: bool = false;
        while checks.len() < self.keys.len()
            invariant
                checks.len() <= self.keys.len(),
                outside::jwt_header_read(token@) == Ok::<
                    (Seq<char>, Option<Seq<char>>),
                    Seq<char>,
                >((algorithm@, kid.deep_view())),
                required.deep_view() == required_claims(
                    self.asked_issuer(),
                    self.asked_audience(),
                    self.audience_optional(),
                ),
                !over ==> reached(checks.deep_view(), checks.len() as int),
                over ==> !reached(checks.deep_view(), checks.len() as int),
                forall|j: int|
                    0 <= j < checks.len() ==> self.comes_out(
                        token@,
                        j,
                        #[trigger] checks.deep_view()[j],
                        reached(checks.deep_view(), j),
                    ),
            decreases self.keys.len() - checks.len(),
        {
            let i: usize = checks.len();
            let value: Option<Json> = if !over && self.usable(i, &kid, algorithm.as_str()) {
                proof {
                    lemma_only_eddsa(self.keys@[i as int].algorithm->0);
                    assert(long_enough(self.key_views()[i as int]));
                }
                outside::jwt_decode(
                    token,
                    &self.keys[i].key,
                    algorithm.as_str(),
                    opt_as_str(&self.issuer),
                    opt_as_str(&self.audience),
                    &required,
                )
            } else {
                None
            };
            over = over || settle(&value).is_some();
            let ghost before = checks.deep_view();
            checks.push(value);
            proof {
                let after = checks.deep_view();
                assert(after =~= before.push(value.deep_view()));
                assert(self.comes_out(
                    token@,
                    i as int,
                    value.deep_view(),
                    reached(before, i as int),
                ));
                lemma_reached(before, value.deep_view());
            }
        }
        proof {
            assert(self.checked(token@, checks.deep_view()));
        }
        decide(&checks)
    }

    fn usable(&self, i: usize, kid: &Option<String>, algorithm: &str) -> (r: bool)
        requires
            i < self.key_views().len(),
        ensures
            r == may_check(self.key_views()[i as int], kid.deep_view(), algorithm@),
    {
        let entry: &KeyEntry = &self.keys[i];
        if kid.is_some() && !opt_str_eq(opt_as_str(&entry.kid), opt_as_str(kid)) {
            return false;
        }
        match entry.algorithm {
            Some(a) => str_eq(algorithm_name(a), algorithm) && entry.is_long_enough(),
            None => false,
        }
    }

    proof fn lemma_accepted(&self, t: json::Tree, claims: ClaimsView, required: Seq<Seq<char>>)
        requires
            claims_of(t) == Some(claims),
            required == required_claims(
                self.asked_issuer(),
                self.asked_audience(),
                self.audience_optional(),
            ),
            outside::checked_claims(t, self.asked_issuer(), self.asked_audience(), required),
        ensures
            accepted(
                claims,
                self.asked_issuer(),
                self.asked_audience(),
                self.audience_optional(),
            ),
    {
        assert(required[0] == "exp"@);
        assert(required.contains("exp"@));
        if let Some(json::Tree::Array(a)) = json::tree_get(t, "aud"@) {
            assert(all_texts(a));
            let v = Seq::new(a.len(), |i: int| a[i]->Str_0);
            let i = a.index_of(json::Tree::Str(self.asked_audience()->0));
            assert(v[i] == self.asked_audience()->0);
        }
        if self.asked_issuer() is Some {
            assert(required[1] == "iss"@);
            assert(required.contains("iss"@));
        }
        if self.asked_audience() is Some && !self.audience_optional() {
            assert(required[required.len() - 1] == "aud"@);
            assert(required.contains("aud"@));
        }
    }

    /// Checks the token that the headers carry.
    pub fn verify_from_headers(&self, headers: &http::HeaderMap<http::HeaderValue>) -> (r:
        JwtVerificationResult)
        ensures
            match self.token_of(*headers) {
                None => r.deep_view() == JwtView::NoToken,
                Some(token) => self.vouches(token, r.deep_view()),
            },
    {
        match self.extract_token(headers) {
            None => JwtVerificationResult::NoToken,
            Some(token) => self.verify_token(token.as_str()),
        }
    }

    /// Whether the check of a token may come out as given. A token that gives the time
    /// of its issue twice is not verified.
    pub open spec fn vouches(&self, token: Seq<char>, outcome: JwtView) -> bool {
        match self.refusal(token) {
            Some(v) => outcome == v,
            None => if token_text::claims_repeat(token, "iat"@) {
                outcome == unverified()
            } else {
                exists|checks: Seq<Option<json::Tree>>| #[trigger]
                    self.checked(token, checks) && outcome == decision(checks)
            },
        }
    }

    /// Whether the checks of a token by the keys, in their order, may come out as
    /// given.
    pub open spec fn checked(&self, token: Seq<char>, checks: Seq<Option<json::Tree>>) -> bool {
        &&& checks.len() == self.key_views().len()
        &&& forall|i: int|
            0 <= i < checks.len() ==> self.comes_out(
                token,
                i,
                #[trigger] checks[i],
                reached(checks, i),
            )
    }

    /// Whether the turn of a key may come out as given. Where no key before it settled
    /// the matter, a key that may check the token does, and the check comes out in a
    /// way that its arguments allow; any other key has nothing to say.
    pub open spec fn comes_out(
        &self,
        token: Seq<char>,
        i: int,
        value: Option<json::Tree>,
        open: bool,
    ) -> bool {
        match outside::jwt_header_read(token) {
            Ok((algorithm, kid)) if open && may_check(self.key_views()[i], kid, algorithm) => {
                &&& outside::jwt_may_decode(
                    token,
                    algorithm,
                    self.key_views()[i].material,
                    self.asked_issuer(),
                    self.asked_audience(),
                    self.asked_claims(),
                    value,
                )
                &&& value matches Some(t) ==> outside::jwt_payload(
                    token,
                    algorithm,
                    self.key_views()[i].material,
                ) == Some(t) && outside::checked_claims(
                    t,
                    self.asked_issuer(),
                    self.asked_audience(),
                    self.asked_claims(),
                )
            },
            _ => value is None,
        }
    }

    /// The claims that a token must have.
    pub open spec fn asked_claims(&self) -> Seq<Seq<char>> {
        required_claims(self.asked_issuer(), self.asked_audience(), self.audience_optional())
    }

    /// Whether a token makes the given claims under a key of the verifier: the
    /// key may check it, its signature holds under the key, its payload makes the
    /// claims, and they are those that are asked for.
    pub open spec fn shown(&self, token: Seq<char>, i: int, claims: ClaimsView) -> bool {
        &&& 0 <= i < self.key_views().len()
        &&& outside::jwt_header_read(token) matches Ok((algorithm, kid)) && may_check(
            self.key_views()[i],
            kid,
            algorithm,
        ) && (outside::jwt_payload(token, algorithm, self.key_views()[i].material) matches Some(t)
            && claims_of(t) == Some(claims))
        &&& accepted(
            claims,
            self.asked_issuer(),
            self.asked_audience(),
            self.audience_optional(),
        )
    }
}

/// The value of a header as text, whatever the case of its name.
pub open spec fn header_value(
    headers: http::HeaderMap<http::HeaderValue>,
    name: Seq<char>,
) -> Option<Seq<char>> {
    carried(outside::header_values(headers), name)
}

/// The value of a header, given what each header says.
pub open spec fn carried(
    values: Map<Seq<char>, Option<Seq<char>>>,
    name: Seq<char>,
) -> Option<Seq<char>> {
    if outside::header_key(name) is Some && values.contains_key(outside::header_key(name)->0) {
        values[outside::header_key(name)->0]
    } else {
        None
    }
}

proof fn lemma_first_bad(entries: Seq<EntryView>, i: int)
    requires
        0 <= i < entries.len(),
        first_bad(entries.take(i)) is None,
        entries[i].2 is None,
    ensures
        first_bad(entries) == Some(i),
    decreases entries.len(),
{
    if i < entries.len() - 1 {
        assert(entries.drop_last().take(i) =~= entries.take(i));
        lemma_first_bad(entries.drop_last(), i);
    } else {
        assert(entries.take(i) =~= entries.drop_last());
    }
}

/// Where a token proves something, or is found to name no bearer, it makes claims
/// under a key of the verifier from which that follows.
pub proof fn law_outcome_rests_on_a_key(verifier: JwtVerifier, token: Seq<char>, outcome: JwtView)
    requires
        verifier.vouches(token, outcome),
        verifier.refusal(token) is None,
        outcome != unverified(),
    ensures
        exists|i: int, c: ClaimsView| #[trigger]
            verifier.shown(token, i, c) && outcome == verdict(c),
{
    let checks = choose|checks: Seq<Option<json::Tree>>| #[trigger]
        verifier.checked(token, checks) && outcome == decision(checks);
    let i = lemma_some_check_decides(checks);
    let t = checks[i]->0;
    verifier.lemma_accepted(
        t,
        claims_of(t)->0,
        required_claims(
            verifier.asked_issuer(),
            verifier.asked_audience(),
            verifier.audience_optional(),
        ),
    );
    assert(verifier.comes_out(token, i, checks[i], reached(checks, i)));
    assert(verifier.shown(token, i, claims_of(t)->0));
}

proof fn lemma_no_check_decides(checks: Seq<Option<json::Tree>>)
    requires
        decision(checks) == unverified(),
    ensures
        reached(checks, checks.len() as int),
    decreases checks.len(),
{
    if checks.len() > 0 {
        reveal_strlit("JWT missing or empty 'sub' claim");
        reveal_strlit("token signature verification failed");
        assert("JWT missing or empty 'sub' claim"@[0] != "token signature verification failed"@[0]);
        let rest = checks.skip(1);
        assert(settled(checks[0]) is None);
        lemma_no_check_decides(rest);
        assert forall|j: int| 0 <= j < checks.len() implies settled(#[trigger] checks[j])
            is None by {
            if j > 0 {
                assert(rest[j - 1] == checks[j]);
            }
        }
    }
}

/// A token is given up only when every key that may check it was tried: each check
/// came out in a way that its arguments allow, and none settled the matter.
pub proof fn law_every_key_is_tried(verifier: JwtVerifier, token: Seq<char>)
    requires
        verifier.vouches(token, unverified()),
        verifier.refusal(token) is None,
        !token_text::claims_repeat(token, "iat"@),
    ensures
        exists|checks: Seq<Option<json::Tree>>|
            {
                &&& #[trigger] verifier.checked(token, checks)
                &&& forall|i: int|
                    0 <= i < checks.len() ==> settled(#[trigger] checks[i]) is None
                        && verifier.comes_out(token, i, checks[i], true)
            },
{
    let checks = choose|checks: Seq<Option<json::Tree>>| #[trigger]
        verifier.checked(token, checks) && unverified() == decision(checks);
    lemma_no_check_decides(checks);
    assert forall|i: int| 0 <= i < checks.len() implies settled(#[trigger] checks[i]) is None
        && verifier.comes_out(token, i, checks[i], true) by {
        assert(reached(checks, i));
    }
}

/// A key that names no algorithm checks no token, and a key that names one
/// checks only tokens that name the same: no token chooses how it is checked.
pub proof fn law_no_algorithm_confusion(
    key: KeyView,
    kid: Option<Seq<char>>,
    algorithm: Seq<char>,
)
    requires
        key.algorithm is None || algorithm_text(key.algorithm->0) != algorithm,
    ensures
        !may_check(key, kid, algorithm),
{
}

/// A token that is meant for others proves nothing, and one that leaves its
/// audience out proves nothing either, unless that is allowed: where an audience
/// is asked for, a token that proves something names it.
pub proof fn law_verified_for_the_asked_audience(
    verifier: JwtVerifier,
    token: Seq<char>,
    subject: Seq<char>,
    issuer: Option<Seq<char>>,
)
    requires
        verifier.vouches(token, JwtView::Verified { subject, issuer }),
        verifier.asked_audience() is Some,
        !verifier.audience_optional(),
    ensures
        exists|i: int, c: ClaimsView| #[trigger]
            verifier.shown(token, i, c) && c.sub == Some(subject) && match c.aud {
                Some(AudienceView::Single(a)) => a == verifier.asked_audience()->0,
                Some(AudienceView::Multiple(v)) => v.contains(verifier.asked_audience()->0),
                None => false,
            },
{
    law_outcome_rests_on_a_key(verifier, token, JwtView::Verified { subject, issuer });
}

/// A token proves something only if it was issued by the issuer that is asked
/// for.
pub proof fn law_verified_by_the_asked_issuer(
    verifier: JwtVerifier,
    token: Seq<char>,
    subject: Seq<char>,
    issuer: Option<Seq<char>>,
)
    requires
        verifier.vouches(token, JwtView::Verified { subject, issuer }),
        verifier.asked_issuer() is Some,
    ensures
        issuer == verifier.asked_issuer(),
        text::trimmed(subject).len() > 0,
{
    law_outcome_rests_on_a_key(verifier, token, JwtView::Verified { subject, issuer });
}

/// The names of the algorithms that sign.
pub open spec fn signing_names() -> Seq<Seq<char>> {
    seq![
        "HS256"@,
        "HS384"@,
        "HS512"@,
        "ES256"@,
        "ES384"@,
        "RS256"@,
        "RS384"@,
        "RS512"@,
        "PS256"@,
        "PS384"@,
        "PS512"@,
        "EdDSA"@,
    ]
}

proof fn lemma_names_differ()
    ensures
        forall|i: int, j: int|
            0 <= i < j < 12 ==> #[trigger] signing_names()[i] != #[trigger] signing_names()[j],
{
    reveal_strlit("EdDSA");
    reveal_strlit("HS256");
    reveal_strlit("HS384");
    reveal_strlit("HS512");
    reveal_strlit("ES256");
    reveal_strlit("ES384");
    reveal_strlit("RS256");
    reveal_strlit("RS384");
    reveal_strlit("RS512");
    reveal_strlit("PS256");
    reveal_strlit("PS384");
    reveal_strlit("PS512");
    let n = signing_names();
    assert forall|i: int, j: int| 0 <= i < j < 12 implies #[trigger] n[i] != #[trigger] n[j] by {
        if n[i] == n[j] {
            assert(n[i][0] == n[j][0] && n[i][2] == n[j][2] && n[i][3] == n[j][3]);
        }
    }
}

/// A key whose entry names an algorithm that signs checks exactly the tokens whose
/// header names the same one: the name in the entry and the name in the header must
/// be the same word.
pub proof fn law_keys_check_tokens_of_their_own_algorithm(
    kid: Option<Seq<char>>,
    name: Seq<char>,
    material: (Seq<u8>, Option<Seq<u8>>),
    algorithm: Seq<char>,
)
    ensures
        ({
            let key = key_of((kid, Some(name), Some(material)));
            let long = name == "EdDSA"@ && material.1 is None ==> material.0.len() >= 32;
            &&& may_check(key, None, algorithm) <==> algorithm == name && signing_names().contains(
                name,
            ) && long
            &&& may_check(key, kid, algorithm) <==> algorithm == name && signing_names().contains(
                name,
            ) && long
        }),
{
    lemma_names_differ();
    lemma_place_of_name(key_algorithm_of_text(name));
    let n = signing_names();
    let key = key_of((kid, Some(name), Some(material)));
    assert(n[0] == "HS256"@ && n[1] == "HS384"@ && n[2] == "HS512"@ && n[3] == "ES256"@);
    assert(n[4] == "ES384"@ && n[5] == "RS256"@ && n[6] == "RS384"@ && n[7] == "RS512"@);
    assert(n[8] == "PS256"@ && n[9] == "PS384"@ && n[10] == "PS512"@ && n[11] == "EdDSA"@);
    if key.algorithm is Some {
        lemma_only_eddsa(key.algorithm->0);
    }
    if n.contains(name) {
        let i = choose|i: int| 0 <= i < n.len() && n[i] == name;
        assert(key.algorithm is Some);
        assert(algorithm_text(key.algorithm->0) == name);
    } else {
        reveal_strlit("RSA1_5");
    }
}

proof fn lemma_place_of_name(ka: KeyAlgorithm)
    ensures
        signing(ka) matches Some(a) ==> signing_names().contains(algorithm_text(a)),
{
    let n = signing_names();
    if let Some(a) = signing(ka) {
        let i: int = match a {
            JwtAlgorithm::HS256 => 0,
            JwtAlgorithm::HS384 => 1,
            JwtAlgorithm::HS512 => 2,
            JwtAlgorithm::ES256 => 3,
            JwtAlgorithm::ES384 => 4,
            JwtAlgorithm::RS256 => 5,
            JwtAlgorithm::RS384 => 6,
            JwtAlgorithm::RS512 => 7,
            JwtAlgorithm::PS256 => 8,
            JwtAlgorithm::PS384 => 9,
            JwtAlgorithm::PS512 => 10,
            JwtAlgorithm::EdDSA => 11,
        };
        assert(n[i] == algorithm_text(a));
    }
}

/// Each algorithm that signs is read back from its name: the key of an entry that
/// names it verifies by it.
pub proof fn law_algorithm_names_read_back(
    a: JwtAlgorithm,
    b: JwtAlgorithm,
    kid: Option<Seq<char>>,
    material: (Seq<u8>, Option<Seq<u8>>),
)
    ensures
        key_of((kid, Some(algorithm_text(a)), Some(material))).algorithm == Some(a),
        algorithm_text(a) == algorithm_text(b) <==> a == b,
        key_of((kid, None, Some(material))).algorithm is None,
        key_of((kid, Some(algorithm_text(a)), Some(material))).kid == kid,
        key_of((kid, Some(algorithm_text(a)), Some(material))).material == material,
{
    lemma_names_differ();
    let n = signing_names();
    assert(n[0] == "HS256"@ && n[1] == "HS384"@ && n[2] == "HS512"@ && n[3] == "ES256"@);
    assert(n[4] == "ES384"@ && n[5] == "RS256"@ && n[6] == "RS384"@ && n[7] == "RS512"@);
    assert(n[8] == "PS256"@ && n[9] == "PS384"@ && n[10] == "PS512"@ && n[11] == "EdDSA"@);
}

/// A token that names a key is checked by keys of that name only, and one that
/// names none by every key of its algorithm.
pub proof fn law_tokens_choose_their_key_by_name(
    key: KeyView,
    kid: Seq<char>,
    algorithm: Seq<char>,
)
    ensures
        may_check(key, Some(kid), algorithm) <==> key.kid == Some(kid) && may_check(
            key,
            None,
            algorithm,
        ),
{
}

/// The claims of a token are read each from its own field, and are of their kind or
/// left out.
pub proof fn law_claims_are_read_by_name(t: json::Tree)
    ensures
        claims_of(t) matches Some(c) ==> {
            &&& json::tree_get(t, "sub"@) == Some(json::Tree::Str(c.sub->0)) <==> c.sub is Some
            &&& json::tree_get(t, "iss"@) == Some(json::Tree::Str(c.iss->0)) <==> c.iss is Some
            &&& c.exp matches Some(n) ==> (json::tree_get(t, "exp"@) matches Some(
                json::Tree::Number(s),
            ) && natural_of(s) == Some(n))
            &&& c.iat matches Some(n) ==> (json::tree_get(t, "iat"@) matches Some(
                json::Tree::Number(s),
            ) && natural_of(s) == Some(n))
            &&& c.nbf matches Some(n) ==> (json::tree_get(t, "nbf"@) matches Some(
                json::Tree::Number(s),
            ) && natural_of(s) == Some(n))
            &&& c.exp is None ==> blank(json::tree_get(t, "exp"@))
            &&& c.iat is None ==> blank(json::tree_get(t, "iat"@))
            &&& c.nbf is None ==> blank(json::tree_get(t, "nbf"@))
            &&& c.sub is None ==> blank(json::tree_get(t, "sub"@))
            &&& c.iss is None ==> blank(json::tree_get(t, "iss"@))
            &&& c.aud is None ==> blank(json::tree_get(t, "aud"@))
            &&& c.aud matches Some(AudienceView::Single(a)) ==> json::tree_get(t, "aud"@) == Some(
                json::Tree::Str(a),
            )
            &&& c.aud matches Some(AudienceView::Multiple(v)) ==> (json::tree_get(
                t,
                "aud"@,
            ) matches Some(json::Tree::Array(a)) && a.len() == v.len() && forall|i: int|
                0 <= i < a.len() ==> #[trigger] a[i] == json::Tree::Str(v[i]))
        },
        !(t is Object) ==> claims_of(t) is None,
        t is Object && blank(json::tree_get(t, "sub"@)) && blank(json::tree_get(t, "iss"@))
            && blank(json::tree_get(t, "aud"@)) && blank(json::tree_get(t, "exp"@)) && blank(
            json::tree_get(t, "iat"@),
        ) && blank(json::tree_get(t, "nbf"@)) ==> claims_of(t) is Some,
{
}

/// A token proves who its bearer is exactly where its claims name a subject that is
/// not blank; what it proves is that subject, as it stands, and its issuer.
pub proof fn law_subject_is_the_bearer(claims: ClaimsView)
    ensures
        verdict(claims) is Verified <==> (claims.sub matches Some(s) && text::trimmed(s).len() > 0),
        verdict(claims) matches JwtView::Verified { subject, issuer } ==> claims.sub == Some(subject)
            && issuer == claims.iss,
        !(verdict(claims) is Verified) ==> verdict(claims) is Invalid,
{
}

/// What a verified token proves stands in its payload, signed under a key of the
/// verifier that the token may be checked with: the subject, the issuer, and a time
/// at which it ends.
pub proof fn law_verified_tokens_say_so_themselves(
    verifier: JwtVerifier,
    token: Seq<char>,
    subject: Seq<char>,
    issuer: Option<Seq<char>>,
)
    requires
        verifier.vouches(token, JwtView::Verified { subject, issuer }),
    ensures
        exists|i: int, t: json::Tree, algorithm: Seq<char>, kid: Option<Seq<char>>|
            {
                &&& 0 <= i < verifier.key_views().len()
                &&& outside::jwt_header_read(token) == Ok::<
                    (Seq<char>, Option<Seq<char>>),
                    Seq<char>,
                >((algorithm, kid))
                &&& #[trigger] may_check(verifier.key_views()[i], kid, algorithm)
                &&& outside::jwt_payload(token, algorithm, verifier.key_views()[i].material)
                    == Some(t)
                &&& #[trigger] json::tree_get(t, "sub"@) == Some(json::Tree::Str(subject))
                &&& issuer matches Some(s) ==> json::tree_get(t, "iss"@) == Some(json::Tree::Str(s))
                &&& json::tree_get(t, "exp"@) is Some
            },
{
    law_outcome_rests_on_a_key(verifier, token, JwtView::Verified { subject, issuer });
    let (i, c) = choose|i: int, c: ClaimsView| #[trigger]
        verifier.shown(token, i, c) && (JwtView::Verified { subject, issuer }) == verdict(c);
    let (algorithm, kid) = outside::jwt_header_read(token)->Ok_0;
    let t = outside::jwt_payload(token, algorithm, verifier.key_views()[i].material)->0;
    law_claims_are_read_by_name(t);
    assert(may_check(verifier.key_views()[i], kid, algorithm));
    assert(json::tree_get(t, "sub"@) == Some(json::Tree::Str(subject)));
}

/// A token whose header cannot be read, or that names a key that the verifier does
/// not have, proves nothing.
pub proof fn law_unknown_keys_prove_nothing(
    verifier: JwtVerifier,
    token: Seq<char>,
    outcome: JwtView,
)
    requires
        verifier.vouches(token, outcome),
        match outside::jwt_header_read(token) {
            Err(_) => true,
            Ok((_, Some(kid))) => forall|i: int|
                0 <= i < verifier.key_views().len() ==> (#[trigger] verifier.key_views()[i]).kid
                    != Some(kid),
            Ok((_, None)) => false,
        },
    ensures
        outcome is Invalid,
{
}

/// Of the checks of a token by one key after another, the first from which anything
/// follows decides.
pub proof fn law_first_settled_check_decides(checks: Seq<Option<json::Tree>>, i: int)
    requires
        0 <= i < checks.len(),
        settled(checks[i]) is Some,
        forall|j: int| 0 <= j < i ==> settled(#[trigger] checks[j]) is None,
    ensures
        decision(checks) == settled(checks[i])->0,
    decreases checks.len(),
{
    if i > 0 {
        let rest = checks.skip(1);
        assert(rest[i - 1] == checks[i]);
        assert forall|j: int| 0 <= j < i - 1 implies settled(#[trigger] rest[j]) is None by {
            assert(rest[j] == checks[j + 1]);
        }
        law_first_settled_check_decides(rest, i - 1);
        assert(settled(checks[0]) is None);
    }
}

/// A set of keys is taken whole or not at all: every entry becomes a key with its
/// own id and its own material, in order, and one entry that is no key spoils the
/// set, as does a set without entries.
pub proof fn law_key_sets_are_taken_whole(text: Seq<char>)
    ensures
        match keys_of(text) {
            Ok(keys) => outside::jwk_set_read(text) matches Some(entries) && entries.len() > 0
                && keys.len() == entries.len() && forall|i: int|
                0 <= i < entries.len() ==> (#[trigger] keys[i]).kid == entries[i].0
                    && entries[i].2 == Some(keys[i].material) && (entries[i].1 is None
                    ==> keys[i].algorithm is None),
            Err(_) => match outside::jwk_set_read(text) {
                None => true,
                Some(entries) => entries.len() == 0 || exists|i: int|
                    0 <= i < entries.len() && (#[trigger] entries[i]).2 is None,
            },
        },
{
    if let Some(entries) = outside::jwk_set_read(text) {
        lemma_bad_entries(entries);
    }
}

proof fn lemma_bad_entries(entries: Seq<EntryView>)
    ensures
        match first_bad(entries) {
            None => forall|i: int| 0 <= i < entries.len() ==> (#[trigger] entries[i]).2 is Some,
            Some(i) => 0 <= i < entries.len() && entries[i].2 is None,
        },
    decreases entries.len(),
{
    if entries.len() > 0 {
        let init = entries.drop_last();
        lemma_bad_entries(init);
        if first_bad(entries) is None {
            assert forall|i: int| 0 <= i < entries.len() implies (#[trigger] entries[i]).2
                is Some by {
                if i < init.len() {
                    assert(init[i] == entries[i]);
                } else {
                    assert(entries.last() == entries[i]);
                }
            }
        }
    }
}

/// A token must say when it ends, and who issued it and for whom where that is
/// asked for.
pub proof fn law_asked_claims_are_required(
    issuer: Option<Seq<char>>,
    audience: Option<Seq<char>>,
    optional: bool,
)
    ensures
        required_claims(issuer, audience, optional).contains("exp"@),
        required_claims(issuer, audience, optional).contains("iss"@) <==> issuer is Some,
        required_claims(issuer, audience, optional).contains("aud"@) <==> audience is Some
            && !optional,
{
    reveal_strlit("exp");
    reveal_strlit("iss");
    reveal_strlit("aud");
    let r = required_claims(issuer, audience, optional);
    assert("exp"@[0] == 'e' && "iss"@[0] == 'i' && "aud"@[0] == 'a');
    assert(r[0] == "exp"@);
    if issuer is Some {
        assert(r[1] == "iss"@);
    }
    if audience is Some && !optional {
        assert(r[r.len() - 1] == "aud"@);
    }
}

/// The token is what follows the prefix in its header, whatever it is, and a header
/// that does not begin with the prefix carries none.
pub proof fn law_token_follows_the_prefix(verifier: JwtVerifier, value: Seq<char>)
    ensures
        verifier.token_in(Some(verifier.prefix() + value)) == Some(value),
        verifier.token_in(None) is None,
        verifier.token_in(Some(value)) matches Some(t) ==> value == verifier.prefix() + t,
{
    let p = verifier.prefix();
    let v = p + value;
    assert(v.skip(p.len() as int) =~= value);
    assert(text::has_prefix(v, p)) by {
        assert(v.take(p.len() as int) =~= p);
    }
    if p.len() == 0 {
        assert(v =~= value);
    }
    if let Some(t) = verifier.token_in(Some(value)) {
        assert(value =~= p + t);
    }
}

/// A number that a claim holds is the decimal number that its digits write, and a
/// claim whose text is not made of digits alone holds none.
pub proof fn law_claim_numbers_are_decimal(digits: Seq<char>, digit: char)
    ensures
        digits_value(digits) matches Some(n) ==> '0' <= digit <= '9' ==> digits_value(
            digits.push(digit),
        ) == Some((10 * n + (digit as int - '0' as int)) as nat),
        !('0' <= digit <= '9') ==> digits_value(digits.push(digit)) is None,
        natural_of(seq![]) is None,
        natural_of(digits) matches Some(n) ==> digits_value(digits) == Some(n as nat),
        digits.len() > 0 && natural_of(digits) is None ==> (digits_value(digits) matches Some(n)
            ==> n > u64::MAX),
{
    assert(digits.push(digit).drop_last() =~= digits);
}

/// Whether an entry of a set of keys speaks for a token with the given payload: its id
/// is the one that the token names, if it names one, and it names the token's own
/// algorithm.
pub open spec fn speaks_for(
    entry: EntryView,
    token: Seq<char>,
    payload: json::Tree,
) -> bool {
    &&& outside::jwt_header_read(token) matches Ok((algorithm, kid)) && entry.1 == Some(algorithm)
        && (kid is Some ==> entry.0 == kid) && (entry.2 matches Some(material)
        && outside::jwt_payload(token, algorithm, material) == Some(payload))
}

/// From the text of a set of keys to the bearer of a token: a token proves something
/// only if an entry of the set that names the token's own algorithm speaks for it; the
/// bearer is the subject of the payload that this entry vouches for, and the issuer and
/// the audience are the ones that were asked for.
pub proof fn law_verifiers_trust_their_key_set(
    keys: &str,
    config: JwksConfig,
    made: Result<JwtVerifier, String>,
    token: &str,
    r: JwtVerificationResult,
)
    requires
        call_ensures(JwtVerifier::from_jwks_json, (keys, &config), made),
        made matches Ok(v) && call_ensures(JwtVerifier::verify_token, (&v, token), r),
        r is Verified,
    ensures
        config.issuer is Some ==> r->issuer.deep_view() == config.issuer.deep_view(),
        text::trimmed(r->subject@).len() > 0,
        outside::jwk_set_read(keys@) matches Some(entries) && exists|i: int, t: json::Tree|
            0 <= i < entries.len() && #[trigger] speaks_for(entries[i], token@, t)
                && json::tree_get(t, "sub"@) == Some(json::Tree::Str(r->subject@)) && (
            config.audience matches Some(a) ==> config.allow_missing_audience || json::tree_get(
                t,
                "aud"@,
            ) == Some(json::Tree::Str(a@)) || (json::tree_get(t, "aud"@) matches Some(
                json::Tree::Array(all),
            ) && all.contains(json::Tree::Str(a@)))),
{
    let v = made->Ok_0;
    let outcome = r.deep_view();
    law_outcome_rests_on_a_key(v, token@, outcome);
    let (i, c) = choose|i: int, c: ClaimsView| #[trigger]
        v.shown(token@, i, c) && outcome == verdict(c);
    let entries = outside::jwk_set_read(keys@)->0;
    law_key_sets_are_taken_whole(keys@);
    let (algorithm, kid) = outside::jwt_header_read(token@)->Ok_0;
    let entry = entries[i];
    assert(v.key_views()[i] == key_of(entry));
    assert(entry.1 is Some);
    let name = entry.1->0;
    law_keys_check_tokens_of_their_own_algorithm(entry.0, name, entry.2->0, algorithm);
    assert(may_check(key_of((entry.0, Some(name), Some(entry.2->0))), None, algorithm));
    let t = outside::jwt_payload(token@, algorithm, v.key_views()[i].material)->0;
    law_claims_are_read_by_name(t);
    assert(speaks_for(entries[i], token@, t));
    if let Some(a) = config.audience {
        if !config.allow_missing_audience {
            if let Some(AudienceView::Multiple(all)) = c.aud {
                let j = choose|j: int| 0 <= j < all.len() && all[j] == a@;
                let told = json::tree_get(t, "aud"@)->0->Array_0;
                assert(told[j] == json::Tree::Str(a@));
            }
        }
    }
}

/// A verifier reads the token out of the header that it is configured with, behind the
/// words that it is configured with, and a request without such a header brings none.
pub proof fn law_verifiers_read_their_header(
    keys: &str,
    config: JwksConfig,
    made: Result<JwtVerifier, String>,
    headers: http::HeaderMap<http::HeaderValue>,
    token: Option<String>,
    r: JwtVerificationResult,
)
    requires
        call_ensures(JwtVerifier::from_jwks_json, (keys, &config), made),
        made matches Ok(v) && call_ensures(JwtVerifier::extract_token, (&v, &headers), token)
            && call_ensures(JwtVerifier::verify_from_headers, (&v, &headers), r),
    ensures
        token matches Some(t) ==> header_value(headers, config.header_name@) == Some(
            config.header_prefix@ + t@,
        ),
        token is None ==> r is NoToken,
        header_value(headers, config.header_name@) is None ==> token is None,
        header_value(headers, config.header_name@) matches Some(value) ==> (token is Some
            <==> config.header_prefix@.len() <= value.len() && value.take(
            config.header_prefix@.len() as int,
        ) == config.header_prefix@),
{
    let v = made->Ok_0;
    if let Some(value) = header_value(headers, config.header_name@) {
        law_token_follows_the_prefix(v, value);
        if v.prefix().len() == 0 {
            assert(value.take(0) =~= v.prefix());
        }
    }
}

/// The claims of a token lead to a bearer exactly where they name one, and the checks
/// of a token lead to what the first of them says that says anything.
pub proof fn law_bearers_are_named_by_their_token(
    claims: StandardClaims,
    r: JwtVerificationResult,
    checks: Vec<Option<Json>>,
    decided: JwtVerificationResult,
)
    requires
        call_ensures(conclude, (claims,), r),
        call_ensures(decide, (&checks,), decided),
    ensures
        r is Verified <==> (claims.sub matches Some(s) && text::trimmed(s@).len() > 0),
        r matches JwtVerificationResult::Verified { subject, issuer } ==> subject@ == claims.sub->0@
            && issuer.deep_view() == claims.iss.deep_view(),
        checks@.len() == 0 ==> decided is Invalid,
        decided is Verified ==> exists|i: int|
            0 <= i < checks@.len() && (#[trigger] checks@[i]) is Some,
{
    if decided is Verified {
        let i = lemma_some_check_decides(checks.deep_view());
        assert(checks.deep_view()[i] is Some);
        assert(checks@[i] is Some);
    }
}

/// A check that did not let the token pass, or whose claims cannot be read, says nothing
/// and leaves the token to the next key; where no key says anything the token proves
/// nothing.
pub proof fn law_silent_checks_are_passed_over(
    first: Option<json::Tree>,
    rest: Seq<Option<json::Tree>>,
)
    requires
        first is None || claims_of(first->0) is None,
    ensures
        decision(seq![first] + rest) == decision(rest),
        decision(seq![]) is Invalid,
{
    let all = seq![first] + rest;
    assert(all[0] == first);
    assert(all.skip(1) =~= rest);
}

} // verus!
