//! Identities that come from tokens, as plugins hand them on.
use vstd::prelude::*;
use vstd::string::*;

use crate::identity::Attributes;
use crate::jwt;
use crate::jwt::{JwtVerificationResult, JwtVerifier};
use crate::outside;
use crate::policy::PluginIdentity;

verus! {

/// The id of the plugin that checks tokens against a set of keys.
pub const JWT_PLUGIN_ID: &'static str = "dev.mcpg.identity.jwt";

/// The name of the plugin that checks tokens against a set of keys.
pub const JWT_PLUGIN_NAME: &'static str = "JWT Identity Resolver";

/// The id of the plugin that asks an identity provider.
pub const OIDC_PLUGIN_ID: &'static str = "dev.mcpg.identity.oidc";

/// What a plugin finds out about a caller.
#[derive(Debug)]
pub enum IdentityResolution {
    /// Who the caller is.
    Resolved { identity: PluginIdentity },
    /// The caller says nothing of itself.
    Unclaimed,
    /// The caller says something that is not so; the text says why.
    Invalid { reason: String },
}

/// What a plugin finds out about a caller, over plain values.
pub enum ResolutionView {
    Resolved {
        kind: Seq<char>,
        trust_level: Seq<char>,
        subject_id: Option<Seq<char>>,
        auth_provider: Option<Seq<char>>,
        issuer: Option<Seq<char>>,
        roles: Seq<Seq<char>>,
        groups: Seq<Seq<char>>,
        scopes: Seq<Seq<char>>,
        attributes: Seq<(Seq<char>, Seq<char>)>,
    },
    Unclaimed,
    Invalid { reason: Seq<char> },
}

impl DeepView for IdentityResolution {
    type V = ResolutionView;

    open spec fn deep_view(&self) -> ResolutionView {
        match self {
            IdentityResolution::Resolved { identity } => ResolutionView::Resolved {
                kind: identity.kind@,
                trust_level: identity.trust_level@,
                subject_id: identity.subject_id.deep_view(),
                auth_provider: identity.auth_provider.deep_view(),
                issuer: identity.issuer.deep_view(),
                roles: identity.roles.deep_view(),
                groups: identity.groups.deep_view(),
                scopes: identity.scopes.deep_view(),
                attributes: identity.attributes.pairs(),
            },
            IdentityResolution::Unclaimed => ResolutionView::Unclaimed,
            IdentityResolution::Invalid { reason } => ResolutionView::Invalid { reason: reason@ },
        }
    }
}

/// What follows from the check of a token: its bearer is who the token says, and
/// nothing more is known of it.
pub open spec fn resolution(outcome: jwt::JwtView) -> ResolutionView {
    match outcome {
        jwt::JwtView::Verified { subject, issuer } => ResolutionView::Resolved {
            kind: "verified"@,
            trust_level: "verified"@,
            subject_id: Some(subject),
            auth_provider: Some("jwt"@),
            issuer,
            roles: seq![],
            groups: seq![],
            scopes: seq![],
            attributes: seq![],
        },
        jwt::JwtView::NoToken => ResolutionView::Unclaimed,
        jwt::JwtView::Invalid(reason) => ResolutionView::Invalid { reason },
    }
}

/// What follows from the check of a token.
pub fn resolution_of(outcome: JwtVerificationResult) -> (r: IdentityResolution)
    ensures
        r.deep_view() == resolution(outcome.deep_view()),
{
    match outcome {
        JwtVerificationResult::Verified { subject, issuer } => {
            let roles: Vec<String> = Vec::new();
            let groups: Vec<String> = Vec::new();
            let scopes: Vec<String> = Vec::new();
            proof {
                assert(roles.deep_view() =~= seq![]);
                assert(groups.deep_view() =~= seq![]);
                assert(scopes.deep_view() =~= seq![]);
            }
            IdentityResolution::Resolved {
                identity: PluginIdentity {
                    kind: "verified".to_owned(),
                    trust_level: "verified".to_owned(),
                    subject_id: Some(subject),
                    auth_provider: Some("jwt".to_owned()),
                    issuer,
                    roles,
                    groups,
                    scopes,
                    attributes: Attributes::new(),
                },
            }
        },
        JwtVerificationResult::NoToken => IdentityResolution::Unclaimed,
        JwtVerificationResult::Invalid(reason) => IdentityResolution::Invalid { reason },
    }
}

/// What a run of headers amounts to: of several with one name the last counts,
/// and those that are no headers are passed over.
pub open spec fn headers_of(pairs: Seq<(String, String)>) -> Map<Seq<char>, Option<Seq<char>>>
    decreases pairs.len(),
{
    if pairs.len() == 0 {
        Map::empty()
    } else {
        let before = headers_of(pairs.drop_last());
        let (name, value) = pairs.last();
        if outside::header_key(name@) is Some && outside::header_value_valid(value@) {
            before.insert(outside::header_key(name@)->0, outside::header_value_text(value@))
        } else {
            before
        }
    }
}

/// How many names a map of headers is sure to have room for.
pub const HEADER_ROOM: usize = 6_553;

/// Whether a run of headers has no more names than a map is sure to have room
/// for. Those that are no headers, and repeated ones, do not count.
pub open spec fn headers_fit(pairs: Seq<(String, String)>) -> bool {
    headers_of(pairs).dom().len() <= HEADER_ROOM
}

proof fn lemma_headers_grow(pairs: Seq<(String, String)>, i: int)
    requires
        0 <= i <= pairs.len(),
    ensures
        headers_of(pairs).dom().finite(),
        headers_of(pairs.take(i)).dom().finite(),
        headers_of(pairs.take(i)).dom().len() <= headers_of(pairs).dom().len(),
    decreases pairs.len(),
{
    if i < pairs.len() {
        assert(pairs.drop_last().take(i) =~= pairs.take(i));
        lemma_headers_grow(pairs.drop_last(), i);
    } else {
        assert(pairs.take(i) =~= pairs);
        if i > 0 {
            lemma_headers_grow(pairs.drop_last(), i - 1);
        }
    }
}

/// Whether a run of headers has no more names than a map is sure to have room
/// for.
pub fn has_room(pairs: &Vec<(String, String)>) -> (r: bool)
    ensures
        r == headers_fit(pairs@),
{
    let mut m: http::HeaderMap<http::HeaderValue> = outside::header_map_new();
    let mut i: usize = 0;
    proof {
        assert(headers_of(pairs@.take(0)) =~= Map::empty());
        assert(outside::header_values(m) =~= Map::empty());
    }
    while i < pairs.len()
        invariant
            i <= pairs@.len(),
            outside::header_values(m) == headers_of(pairs@.take(i as int)),
        decreases pairs.len() - i,
    {
        proof {
            assert(pairs@.take(i + 1).drop_last() =~= pairs@.take(i as int));
            lemma_headers_grow(pairs@, i as int);
        }
        if outside::header_count(&m) > HEADER_ROOM {
            return false;
        }
        let (name, value): &(String, String) = &pairs[i];
        outside::header_insert(&mut m, name.as_str(), value.as_str());
        i += 1;
    }
    proof {
        assert(pairs@.take(pairs@.len() as int) =~= pairs@);
    }
    outside::header_count(&m) <= HEADER_ROOM
}

/// Makes a map of headers from a run of pairs.
pub fn header_map(pairs: &Vec<(String, String)>) -> (r: http::HeaderMap<http::HeaderValue>)
    requires
        headers_fit(pairs@),
    ensures
        outside::header_values(r) == headers_of(pairs@),
{
    let mut m: http::HeaderMap<http::HeaderValue> = outside::header_map_new();
    proof {
        assert(outside::header_values(m) =~= Map::empty());
        assert(headers_of(pairs@.take(0)) =~= Map::empty());
    }
    let mut i: usize = 0;
    while i < pairs.len()
        invariant
            i <= pairs@.len(),
            headers_fit(pairs@),
            outside::header_values(m) == headers_of(pairs@.take(i as int)),
        decreases pairs.len() - i,
    {
        proof {
            assert(pairs@.take(i + 1).drop_last() =~= pairs@.take(i as int));
            lemma_headers_grow(pairs@, i as int);
        }
        let (name, value): &(String, String) = &pairs[i];
        outside::header_insert(&mut m, name.as_str(), value.as_str());
        i += 1;
    }
    proof {
        assert(pairs@.take(pairs@.len() as int) =~= pairs@);
    }
    m
}

/// A plugin that checks tokens against a set of keys.
pub struct JwtIdentityPlugin {
    pub verifier: JwtVerifier,
}

impl JwtIdentityPlugin {
    /// A plugin that checks tokens with a verifier.
    pub fn new(verifier: JwtVerifier) -> (r: JwtIdentityPlugin)
        ensures
            r.verifier == verifier,
    {
        JwtIdentityPlugin { verifier }
    }

    /// The id of the plugin.
    pub fn id(&self) -> (r: &'static str)
        ensures
            r@ == JWT_PLUGIN_ID@,
    {
        JWT_PLUGIN_ID
    }

    /// Finds out who a caller is from the headers of its request.
    pub fn resolve_identity(&self, headers: &Vec<(String, String)>) -> (r: IdentityResolution)
        requires
            headers_fit(headers@),
        ensures
            resolved(self.verifier, headers@, r.deep_view()),
    {
        let map: http::HeaderMap<http::HeaderValue> = header_map(headers);
        let outcome: JwtVerificationResult = self.verifier.verify_from_headers(&map);
        let ghost v = outcome.deep_view();
        proof {
            assert(jwt::header_value(map, self.verifier.header()) == jwt::carried(
                headers_of(headers@),
                self.verifier.header(),
            ));
            if self.verifier.token_of(map) is Some {
                assert(self.verifier.vouches(self.verifier.token_of(map)->0, v));
            }
        }
        resolution_of(outcome)
    }
}

/// Whether a run of headers may be resolved as given: what the token that they
/// carry proves, or that they carry none.
pub open spec fn resolved(
    verifier: JwtVerifier,
    headers: Seq<(String, String)>,
    r: ResolutionView,
) -> bool {
    match verifier.token_in(jwt::carried(headers_of(headers), verifier.header())) {
        None => r == ResolutionView::Unclaimed,
        Some(token) => exists|v: jwt::JwtView| #[trigger]
            verifier.vouches(token, v) && r == resolution(v),
    }
}

/// A token that proves its bearer resolves to that subject and that issuer, as
/// proven and with no claims besides; no token resolves to nobody, and a bad one is
/// told to be bad.
pub proof fn law_tokens_resolve_to_their_bearer(outcome: jwt::JwtView)
    ensures
        match (outcome, resolution(outcome)) {
            (
                jwt::JwtView::Verified { subject, issuer },
                ResolutionView::Resolved {
                    kind,
                    trust_level,
                    subject_id,
                    auth_provider,
                    issuer: i,
                    roles,
                    groups,
                    scopes,
                    attributes,
                },
            ) => subject_id == Some(subject) && i == issuer && kind == "verified"@ && trust_level
                == "verified"@ && auth_provider == Some("jwt"@) && roles.len() == 0 && groups.len()
                == 0 && scopes.len() == 0 && attributes.len() == 0,
            (jwt::JwtView::NoToken, ResolutionView::Unclaimed) => true,
            (jwt::JwtView::Invalid(e), ResolutionView::Invalid { reason }) => reason == e,
            _ => false,
        },
{
}

/// Of several headers of one name the last one counts, and one that is no header
/// counts nothing.
pub proof fn law_last_header_counts(
    pairs: Seq<(String, String)>,
    name: String,
    value: String,
    other: Seq<char>,
)
    ensures
        ({
            let after = headers_of(pairs.push((name, value)));
            let valid = outside::header_key(name@) is Some && outside::header_value_valid(value@);
            &&& valid ==> after.contains_key(outside::header_key(name@)->0)
                && after[outside::header_key(name@)->0] == outside::header_value_text(value@)
            &&& !valid ==> after == headers_of(pairs)
            &&& valid && other != outside::header_key(name@)->0 ==> (after.contains_key(other)
                <==> headers_of(pairs).contains_key(other)) && (headers_of(pairs).contains_key(other)
                ==> after[other] == headers_of(pairs)[other])
        }),
{
    assert(pairs.push((name, value)).drop_last() =~= pairs);
}

/// A request is resolved by the token in the verifier's own header and by nothing
/// else; what it resolves to is what that token proves.
pub proof fn law_only_the_token_speaks(
    verifier: JwtVerifier,
    headers: Seq<(String, String)>,
    r: ResolutionView,
)
    requires
        resolved(verifier, headers, r),
    ensures
        r is Unclaimed ==> match jwt::carried(headers_of(headers), verifier.header()) {
            None => true,
            Some(v) => verifier.token_in(Some(v)) is None || exists|o: jwt::JwtView| #[trigger]
                verifier.vouches(verifier.token_in(Some(v))->0, o) && o is NoToken,
        },
        r is Resolved ==> (jwt::carried(headers_of(headers), verifier.header()) matches Some(v) && (
        verifier.token_in(Some(v)) matches Some(token) && exists|o: jwt::JwtView| #[trigger]
            verifier.vouches(token, o) && o is Verified)),
{
}

/// A request is resolved to the bearer that the token in the verifier's own header
/// names, with the issuer of that token; a request whose header carries no token is
/// left to others.
pub proof fn law_bearers_are_who_their_token_names(
    plugin: JwtIdentityPlugin,
    headers: Vec<(String, String)>,
    r: IdentityResolution,
)
    requires
        headers_fit(headers@),
        call_ensures(JwtIdentityPlugin::resolve_identity, (&plugin, &headers), r),
    ensures
        plugin.verifier.token_in(
            jwt::carried(headers_of(headers@), plugin.verifier.header()),
        ) is None ==> r.deep_view() is Unclaimed,
        r.deep_view() matches ResolutionView::Resolved {
            subject_id,
            issuer,
            trust_level,
            scopes,
            ..
        } ==> trust_level == "verified"@ && scopes.len() == 0 && (plugin.verifier.token_in(
            jwt::carried(headers_of(headers@), plugin.verifier.header()),
        ) matches Some(token) && subject_id is Some && plugin.verifier.vouches(
            token,
            jwt::JwtView::Verified { subject: subject_id->0, issuer },
        )),
{
}

} // verus!
