//! Who is calling, and how far that is trusted.
use vstd::prelude::*;
use vstd::string::*;

use crate::order;
use crate::order::str_le;
use crate::outside;
use crate::text;
use crate::text::str_eq;

verus! {

/// The identifier of one gateway request.
#[derive(Debug, Clone, PartialEq, Eq)]
pub struct GatewayRequestId(String);

impl GatewayRequestId {
    /// The identifier's text.
    pub closed spec fn text(self) -> Seq<char> {
        self.0@
    }

    /// Whether the identifier is the text of a random UUID.
    pub open spec fn is_random(self) -> bool {
        exists|n: nat| #[trigger] outside::random_uuid_number(n) && self.text() == outside::uuid_view(
            n,
        )
    }

    /// A fresh random identifier.
    pub fn new() -> (r: GatewayRequestId)
        ensures
            r.is_random(),
    {
        let n: u128 = outside::random_uuid();
        GatewayRequestId(outside::uuid_text(n))
    }

    /// The identifier with a given text.
    pub fn of(text: &str) -> (r: GatewayRequestId)
        ensures
            r.text() == text@,
    {
        GatewayRequestId(text.to_owned())
    }

    /// The identifier's text.
    pub fn as_str(&self) -> (r: &str)
        ensures
            r@ == self.text(),
    {
        self.0.as_str()
    }
}

impl Default for GatewayRequestId {
    fn default() -> (r: GatewayRequestId)
        ensures
            r.is_random(),
    {
        GatewayRequestId::new()
    }
}

/// How a request arrived.
#[derive(Debug, Clone, Copy, PartialEq, Eq, Structural)]
pub enum TransportKind {
    Http,
    Stdio,
}

/// The name of a transport.
pub open spec fn transport_text(t: TransportKind) -> Seq<char> {
    match t {
        TransportKind::Http => "http"@,
        TransportKind::Stdio => "stdio"@,
    }
}

/// The name of a transport.
pub fn transport_label(t: &TransportKind) -> (r: &'static str)
    ensures
        r@ == transport_text(*t),
{
    match t {
        TransportKind::Http => "http",
        TransportKind::Stdio => "stdio",
    }
}

/// How far a caller is trusted, from least to most.
#[derive(Debug, Clone, Copy, PartialEq, Eq, PartialOrd, Ord, Structural)]
pub enum RequestTrustLevel {
    Unauthenticated,
    HeaderAsserted,
    Verified,
}

impl RequestTrustLevel {
    /// The place of a level among the levels.
    pub open spec fn rank(self) -> int {
        match self {
            RequestTrustLevel::Unauthenticated => 0,
            RequestTrustLevel::HeaderAsserted => 1,
            RequestTrustLevel::Verified => 2,
        }
    }

    /// Whether this level is lower than another.
    pub fn below(self, other: RequestTrustLevel) -> (r: bool)
        ensures
            r == (self.rank() < other.rank()),
    {
        match (self, other) {
            (RequestTrustLevel::Unauthenticated, RequestTrustLevel::Unauthenticated) => false,
            (RequestTrustLevel::Unauthenticated, _) => true,
            (RequestTrustLevel::HeaderAsserted, RequestTrustLevel::Verified) => true,
            _ => false,
        }
    }
}

/// The name of a trust level in configuration and policies.
pub open spec fn trust_text(level: RequestTrustLevel) -> Seq<char> {
    match level {
        RequestTrustLevel::Unauthenticated => "unauthenticated"@,
        RequestTrustLevel::HeaderAsserted => "header_asserted"@,
        RequestTrustLevel::Verified => "verified"@,
    }
}

/// The name of a trust level in configuration and policies.
pub fn trust_name(level: RequestTrustLevel) -> (r: &'static str)
    ensures
        r@ == trust_text(level),
{
    match level {
        RequestTrustLevel::Unauthenticated => "unauthenticated",
        RequestTrustLevel::HeaderAsserted => "header_asserted",
        RequestTrustLevel::Verified => "verified",
    }
}

/// The level that a name stands for; a name that is not known stands for the
/// lowest.
pub open spec fn trust_of_text(name: Seq<char>) -> RequestTrustLevel {
    if name == "verified"@ {
        RequestTrustLevel::Verified
    } else if name == "header_asserted"@ {
        RequestTrustLevel::HeaderAsserted
    } else {
        RequestTrustLevel::Unauthenticated
    }
}

/// The level that a name stands for; a name that is not known stands for the
/// lowest.
pub fn trust_of_name(name: &str) -> (r: RequestTrustLevel)
    ensures
        r == trust_of_text(name@),
{
    if str_eq(name, "verified") {
        RequestTrustLevel::Verified
    } else if str_eq(name, "header_asserted") {
        RequestTrustLevel::HeaderAsserted
    } else {
        RequestTrustLevel::Unauthenticated
    }
}

/// Reading back the name of a level gives the level.
pub proof fn law_trust_names_read_back(level: RequestTrustLevel)
    ensures
        trust_of_text(trust_text(level)) == level,
{
    reveal_strlit("unauthenticated");
    reveal_strlit("header_asserted");
    reveal_strlit("verified");
    assert("unauthenticated"@.len() == 15);
    assert("header_asserted"@.len() == 15);
    assert("unauthenticated"@[0] != "header_asserted"@[0]);
}

/// How a trust level is printed by its debug format.
pub open spec fn trust_debug_text(level: RequestTrustLevel) -> Seq<char> {
    match level {
        RequestTrustLevel::Unauthenticated => "Unauthenticated"@,
        RequestTrustLevel::HeaderAsserted => "HeaderAsserted"@,
        RequestTrustLevel::Verified => "Verified"@,
    }
}

/// How a trust level is printed by its debug format.
pub fn trust_debug(level: RequestTrustLevel) -> (r: &'static str)
    ensures
        r@ == trust_debug_text(level),
{
    match level {
        RequestTrustLevel::Unauthenticated => "Unauthenticated",
        RequestTrustLevel::HeaderAsserted => "HeaderAsserted",
        RequestTrustLevel::Verified => "Verified",
    }
}

/// The named attributes of a caller, in ascending order of their names.
#[derive(Debug, PartialEq, Eq)]
pub struct Attributes {
    entries: Vec<(String, String)>,
}

spec fn ascending(entries: Seq<(String, String)>) -> bool {
    forall|i: int, j: int|
        0 <= i < j < entries.len() ==> order::lex_le(
            (#[trigger] entries[i]).0@,
            (#[trigger] entries[j]).0@,
        ) && entries[i].0@ != entries[j].0@
}

impl Attributes {
    #[verifier::type_invariant]
    spec fn in_order(self) -> bool {
        ascending(self.entries@)
    }

    /// The attributes as pairs of a name and a value, in ascending order of
    /// their names.
    pub closed spec fn pairs(&self) -> Seq<(Seq<char>, Seq<char>)> {
        Seq::new(self.entries@.len(), |i: int| (self.entries@[i].0@, self.entries@[i].1@))
    }

    /// No attributes.
    pub fn new() -> (r: Attributes)
        ensures
            r.pairs() == Seq::<(Seq<char>, Seq<char>)>::empty(),
    {
        let r: Attributes = Attributes { entries: Vec::new() };
        proof {
            assert(r.pairs() =~= Seq::<(Seq<char>, Seq<char>)>::empty());
        }
        r
    }

    /// The number of attributes. The names are in ascending order, and each
    /// occurs once.
    pub fn len(&self) -> (r: usize)
        ensures
            r == self.pairs().len(),
            forall|i: int, j: int|
                0 <= i < j < self.pairs().len() ==> order::lex_le(
                    (#[trigger] self.pairs()[i]).0,
                    (#[trigger] self.pairs()[j]).0,
                ) && self.pairs()[i].0 != self.pairs()[j].0,
    {
        proof {
            use_type_invariant(self);
            assert forall|i: int, j: int| 0 <= i < j < self.pairs().len() implies order::lex_le(
                (#[trigger] self.pairs()[i]).0,
                (#[trigger] self.pairs()[j]).0,
            ) && self.pairs()[i].0 != self.pairs()[j].0 by {
                assert(self.entries@[i].0@ == self.pairs()[i].0);
                assert(self.entries@[j].0@ == self.pairs()[j].0);
            }
        }
        self.entries.len()
    }

    /// The name of an attribute.
    pub fn name_at(&self, i: usize) -> (r: &str)
        requires
            i < self.pairs().len(),
        ensures
            r@ == self.pairs()[i as int].0,
    {
        self.entries[i].0.as_str()
    }

    /// The value of an attribute.
    pub fn value_at(&self, i: usize) -> (r: &str)
        requires
            i < self.pairs().len(),
        ensures
            r@ == self.pairs()[i as int].1,
    {
        self.entries[i].1.as_str()
    }

    /// The attributes with one more, or with a new value for one.
    pub fn with(self, name: &str, value: &str) -> (r: Attributes)
        ensures
            r.pairs().contains((name@, value@)),
            forall|n: Seq<char>, v: Seq<char>|
                n != name@ ==> (r.pairs().contains((n, v)) <==> self.pairs().contains((n, v))),
            forall|v: Seq<char>| r.pairs().contains((name@, v)) ==> v == value@,
    {
        proof {
            use_type_invariant(&self);
        }
        let entries: Vec<(String, String)> = self.entries;
        let ghost before = entries@;
        let mut at: usize = 0;
        while at < entries.len() && !str_le(name, entries[at].0.as_str())
            invariant
                at <= entries@.len(),
                entries@ == before,
                forall|j: int| 0 <= j < at ==> !order::lex_le(name@, (#[trigger] before[j]).0@),
            decreases entries.len() - at,
        {
            at += 1;
        }
        let mut entries: Vec<(String, String)> = entries;
        let row: (String, String) = (name.to_owned(), value.to_owned());
        if at < entries.len() && str_eq(entries[at].0.as_str(), name) {
            entries.set(at, row);
        } else {
            entries.insert(at, row);
        }
        proof {
            lemma_placed(before, entries@, at as int, row);
        }
        Attributes { entries }
    }
}

spec fn pairs_of(entries: Seq<(String, String)>) -> Seq<(Seq<char>, Seq<char>)> {
    Seq::new(entries.len(), |i: int| (entries[i].0@, entries[i].1@))
}

proof fn lemma_placed(
    before: Seq<(String, String)>,
    after: Seq<(String, String)>,
    at: int,
    row: (String, String),
)
    requires
        ascending(before),
        0 <= at <= before.len(),
        forall|j: int| 0 <= j < at ==> !order::lex_le(row.0@, (#[trigger] before[j]).0@),
        at < before.len() ==> order::lex_le(row.0@, before[at].0@),
        after == (if at < before.len() && before[at].0@ == row.0@ {
            before.update(at, row)
        } else {
            before.insert(at, row)
        }),
    ensures
        ascending(after),
        pairs_of(after).contains((row.0@, row.1@)),
        forall|n: Seq<char>, v: Seq<char>|
            n != row.0@ ==> (pairs_of(after).contains((n, v)) <==> pairs_of(before).contains(
                (n, v),
            )),
        forall|v: Seq<char>| pairs_of(after).contains((row.0@, v)) ==> v == row.1@,
{
    order::lemma_total_order();
    let le = order::text_order();
    let x = row.0@;
    let replaced = at < before.len() && before[at].0@ == x;
    assert forall|j: int| 0 <= j < at implies le((#[trigger] before[j]).0@, x) && before[j].0@
        != x by {
        assert(le(before[j].0@, x) || le(x, before[j].0@));
        assert(le(x, x));
    }
    assert forall|j: int| at <= j < before.len() implies le(x, (#[trigger] before[j]).0@) && (j > at
        ==> before[j].0@ != x) by {
        if j > at {
            assert(le(before[at].0@, before[j].0@));
            assert(le(x, before[at].0@));
            assert(before[at].0@ != before[j].0@);
            if before[j].0@ == x {
                assert(le(before[at].0@, x));
                assert(before[at].0@ == x);
            }
        }
    }
    assert forall|i: int, j: int| 0 <= i < j < after.len() implies order::lex_le(
        (#[trigger] after[i]).0@,
        (#[trigger] after[j]).0@,
    ) && after[i].0@ != after[j].0@ by {
        let i0 = if replaced || i < at {
            i
        } else {
            i - 1
        };
        let j0 = if replaced || j < at {
            j
        } else {
            j - 1
        };
        if i == at {
            assert(le(x, before[j0].0@));
        } else if j == at {
            assert(le(before[i0].0@, x));
        } else {
            assert(le(before[i0].0@, before[j0].0@));
        }
    }
    assert(pairs_of(after)[at] == (row.0@, row.1@));
    assert forall|n: Seq<char>, v: Seq<char>| n != row.0@ implies (pairs_of(after).contains((n, v))
        <==> pairs_of(before).contains((n, v))) by {
        if pairs_of(after).contains((n, v)) {
            let i = choose|i: int| 0 <= i < after.len() && pairs_of(after)[i] == (n, v);
            let i0 = if replaced || i < at {
                i
            } else {
                i - 1
            };
            assert(pairs_of(before)[i0] == (n, v));
        }
        if pairs_of(before).contains((n, v)) {
            let i0 = choose|i: int| 0 <= i < before.len() && pairs_of(before)[i] == (n, v);
            let i = if replaced || i0 < at {
                i0
            } else {
                i0 + 1
            };
            assert(pairs_of(after)[i] == (n, v));
        }
    }
    assert forall|v: Seq<char>| pairs_of(after).contains((row.0@, v)) implies v == row.1@ by {
        let i = choose|i: int| 0 <= i < after.len() && pairs_of(after)[i] == (row.0@, v);
        if i != at {
            assert(after[i].0@ == after[at].0@);
        }
    }
}

/// The value of a name in a list of pairs: of several, the first.
pub open spec fn pair_value(s: Seq<(Seq<char>, Seq<char>)>, name: Seq<char>) -> Option<Seq<char>>
    decreases s.len(),
{
    if s.len() == 0 {
        None
    } else if s[0].0 == name {
        Some(s[0].1)
    } else {
        pair_value(s.drop_first(), name)
    }
}

impl Attributes {
    /// The value of an attribute.
    pub fn get(&self, name: &str) -> (r: Option<&str>)
        ensures
            r.deep_view() == pair_value(self.pairs(), name@),
    {
        let mut i: usize = 0;
        proof {
            assert(self.pairs().skip(0) =~= self.pairs());
        }
        while i < self.entries.len()
            invariant
                i <= self.entries@.len(),
                pair_value(self.pairs().skip(i as int), name@) == pair_value(
                    self.pairs(),
                    name@,
                ),
            decreases self.entries.len() - i,
        {
            proof {
                assert(self.pairs().skip(i as int)[0] == self.pairs()[i as int]);
                assert(self.pairs().skip(i as int).drop_first() =~= self.pairs().skip(i + 1));
            }
            if str_eq(self.entries[i].0.as_str(), name) {
                return Some(self.entries[i].1.as_str());
            }
            i += 1;
        }
        None
    }

    /// Attributes with the same names and values.
    pub fn copy(&self) -> (r: Attributes)
        ensures
            r.pairs() == self.pairs(),
    {
        proof {
            use_type_invariant(self);
        }
        let mut entries: Vec<(String, String)> = Vec::new();
        let mut i: usize = 0;
        while i < self.entries.len()
            invariant
                i <= self.entries@.len(),
                entries@ == self.entries@.take(i as int),
            decreases self.entries@.len() - i,
        {
            let row: (String, String) = (self.entries[i].0.clone(), self.entries[i].1.clone());
            proof {
                assert(self.entries@.take(i + 1) =~= self.entries@.take(i as int).push(row));
            }
            entries.push(row);
            i += 1;
        }
        proof {
            assert(self.entries@.take(i as int) =~= self.entries@);
        }
        Attributes { entries }
    }
}

/// Who is calling, as found when the request arrived.
#[derive(Debug, PartialEq, Eq)]
pub enum RequestIdentity {
    /// Nobody in particular.
    Anonymous { source: String },
    /// Whom a header names, without proof.
    HttpHeader { subject_id: String, source: String },
    /// Whom a credential proves.
    Verified {
        subject_id: String,
        issuer: String,
        auth_provider: String,
        source: String,
        roles: Vec<String>,
        groups: Vec<String>,
        scopes: Vec<String>,
        attributes: Attributes,
    },
}

/// An identity over plain values.
pub enum IdentityView {
    Anonymous { source: Seq<char> },
    HttpHeader { subject_id: Seq<char>, source: Seq<char> },
    Verified {
        subject_id: Seq<char>,
        issuer: Seq<char>,
        auth_provider: Seq<char>,
        source: Seq<char>,
        roles: Seq<Seq<char>>,
        groups: Seq<Seq<char>>,
        scopes: Seq<Seq<char>>,
        attributes: Seq<(Seq<char>, Seq<char>)>,
    },
}

impl DeepView for RequestIdentity {
    type V = IdentityView;

    open spec fn deep_view(&self) -> IdentityView {
        match self {
            RequestIdentity::Anonymous { source } => IdentityView::Anonymous { source: source@ },
            RequestIdentity::HttpHeader { subject_id, source } => IdentityView::HttpHeader {
                subject_id: subject_id@,
                source: source@,
            },
            RequestIdentity::Verified {
                subject_id,
                issuer,
                auth_provider,
                source,
                roles,
                groups,
                scopes,
                attributes,
            } => IdentityView::Verified {
                subject_id: subject_id@,
                issuer: issuer@,
                auth_provider: auth_provider@,
                source: source@,
                roles: roles.deep_view(),
                groups: groups.deep_view(),
                scopes: scopes.deep_view(),
                attributes: attributes.pairs(),
            },
        }
    }
}

impl IdentityView {
    /// The kind of identity, as a name.
    pub open spec fn label(self) -> Seq<char> {
        match self {
            IdentityView::Anonymous { .. } => "anonymous"@,
            IdentityView::HttpHeader { .. } => "http_header"@,
            IdentityView::Verified { .. } => "verified"@,
        }
    }

    /// How far the caller is trusted.
    pub open spec fn trust_level(self) -> RequestTrustLevel {
        match self {
            IdentityView::Anonymous { .. } => RequestTrustLevel::Unauthenticated,
            IdentityView::HttpHeader { .. } => RequestTrustLevel::HeaderAsserted,
            IdentityView::Verified { .. } => RequestTrustLevel::Verified,
        }
    }

    /// The subject, where there is one.
    pub open spec fn principal_id(self) -> Option<Seq<char>> {
        match self {
            IdentityView::Anonymous { .. } => None,
            IdentityView::HttpHeader { subject_id, .. } => Some(subject_id),
            IdentityView::Verified { subject_id, .. } => Some(subject_id),
        }
    }

    /// The provider that proved the subject.
    pub open spec fn auth_provider(self) -> Option<Seq<char>> {
        match self {
            IdentityView::Verified { auth_provider, .. } => Some(auth_provider),
            _ => None,
        }
    }

    /// The issuer of the credential.
    pub open spec fn issuer(self) -> Option<Seq<char>> {
        match self {
            IdentityView::Verified { issuer, .. } => Some(issuer),
            _ => None,
        }
    }

    /// The roles of a proven caller.
    pub open spec fn roles(self) -> Seq<Seq<char>> {
        match self {
            IdentityView::Verified { roles, .. } => roles,
            _ => seq![],
        }
    }

    /// The groups of a proven caller.
    pub open spec fn groups(self) -> Seq<Seq<char>> {
        match self {
            IdentityView::Verified { groups, .. } => groups,
            _ => seq![],
        }
    }

    /// The scopes of a proven caller.
    pub open spec fn scopes(self) -> Seq<Seq<char>> {
        match self {
            IdentityView::Verified { scopes, .. } => scopes,
            _ => seq![],
        }
    }

    /// The attributes of a proven caller.
    pub open spec fn attributes(self) -> Seq<(Seq<char>, Seq<char>)> {
        match self {
            IdentityView::Verified { attributes, .. } => attributes,
            _ => seq![],
        }
    }

    /// The key that stands for the caller across requests: it names the trust
    /// level and, for a proven caller, the provider and the issuer.
    pub open spec fn principal_key(self) -> Option<Seq<char>> {
        match self {
            IdentityView::Anonymous { .. } => None,
            IdentityView::HttpHeader { subject_id, .. } => Some(
                "header_asserted::"@ + subject_id,
            ),
            IdentityView::Verified { subject_id, issuer, auth_provider, .. } => Some(
                "verified::"@ + auth_provider + "::"@ + issuer + "::"@ + subject_id,
            ),
        }
    }
}

impl RequestIdentity {
    /// An identity that denotes the same.
    pub fn copy(&self) -> (r: RequestIdentity)
        ensures
            r.deep_view() == self.deep_view(),
    {
        match self {
            RequestIdentity::Anonymous { source } => RequestIdentity::Anonymous {
                source: source.clone(),
            },
            RequestIdentity::HttpHeader { subject_id, source } => RequestIdentity::HttpHeader {
                subject_id: subject_id.clone(),
                source: source.clone(),
            },
            RequestIdentity::Verified {
                subject_id,
                issuer,
                auth_provider,
                source,
                roles,
                groups,
                scopes,
                attributes,
            } => {
                proof {
                    assert(roles.deep_view() =~= text::texts(roles@));
                    assert(groups.deep_view() =~= text::texts(groups@));
                    assert(scopes.deep_view() =~= text::texts(scopes@));
                }
                RequestIdentity::Verified {
                    subject_id: subject_id.clone(),
                    issuer: issuer.clone(),
                    auth_provider: auth_provider.clone(),
                    source: source.clone(),
                    roles: text::copy_texts(roles.as_slice()),
                    groups: text::copy_texts(groups.as_slice()),
                    scopes: text::copy_texts(scopes.as_slice()),
                    attributes: attributes.copy(),
                }
            },
        }
    }

    /// The kind of identity, as a name.
    pub fn label(&self) -> (r: &'static str)
        ensures
            r@ == self.deep_view().label(),
    {
        match self {
            RequestIdentity::Anonymous { .. } => "anonymous",
            RequestIdentity::HttpHeader { .. } => "http_header",
            RequestIdentity::Verified { .. } => "verified",
        }
    }

    /// How far the caller is trusted.
    pub fn trust_level(&self) -> (r: RequestTrustLevel)
        ensures
            r == self.deep_view().trust_level(),
    {
        match self {
            RequestIdentity::Anonymous { .. } => RequestTrustLevel::Unauthenticated,
            RequestIdentity::HttpHeader { .. } => RequestTrustLevel::HeaderAsserted,
            RequestIdentity::Verified { .. } => RequestTrustLevel::Verified,
        }
    }

    /// The subject, where there is one.
    pub fn principal_id(&self) -> (r: Option<&str>)
        ensures
            r.deep_view() == self.deep_view().principal_id(),
    {
        match self {
            RequestIdentity::Anonymous { .. } => None,
            RequestIdentity::HttpHeader { subject_id, .. } => Some(subject_id.as_str()),
            RequestIdentity::Verified { subject_id, .. } => Some(subject_id.as_str()),
        }
    }

    /// The provider that proved the subject.
    pub fn auth_provider(&self) -> (r: Option<&str>)
        ensures
            r.deep_view() == self.deep_view().auth_provider(),
    {
        match self {
            RequestIdentity::Verified { auth_provider, .. } => Some(auth_provider.as_str()),
            _ => None,
        }
    }

    /// The issuer of the credential.
    pub fn issuer(&self) -> (r: Option<&str>)
        ensures
            r.deep_view() == self.deep_view().issuer(),
    {
        match self {
            RequestIdentity::Verified { issuer, .. } => Some(issuer.as_str()),
            _ => None,
        }
    }

    /// Whether the caller is nobody in particular.
    pub fn is_anonymous(&self) -> (r: bool)
        ensures
            r == (self.deep_view() is Anonymous),
    {
        match self {
            RequestIdentity::Anonymous { .. } => true,
            _ => false,
        }
    }

    /// Whether the caller has proved nothing: true of anonymous callers and of
    /// those that a header names.
    pub fn is_below_verified(&self) -> (r: bool)
        ensures
            r == !(self.deep_view() is Verified),
    {
        self.trust_level().below(RequestTrustLevel::Verified)
    }

    /// The key that stands for the caller across requests.
    pub fn synthetic_principal_key(&self) -> (r: Option<String>)
        ensures
            r.deep_view() == self.deep_view().principal_key(),
    {
        match self {
            RequestIdentity::Anonymous { .. } => None,
            RequestIdentity::HttpHeader { subject_id, .. } => {
                let mut s: String = "header_asserted::".to_owned();
                s.append(subject_id.as_str());
                Some(s)
            },
            RequestIdentity::Verified { subject_id, issuer, auth_provider, .. } => {
                let mut s: String = "verified::".to_owned();
                s.append(auth_provider.as_str());
                s.append("::");
                s.append(issuer.as_str());
                s.append("::");
                s.append(subject_id.as_str());
                Some(s)
            },
        }
    }

    /// The roles of a proven caller.
    pub fn roles(&self) -> (r: &[String])
        ensures
            text::texts(r@) == self.deep_view().roles(),
    {
        match self {
            RequestIdentity::Verified { roles, .. } => {
                proof {
                    assert(roles.deep_view() =~= text::texts(roles@));
                }
                roles.as_slice()
            },
            _ => {
                let none: &[String] = &[];
                proof {
                    assert(text::texts(none@) =~= seq![]);
                }
                none
            },
        }
    }

    /// The groups of a proven caller.
    pub fn groups(&self) -> (r: &[String])
        ensures
            text::texts(r@) == self.deep_view().groups(),
    {
        match self {
            RequestIdentity::Verified { groups, .. } => {
                proof {
                    assert(groups.deep_view() =~= text::texts(groups@));
                }
                groups.as_slice()
            },
            _ => {
                let none: &[String] = &[];
                proof {
                    assert(text::texts(none@) =~= seq![]);
                }
                none
            },
        }
    }

    /// The scopes of a proven caller.
    pub fn scopes(&self) -> (r: &[String])
        ensures
            text::texts(r@) == self.deep_view().scopes(),
    {
        match self {
            RequestIdentity::Verified { scopes, .. } => {
                proof {
                    assert(scopes.deep_view() =~= text::texts(scopes@));
                }
                scopes.as_slice()
            },
            _ => {
                let none: &[String] = &[];
                proof {
                    assert(text::texts(none@) =~= seq![]);
                }
                none
            },
        }
    }

    /// The attributes of a proven caller.
    pub fn attributes(&self) -> (r: Attributes)
        ensures
            r.pairs() == self.deep_view().attributes(),
    {
        match self {
            RequestIdentity::Verified { attributes, .. } => attributes.copy(),
            _ => Attributes::new(),
        }
    }
}

/// Trust is below `Verified` exactly for callers that have proved nothing.
pub proof fn law_only_proof_verifies(identity: IdentityView)
    ensures
        identity.trust_level().rank() < RequestTrustLevel::Verified.rank() <==> !(
        identity is Verified),
{
}

/// The key of a caller whom a header names is never that of a proven caller,
/// whatever their names.
pub proof fn law_header_never_passes_for_verified(a: IdentityView, b: IdentityView)
    requires
        a is HttpHeader,
        b is Verified,
    ensures
        a.principal_key() != b.principal_key(),
{
    reveal_strlit("header_asserted::");
    reveal_strlit("verified::");
    let x = a.principal_key()->0;
    let y = b.principal_key()->0;
    assert(x[0] == 'h');
    assert(y[0] == 'v');
}

/// Whether a provider's name can be told from what follows it in a key: the
/// first separator in the key stands right behind it.
pub open spec fn plain_provider(p: Seq<char>) -> bool {
    forall|j: int|
        0 <= j < p.len() ==> !((#[trigger] (p + "::"@)[j]) == ':' && (p + "::"@)[j + 1] == ':')
}

/// The keys of proven callers with the same subject agree only where provider
/// and issuer agree too. Left out are provider names that hold the separator of
/// the key, or end in a part of it.
pub proof fn law_keys_tell_issuers_apart(a: IdentityView, b: IdentityView)
    requires
        a is Verified,
        b is Verified,
        a.principal_id() == b.principal_id(),
        a.principal_key() == b.principal_key(),
        plain_provider(a->Verified_auth_provider),
        plain_provider(b->Verified_auth_provider),
    ensures
        a.auth_provider() == b.auth_provider(),
        a.issuer() == b.issuer(),
{
    reveal_strlit("::");
    reveal_strlit("verified::");
    let p = a->Verified_auth_provider;
    let q = b->Verified_auth_provider;
    let x = a->Verified_issuer;
    let y = b->Verified_issuer;
    let s = a->Verified_subject_id;
    let ka = a.principal_key()->0;
    let kb = b.principal_key()->0;
    let sep = "::"@;
    let head = "verified::"@;
    let n = head.len() as int;
    assert(ka =~= head + (p + sep + (x + sep + s)));
    assert(kb =~= head + (q + sep + (y + sep + s)));
    let ra = p + sep + (x + sep + s);
    let rb = q + sep + (y + sep + s);
    assert(ra =~= ka.skip(n));
    assert(rb =~= kb.skip(n));
    assert forall|j: int| 0 <= j < p.len() + 2 implies ra[j] == (p + sep)[j] by {}
    assert forall|j: int| 0 <= j < q.len() + 2 implies rb[j] == (q + sep)[j] by {}
    if p.len() < q.len() {
        let j = p.len() as int;
        assert((p + sep)[j] == ':' && (p + sep)[j + 1] == ':');
        assert(ra[j] == ':' && ra[j + 1] == ':');
        assert((q + sep)[j] == rb[j] && (q + sep)[j + 1] == rb[j + 1]);
        assert(false);
    }
    if q.len() < p.len() {
        let j = q.len() as int;
        assert((q + sep)[j] == ':' && (q + sep)[j + 1] == ':');
        assert(rb[j] == ':' && rb[j + 1] == ':');
        assert((p + sep)[j] == ra[j] && (p + sep)[j + 1] == ra[j + 1]);
        assert(false);
    }
    assert(p =~= ra.take(p.len() as int));
    assert(q =~= rb.take(p.len() as int));
    let ta = ra.skip(p.len() as int + 2);
    let tb = rb.skip(p.len() as int + 2);
    assert(ta =~= x + sep + s);
    assert(tb =~= y + sep + s);
    assert(x =~= ta.take(ta.len() - s.len() - 2));
    assert(y =~= tb.take(tb.len() - s.len() - 2));
}

/// What is known of a caller is what its credential says, each part under its own
/// name, and nothing where there is no credential. A header names a subject and no
/// more.
pub proof fn law_callers_are_what_they_prove(caller: RequestIdentity)
    ensures
        match caller {
            RequestIdentity::Anonymous { .. } => {
                let v = caller.deep_view();
                &&& v.principal_id() is None
                &&& v.auth_provider() is None
                &&& v.issuer() is None
                &&& v.principal_key() is None
                &&& v.label() == "anonymous"@
                &&& v.trust_level() is Unauthenticated
                &&& v.roles().len() == 0 && v.groups().len() == 0 && v.scopes().len() == 0
                    && v.attributes().len() == 0
            },
            RequestIdentity::HttpHeader { subject_id, .. } => {
                let v = caller.deep_view();
                &&& v.principal_id() == Some(subject_id@)
                &&& v.auth_provider() is None
                &&& v.issuer() is None
                &&& v.label() == "http_header"@
                &&& v.trust_level() is HeaderAsserted
                &&& v.roles().len() == 0 && v.groups().len() == 0 && v.scopes().len() == 0
                    && v.attributes().len() == 0
            },
            RequestIdentity::Verified {
                subject_id,
                issuer,
                auth_provider,
                roles,
                groups,
                scopes,
                attributes,
                ..
            } => {
                let v = caller.deep_view();
                &&& v.principal_id() == Some(subject_id@)
                &&& v.auth_provider() == Some(auth_provider@)
                &&& v.issuer() == Some(issuer@)
                &&& v.label() == "verified"@
                &&& v.trust_level() is Verified
                &&& v.roles() == roles.deep_view()
                &&& v.groups() == groups.deep_view()
                &&& v.scopes() == scopes.deep_view()
                &&& v.attributes() == attributes.pairs()
            },
        },
{
}

/// Callers that the same source vouches for have the same key only where they are
/// the same subject.
pub proof fn law_keys_tell_subjects_apart(a: RequestIdentity, b: RequestIdentity)
    ensures
        a matches RequestIdentity::HttpHeader { subject_id: s, .. } ==> (b
            matches RequestIdentity::HttpHeader { subject_id: t, .. } ==> (
        a.deep_view().principal_key() == b.deep_view().principal_key() <==> s@ == t@)),
        a matches RequestIdentity::Verified {
            subject_id: s,
            issuer: i,
            auth_provider: p,
            ..
        } ==> (b matches RequestIdentity::Verified {
            subject_id: t,
            issuer: j,
            auth_provider: q,
            ..
        } ==> (i@ == j@ && p@ == q@ ==> (a.deep_view().principal_key()
            == b.deep_view().principal_key() <==> s@ == t@))),
{
    if let RequestIdentity::HttpHeader { subject_id: s, .. } = a {
        if let RequestIdentity::HttpHeader { subject_id: t, .. } = b {
            let n = "header_asserted::"@.len() as int;
            assert(s@ =~= (a.deep_view().principal_key()->0).skip(n));
            assert(t@ =~= (b.deep_view().principal_key()->0).skip(n));
        }
    }
    if let RequestIdentity::Verified { subject_id: s, issuer: i, auth_provider: p, .. } = a {
        if let RequestIdentity::Verified { subject_id: t, issuer: j, auth_provider: q, .. } = b {
            if i@ == j@ && p@ == q@ {
                let head = "verified::"@ + p@ + "::"@ + i@ + "::"@;
                let n = head.len() as int;
                assert(s@ =~= (a.deep_view().principal_key()->0).skip(n));
                assert(t@ =~= (b.deep_view().principal_key()->0).skip(n));
            }
        }
    }
}

/// A credential is trusted more than a header, and a header more than nothing; and
/// a trust level is known by its name alone, every other name standing for the
/// lowest.
pub proof fn law_trust_is_ordered(name: Seq<char>)
    ensures
        RequestTrustLevel::Unauthenticated.rank() < RequestTrustLevel::HeaderAsserted.rank()
            < RequestTrustLevel::Verified.rank(),
        trust_of_text(name) is Verified <==> name == "verified"@,
        trust_of_text(name) is HeaderAsserted <==> name == "header_asserted"@,
        name != "verified"@ && name != "header_asserted"@ ==> trust_of_text(
            name,
        ) is Unauthenticated,
        trust_text(RequestTrustLevel::Unauthenticated) == "unauthenticated"@,
{
    reveal_strlit("header_asserted");
    reveal_strlit("verified");
    assert("header_asserted"@.len() != "verified"@.len());
}

/// The value of a name is that of the first pair with that name, and there is none
/// exactly where no pair has it.
pub proof fn law_values_are_found_by_name(
    s: Seq<(Seq<char>, Seq<char>)>,
    name: Seq<char>,
    i: int,
)
    ensures
        pair_value(s, name) is None <==> forall|j: int|
            0 <= j < s.len() ==> (#[trigger] s[j]).0 != name,
        0 <= i < s.len() && s[i].0 == name && (forall|j: int|
            0 <= j < i ==> (#[trigger] s[j]).0 != name) ==> pair_value(s, name) == Some(s[i].1),
    decreases s.len(),
{
    if s.len() > 0 {
        let rest = s.drop_first();
        assert(forall|j: int| 0 <= j < rest.len() ==> #[trigger] rest[j] == s[j + 1]);
        law_values_are_found_by_name(rest, name, i - 1);
        if s[0].0 != name {
            if forall|j: int| 0 <= j < rest.len() ==> (#[trigger] rest[j]).0 != name {
                assert forall|j: int| 0 <= j < s.len() implies (#[trigger] s[j]).0 != name by {
                    if j > 0 {
                        assert(rest[j - 1] == s[j]);
                    }
                }
            }
        }
    }
}

/// The transports are named apart.
pub proof fn law_transports_are_named_apart(a: TransportKind, b: TransportKind)
    ensures
        transport_text(a) == transport_text(b) <==> a == b,
        a is Http ==> transport_text(a) == "http"@,
        a is Stdio ==> transport_text(a) == "stdio"@,
{
    reveal_strlit("http");
    reveal_strlit("stdio");
    assert("http"@.len() != "stdio"@.len());
}

/// A pair that is added is found under its name with its own value, and takes the
/// place of an earlier one of that name; the values of other names stay as they were.
pub proof fn law_attributes_hold_what_was_added(
    before: Attributes,
    name: &str,
    value: &str,
    after: Attributes,
    other: Seq<char>,
    v: Seq<char>,
)
    requires
        call_ensures(Attributes::with, (before, name, value), after),
        other != name@,
    ensures
        after.pairs().contains((name@, value@)),
        v != value@ ==> !after.pairs().contains((name@, v)),
        after.pairs().contains((other, v)) <==> before.pairs().contains((other, v)),
{
}

/// Who a caller is, as it is asked for: each part is the caller's own and that of no
/// other part.
pub proof fn law_callers_tell_who_they_are(
    caller: RequestIdentity,
    principal: Option<&str>,
    provider: Option<&str>,
    issuer: Option<&str>,
    level: RequestTrustLevel,
    anonymous: bool,
    below: bool,
)
    requires
        call_ensures(RequestIdentity::principal_id, (&caller,), principal),
        call_ensures(RequestIdentity::auth_provider, (&caller,), provider),
        call_ensures(RequestIdentity::issuer, (&caller,), issuer),
        call_ensures(RequestIdentity::trust_level, (&caller,), level),
        call_ensures(RequestIdentity::is_anonymous, (&caller,), anonymous),
        call_ensures(RequestIdentity::is_below_verified, (&caller,), below),
    ensures
        anonymous <==> caller is Anonymous,
        below <==> !(caller is Verified),
        match caller {
            RequestIdentity::Verified { subject_id, auth_provider, issuer: own, .. } => {
                &&& level is Verified
                &&& principal.deep_view() == Some(subject_id@)
                &&& provider.deep_view() == Some(auth_provider@)
                &&& issuer.deep_view() == Some(own@)
            },
            RequestIdentity::HttpHeader { subject_id, .. } => {
                &&& level is HeaderAsserted
                &&& principal.deep_view() == Some(subject_id@)
                &&& provider.deep_view() is None
                &&& issuer.deep_view() is None
            },
            RequestIdentity::Anonymous { .. } => {
                &&& level is Unauthenticated
                &&& principal.deep_view() is None
                &&& provider.deep_view() is None
                &&& issuer.deep_view() is None
            },
        },
{
}

/// One level is below another exactly where that asks for more: nothing is below no
/// trust, and nothing but proof is enough for proof.
pub proof fn law_levels_are_compared(
    a: RequestTrustLevel,
    b: RequestTrustLevel,
    r: bool,
)
    requires
        call_ensures(RequestTrustLevel::below, (a, b), r),
    ensures
        b is Unauthenticated ==> !r,
        b is HeaderAsserted ==> (r <==> a is Unauthenticated),
        b is Verified ==> (r <==> !(a is Verified)),
{
}

} // verus!
