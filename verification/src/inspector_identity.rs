//! The identity of the inspector that the gateway itself supervises. It proves
//! who it is by a credential that is made anew at every start, and only from
//! the same machine.
use vstd::prelude::*;
use vstd::string::*;

use crate::identity;
use crate::identity::{Attributes, RequestIdentity};

verus! {

/// The principal that the inspector resolves to.
pub const INSPECTOR_SUBJECT: &'static str = "mcpg-inspector";

/// Installs the credential of the inspector. The first one counts.
pub fn install(slot: &mut Option<String>, token: String)
    ensures
        *final(slot) == (if *old(slot) is Some {
            *old(slot)
        } else {
            Some(token)
        }),
{
    if slot.is_none() {
        *slot = Some(token);
    }
}

/// Whether two byte strings are equal, in a time that depends on their lengths
/// alone.
pub fn constant_time_eq(a: &[u8], b: &[u8]) -> (r: bool)
    ensures
        r == (a@ == b@),
{
    if a.len() != b.len() {
        return false;
    }
    let mut acc: u8 = 0;
    let mut i: usize = 0;
    while i < a.len()
        invariant
            i <= a@.len(),
            a@.len() == b@.len(),
            acc == 0 <==> (forall|j: int| 0 <= j < i ==> #[trigger] a@[j] == b@[j]),
        decreases a.len() - i,
    {
        let x: u8 = a[i];
        let y: u8 = b[i];
        let next: u8 = acc | (x ^ y);
        assert(next == 0 <==> acc == 0 && x == y) by (bit_vector)
            requires
                next == acc | (x ^ y),
        ;
        proof {
            if acc == 0 && x == y {
                assert forall|j: int| 0 <= j < i + 1 implies #[trigger] a@[j] == b@[j] by {
                    if j == i {
                        assert(a@[j] == x);
                    }
                }
            } else if acc == 0 {
                assert(a@[i as int] != b@[i as int]);
            }
        }
        acc = next;
        i += 1;
    }
    proof {
        if acc == 0 {
            assert(a@ =~= b@);
        }
    }
    acc == 0
}

/// The inspector's identity.
pub open spec fn inspector() -> identity::IdentityView {
    identity::IdentityView::Verified {
        subject_id: INSPECTOR_SUBJECT@,
        issuer: "mcpg-gateway"@,
        auth_provider: "inspector_supervisor"@,
        source: "supervised_inspector_token"@,
        roles: seq![],
        groups: seq![],
        scopes: seq![],
        attributes: seq![],
    }
}

/// Resolves the inspector: a bearer token that is the installed credential, from
/// a peer on the same machine. `from_loopback` says whether the peer is, where
/// the peer is known.
pub fn verify(installed: &Option<String>, bearer: Option<&str>, from_loopback: Option<bool>) -> (r:
    Option<RequestIdentity>)
    ensures
        r.deep_view() == (if installed is Some && bearer is Some && from_loopback == Some(true)
            && bearer.deep_view() == installed.deep_view() {
            Some(inspector())
        } else {
            None
        }),
{
    let expected: &String = match installed {
        Some(t) => t,
        None => {
            return None;
        },
    };
    let bearer: &str = match bearer {
        Some(b) => b,
        None => {
            return None;
        },
    };
    match from_loopback {
        Some(true) => {},
        _ => {
            return None;
        },
    }
    let same: bool = constant_time_eq(bearer.as_bytes(), expected.as_str().as_bytes());
    proof {
        if same {
            vstd::utf8::encode_utf8_decode_utf8(bearer@);
            vstd::utf8::encode_utf8_decode_utf8(expected@);
        }
    }
    if !same {
        return None;
    }
    let roles: Vec<String> = Vec::new();
    let groups: Vec<String> = Vec::new();
    let scopes: Vec<String> = Vec::new();
    proof {
        assert(roles.deep_view() =~= seq![]);
        assert(groups.deep_view() =~= seq![]);
        assert(scopes.deep_view() =~= seq![]);
    }
    Some(
        RequestIdentity::Verified {
            subject_id: INSPECTOR_SUBJECT.to_owned(),
            issuer: "mcpg-gateway".to_owned(),
            auth_provider: "inspector_supervisor".to_owned(),
            source: "supervised_inspector_token".to_owned(),
            roles,
            groups,
            scopes,
            attributes: Attributes::new(),
        },
    )
}

/// The inspector is known by its credential and by its place: only a bearer token
/// that is the installed one, and only from the same machine, makes a caller the
/// inspector. Where nothing is installed, nobody is.
pub proof fn law_inspector_needs_credential_and_place(
    installed: Option<String>,
    bearer: Option<&str>,
    from_loopback: Option<bool>,
    r: Option<RequestIdentity>,
)
    requires
        call_ensures(verify, (&installed, bearer, from_loopback), r),
    ensures
        r is Some <==> from_loopback == Some(true) && installed is Some && (bearer matches Some(b)
            && b@ == installed->0@),
        r matches Some(who) ==> (who matches RequestIdentity::Verified {
            subject_id,
            roles,
            groups,
            scopes,
            ..
        } && subject_id@ == "mcpg-inspector"@ && roles.deep_view().len() == 0
            && groups.deep_view().len() == 0 && scopes.deep_view().len() == 0),
{
}

/// Bytes are compared whole: one byte that differs, or a byte more or less, is
/// enough to tell them apart.
pub proof fn law_comparison_is_exact(a: &[u8], b: &[u8], r: bool)
    requires
        call_ensures(constant_time_eq, (a, b), r),
    ensures
        r <==> a@.len() == b@.len() && forall|i: int| 0 <= i < a@.len() ==> a@[i] == b@[i],
{
    if a@.len() == b@.len() && forall|i: int| 0 <= i < a@.len() ==> a@[i] == b@[i] {
        assert(a@ =~= b@);
    }
}

/// The first credential that is installed counts, and no later one takes its place.
pub proof fn law_first_credential_counts(slot: &mut Option<String>, token: String)
    requires
        call_ensures(install, (slot, token), ()),
    ensures
        *old(slot) is None ==> *final(slot) == Some(token),
        *old(slot) is Some ==> *final(slot) == *old(slot),
{
}

/// Who the inspector is does not depend on what it was asked with: it is vouched for by
/// the gateway itself.
pub proof fn law_inspector_is_vouched_for_by_the_gateway(
    installed: Option<String>,
    bearer: Option<&str>,
    from_loopback: Option<bool>,
    r: Option<RequestIdentity>,
)
    requires
        call_ensures(verify, (&installed, bearer, from_loopback), r),
    ensures
        r matches Some(who) ==> (who matches RequestIdentity::Verified {
            issuer,
            auth_provider,
            attributes,
            ..
        } && issuer@ == "mcpg-gateway"@ && auth_provider@ == "inspector_supervisor"@
            && attributes.pairs().len() == 0),
{
    if let Some(who) = r {
        assert(who.deep_view() == inspector());
    }
}

} // verus!
