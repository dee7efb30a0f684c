//! Pings by which the gateway finds clients that are gone.
use vstd::prelude::*;
use vstd::string::*;

use crate::json;
use crate::json::Json;
use crate::outside;

verus! {

/// Pings every session at a steady pace.
#[derive(Debug, Clone, Copy, PartialEq, Eq, Structural)]
pub struct ServerPingDriver {
    /// How long to wait between two rounds, in seconds.
    pub interval_secs: u64,
}

/// A ping for a session.
#[derive(Debug)]
pub struct Ping {
    pub session_id: String,
    pub message: Json,
}

/// The message of a ping.
pub open spec fn ping_tree(id: Seq<char>) -> json::Tree {
    json::object_of(
        seq![
            ("jsonrpc"@, json::Tree::Str("2.0"@)),
            ("id"@, json::Tree::Str("srv-ping-"@ + id)),
            ("method"@, json::Tree::Str("ping"@)),
        ],
    )
}

impl Ping {
    /// Whether the id of the ping is drawn at random.
    pub open spec fn is_fresh(&self) -> bool {
        exists|n: nat| #[trigger] outside::random_uuid_number(n) && self.message.tree() == ping_tree(
            outside::uuid_view(n),
        )
    }
}

/// The message of a ping.
pub fn ping_message(id: &str) -> (r: Json)
    ensures
        r.tree() == ping_tree(id@),
{
    proof {
        reveal_with_fuel(json::map_of, 4);
    }
    let mut name: String = "srv-ping-".to_owned();
    name.append(id);
    Json::object().with("jsonrpc", Json::text("2.0")).with("id", Json::Str(name)).with(
        "method",
        Json::text("ping"),
    )
}

impl ServerPingDriver {
    /// A driver that waits the given number of seconds, and at least one.
    pub fn new(interval: u64) -> (r: ServerPingDriver)
        ensures
            r.interval_secs == (if interval == 0 {
                1
            } else {
                interval
            }),
    {
        ServerPingDriver {
            interval_secs: if interval == 0 {
                1
            } else {
                interval
            },
        }
    }

    /// The pings of one round: one for each session, in order, each with the text
    /// of a random UUID for its id.
    pub fn round(&self, sessions: &Vec<String>) -> (r: Vec<Ping>)
        ensures
            r@.len() == sessions@.len(),
            forall|i: int|
                0 <= i < r@.len() ==> (#[trigger] r@[i]).session_id@ == sessions@[i]@
                    && r@[i].is_fresh(),
    {
        let mut out: Vec<Ping> = Vec::new();
        let mut i: usize = 0;
        while i < sessions.len()
            invariant
                i <= sessions@.len(),
                out@.len() == i,
                forall|j: int|
                    0 <= j < i ==> (#[trigger] out@[j]).session_id@ == sessions@[j]@
                        && out@[j].is_fresh(),
            decreases sessions.len() - i,
        {
            let n: u128 = outside::random_uuid();
            let message: Json = ping_message(outside::uuid_text(n).as_str());
            out.push(Ping { session_id: sessions[i].clone(), message });
            i += 1;
        }
        out
    }
}

/// A ping is a request of the gateway: it names the method, and its id is the
/// gateway's own, so that two pings with different ids are told apart.
pub proof fn law_pings_are_requests(id: Seq<char>, other: Seq<char>)
    ensures
        json::tree_get(ping_tree(id), "jsonrpc"@) == Some(json::Tree::Str("2.0"@)),
        json::tree_get(ping_tree(id), "method"@) == Some(json::Tree::Str("ping"@)),
        json::tree_get(ping_tree(id), "id"@) == Some(json::Tree::Str("srv-ping-"@ + id)),
        id != other ==> ping_tree(id) != ping_tree(other),
{
    reveal_with_fuel(json::map_of, 4);
    reveal_strlit("jsonrpc");
    reveal_strlit("id");
    reveal_strlit("method");
    assert("jsonrpc"@.len() == 7 && "id"@.len() == 2 && "method"@.len() == 6);
    let n = "srv-ping-"@.len() as int;
    assert(id =~= ("srv-ping-"@ + id).skip(n));
    assert(other =~= ("srv-ping-"@ + other).skip(n));
    if ping_tree(id) == ping_tree(other) {
        assert(json::tree_get(ping_tree(id), "id"@) == json::tree_get(ping_tree(other), "id"@));
        assert(json::tree_get(ping_tree(other), "id"@) == Some(
            json::Tree::Str("srv-ping-"@ + other),
        ));
    }
}

/// Every session is pinged once a round, in order, and no round follows another
/// without a pause.
pub proof fn law_every_session_is_pinged(
    driver: ServerPingDriver,
    interval: u64,
    made: ServerPingDriver,
    sessions: Vec<String>,
    r: Vec<Ping>,
)
    requires
        call_ensures(ServerPingDriver::new, (interval,), made),
        call_ensures(ServerPingDriver::round, (&driver, &sessions), r),
    ensures
        made.interval_secs >= 1,
        interval > 0 ==> made.interval_secs == interval,
        r@.len() == sessions@.len(),
        forall|i: int| 0 <= i < r@.len() ==> (#[trigger] r@[i]).session_id@ == sessions@[i]@,
{
}

/// Sessions are pinged as often as is set, and at most once a second.
pub proof fn law_pings_keep_their_distance(interval: u64, r: ServerPingDriver)
    requires
        call_ensures(ServerPingDriver::new, (interval,), r),
    ensures
        r.interval_secs >= 1,
        interval > 0 ==> r.interval_secs == interval,
{
}

} // verus!
