//! Connections to the services: which request takes which route, and how a
//! failed call is repeated.

use vstd::hash_map::StringHashMap;
use vstd::prelude::*;
use vstd::string::*;

use crate::request::RpcLane;

verus! {

broadcast use vstd::string::group_string_axioms;

// ---------------------------------------------------------------------------
// Routes
// ---------------------------------------------------------------------------

/// The open routes. A route is one independent connection: requests of
/// different lanes to the same service never share one. Every route has a
/// number that no other route ever had.
pub struct RouteTable {
    world: StringHashMap<u64>,
    interaction: StringHashMap<u64>,
    next: u64,
}

/// The route that a request takes.
#[derive(Clone, Copy, Debug, PartialEq, Eq, Structural)]
pub struct Route {
    pub number: u64,
    /// Whether the route has to be opened first.
    pub is_new: bool,
}

impl View for RouteTable {
    type V = Map<(Seq<char>, RpcLane), u64>;

    closed spec fn view(&self) -> Map<(Seq<char>, RpcLane), u64> {
        Map::new(
            |k: (Seq<char>, RpcLane)|
                match k.1 {
                    RpcLane::WorldLatest => self.world@.contains_key(k.0),
                    RpcLane::Interaction => self.interaction@.contains_key(k.0),
                },
            |k: (Seq<char>, RpcLane)|
                match k.1 {
                    RpcLane::WorldLatest => self.world@[k.0],
                    RpcLane::Interaction => self.interaction@[k.0],
                },
        )
    }
}

impl RouteTable {
    /// How many routes were ever opened.
    pub closed spec fn opened(self) -> u64 {
        self.next
    }

    /// Every route was opened once, and no two have the same number.
    pub open spec fn well_formed(self) -> bool {
        &&& forall|k: (Seq<char>, RpcLane)| #[trigger]
            self@.contains_key(k) ==> self@[k] < self.opened()
        &&& forall|k: (Seq<char>, RpcLane), l: (Seq<char>, RpcLane)|
            #![trigger self@.contains_key(k), self@.contains_key(l)]
            self@.contains_key(k) && self@.contains_key(l) && k != l ==> self@[k] != self@[l]
    }

    /// No routes.
    pub fn new() -> (r: Self)
        ensures
            r@ == Map::<(Seq<char>, RpcLane), u64>::empty(),
            r.opened() == 0,
            r.well_formed(),
    {
        let r = RouteTable {
            world: StringHashMap::new(),
            interaction: StringHashMap::new(),
            next: 0,
        };
        assert(r@ =~= Map::<(Seq<char>, RpcLane), u64>::empty());
        r
    }

    /// How many routes were ever opened.
    pub fn opened_count(&self) -> (r: u64)
        ensures
            r == self.opened(),
    {
        self.next
    }

    /// The route of a request; a new one where none is open.
    pub fn route_for(&mut self, endpoint: &str, lane: RpcLane) -> (r: Route)
        requires
            old(self).well_formed(),
            old(self).opened() < u64::MAX,
        ensures
            final(self).well_formed(),
            r.is_new == !old(self)@.contains_key((endpoint@, lane)),
            !r.is_new ==> r.number == old(self)@[(endpoint@, lane)] && *final(self) == *old(self),
            r.is_new ==> r.number == old(self).opened() && final(self).opened() == old(
                self,
            ).opened() + 1 && final(self)@ == old(self)@.insert((endpoint@, lane), r.number),
    {
        let known = match lane {
            RpcLane::WorldLatest => match self.world.get(endpoint) {
                Some(number) => Some(*number),
                None => None,
            },
            RpcLane::Interaction => match self.interaction.get(endpoint) {
                Some(number) => Some(*number),
                None => None,
            },
        };
        if let Some(number) = known {
            return Route { number, is_new: false };
        }
        let number: u64 = self.next;
        self.next = self.next + 1;
        match lane {
            RpcLane::WorldLatest => {
                self.world.insert(endpoint.to_owned(), number);
            },
            RpcLane::Interaction => {
                self.interaction.insert(endpoint.to_owned(), number);
            },
        }
        assert(self@ =~= old(self)@.insert((endpoint@, lane), number));
        Route { number, is_new: true }
    }

    /// Forgets a route whose connection is gone.
    pub fn forget(&mut self, endpoint: &str, lane: RpcLane)
        requires
            old(self).well_formed(),
        ensures
            final(self).well_formed(),
            final(self).opened() == old(self).opened(),
            final(self)@ == old(self)@.remove((endpoint@, lane)),
    {
        match lane {
            RpcLane::WorldLatest => {
                self.world.remove(endpoint);
            },
            RpcLane::Interaction => {
                self.interaction.remove(endpoint);
            },
        }
        assert(self@ =~= old(self)@.remove((endpoint@, lane)));
    }
}

/// The lanes to one service are apart: their routes have different numbers.
pub proof fn law_lanes_are_apart(table: RouteTable, endpoint: Seq<char>)
    requires
        table.well_formed(),
        table@.contains_key((endpoint, RpcLane::WorldLatest)),
        table@.contains_key((endpoint, RpcLane::Interaction)),
    ensures
        table@[(endpoint, RpcLane::WorldLatest)] != table@[(endpoint, RpcLane::Interaction)],
{
}

// ---------------------------------------------------------------------------
// Calls
// ---------------------------------------------------------------------------

/// How long a call may take, in seconds.
pub const CALL_TIMEOUT_SECONDS: u64 = 5;

/// The name of the thread that serves a route.
pub fn route_name(endpoint: &str, lane: RpcLane) -> (r: String)
    ensures
        r@ == "neon3-bevy-rpc-"@ + endpoint@ + match lane {
            RpcLane::WorldLatest => "-WorldLatest"@,
            RpcLane::Interaction => "-Interaction"@,
        },
{
    "neon3-bevy-rpc-".to_owned().concat(endpoint).concat(
        match lane {
            RpcLane::WorldLatest => "-WorldLatest",
            RpcLane::Interaction => "-Interaction",
        },
    )
}

/// What to do after an attempt to connect.
pub enum ConnectStep {
    /// Make the call.
    Call,
    /// Give the call up with that message.
    Fail(String),
}

/// What to do after an attempt to call.
pub enum CallStep<R> {
    /// The call is over.
    Done(Result<R, String>),
    /// Connect anew and try once more. The message is that of the first attempt.
    Retry(String),
}

/// The error of a call, given those of the first attempt and of the second.
pub open spec fn combined_error(first: Option<Seq<char>>, what: Seq<char>, error: Seq<char>) -> Seq<
    char,
> {
    match first {
        Some(f) => f + what + error,
        None => error,
    }
}

fn combine(first: Option<String>, what: &str, error: String) -> (r: String)
    ensures
        r@ == combined_error(
            match first {
                Some(f) => Some(f@),
                None => None,
            },
            what@,
            error@,
        ),
{
    match first {
        Some(f) => f.concat(what).concat(error.as_str()),
        None => error,
    }
}

/// Decides how a call goes on after an attempt to connect. `first` is the error
/// of the first attempt to call, where this is the second one.
pub fn after_connect(first: Option<String>, outcome: Result<(), String>) -> (r: ConnectStep)
    ensures
        r is Call <==> outcome is Ok,
        r matches ConnectStep::Fail(message) ==> message@ == combined_error(
            match first {
                Some(f) => Some(f@),
                None => None,
            },
            "; reconnect failed: "@,
            outcome->Err_0@,
        ),
{
    match outcome {
        Ok(()) => ConnectStep::Call,
        Err(error) => ConnectStep::Fail(combine(first, "; reconnect failed: ", error)),
    }
}

/// Decides how a call goes on after an attempt to call. A first failure is
/// followed by one more attempt on a new connection: requests carry keys that
/// make repetition harmless. A second failure is final.
pub fn after_call<R>(first: Option<String>, outcome: Result<R, String>) -> (r: CallStep<R>)
    ensures
        match (outcome, first) {
            (Ok(response), _) => r == CallStep::Done(Ok::<R, String>(response)),
            (Err(error), None) => r matches CallStep::Retry(message) && message@ == error@,
            (Err(error), Some(f)) => r matches CallStep::Done(Err(message)) && message@ == f@
                + "; retry failed: "@ + error@,
        },
{
    match outcome {
        Ok(response) => CallStep::Done(Ok(response)),
        Err(error) => match first {
            Some(f) => CallStep::Done(Err(combine(Some(f), "; retry failed: ", error))),
            None => CallStep::Retry(error),
        },
    }
}

/// A time span in nanoseconds as the protocol carries it; longer ones are cut.
pub fn timestamp_from_nanos(nanos: u128) -> (r: u64)
    ensures
        r == if nanos <= u64::MAX {
            nanos as u64
        } else {
            u64::MAX
        },
{
    if nanos <= u64::MAX as u128 {
        nanos as u64
    } else {
        u64::MAX
    }
}

/// An error tells what went wrong last, and before it what went wrong first, where
/// something did.
pub proof fn law_combined_error_tells_both(first: Seq<char>, what: Seq<char>, error: Seq<char>)
    ensures
        combined_error(None, what, error) == error,
        combined_error(Some(first), what, error).take(first.len() as int) == first,
        combined_error(Some(first), what, error).skip((first.len() + what.len()) as int) == error,
{
    let whole = combined_error(Some(first), what, error);
    assert(whole.take(first.len() as int) =~= first);
    assert(whole.skip((first.len() + what.len()) as int) =~= error);
}

} // verus!
