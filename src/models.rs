use vstd::prelude::*;

use crate::text::join2;

verus! {

/// Builds route paths under a common prefix.
pub struct Router {
    pub prefix: String,
}

impl Router {
    /// The path of `route` under the router's prefix.
    pub fn new_route(&self, route: String) -> (r: String)
        ensures
            r@ == self.prefix@ + route@,
    {
        join2(self.prefix.as_str(), route.as_str())
    }
}

/// A request to register an account with the aggregator.
pub struct NewAccountPayload {
    pub name: String,
    pub vendor: String,
    pub client_key: String,
    pub client_secret: String,
}

/// A request to change a registered account.
pub struct UpdateAccountPayload {
    pub id: i32,
    pub name: String,
    pub vendor: String,
    pub client_key: String,
    pub client_secret: String,
}

/// A request to register a user.
pub struct NewUserPayload {
    pub first_name: String,
    pub last_name: String,
    pub email: String,
}

/// The brokers known to a running service.
pub struct AppState {
    pub brokers: Vec<String>,
}

/// A stored broker.
pub struct Broker {
    pub id: i32,
    pub name: String,
    pub userid: String,
    pub active: bool,
}

/// A broker to be stored.
pub struct NewBroker {
    pub name: String,
    pub userid: String,
}

} // verus!
