use vstd::prelude::*;
use crate::protocol::{
    Identity, is_register, is_request, service_name_in, not_found_reply, not_found_token, ok_reply, ok_token, parse_identity,
};
use crate::registry::{Registry, entry_of};

verus! {

/// What the relay does with a connection once its first token is read.
pub enum Dispatch<T> {
    /// The connection now waits in the registry; `evicted` is the connection
    /// that held the name before, which is to be closed.
    Registered { evicted: Option<T> },
    /// No provider holds the name: write `reply` to the requester, then close it.
    NotFound { requester: T, reply: Vec<u8> },
    /// Write `reply` to the requester, then splice it with `provider`.
    Matched { requester: T, provider: T, reply: Vec<u8> },
    /// The token was neither a registration nor a request: close the connection.
    Rejected { conn: T },
}

/// The relay's answer to a request for `name` made on `requester`, given the
/// registry's entry for that name.
pub open spec fn request_outcome<T>(found: Option<T>, requester: T, d: Dispatch<T>) -> bool {
    match found {
        Option::Some(p) => d matches Dispatch::Matched { requester: q, provider, reply }
            && q == requester && provider == p && reply@ == ok_token(),
        Option::None => d matches Dispatch::NotFound { requester: q, reply }
            && q == requester && reply@ == not_found_token(),
    }
}

/// The rendezvous server: the registry of waiting providers and the dispatch
/// of each new connection by its first control token.
pub struct RelayServer<T> {
    registry: Registry<T>,
}

impl<T> View for RelayServer<T> {
    type V = Map<Seq<u8>, T>;

    closed spec fn view(&self) -> Map<Seq<u8>, T> {
        self.registry@
    }
}

impl<T> RelayServer<T> {
    pub closed spec fn well_formed(&self) -> bool {
        self.registry.well_formed()
    }

    /// A relay with no registered service.
    pub fn new() -> (r: Self)
        ensures
            r.well_formed(),
            r@ == Map::<Seq<u8>, T>::empty(),
    {
        RelayServer { registry: Registry::new() }
    }

    /// Dispatches a new connection `conn` whose first control token is `token`.
    pub fn handle_connection(&mut self, token: &[u8], conn: T) -> (r: Dispatch<T>)
        requires
            old(self).well_formed(),
        ensures
            final(self).well_formed(),
            is_register(token@) ==> {
                let name = service_name_in(token@);
                &&& r matches Dispatch::Registered { evicted }
                &&& evicted == entry_of(old(self)@, name)
                &&& final(self)@ == old(self)@.insert(name, conn)
            },
            is_request(token@) ==> {
                let name = service_name_in(token@);
                &&& request_outcome(entry_of(old(self)@, name), conn, r)
                &&& final(self)@ == old(self)@.remove(name)
            },
            !is_register(token@) && !is_request(token@) ==> {
                &&& r matches Dispatch::Rejected { conn: c }
                &&& c == conn
                &&& final(self)@ == old(self)@
            },
    {
        let id = parse_identity(token);
        match id {
            Identity::Register(name) => self.register_service(name, conn),
            Identity::Request(name) => self.handle_client_request(name.as_slice(), conn),
            Identity::Malformed => Dispatch::Rejected { conn },
        }
    }

    /// Registers `provider` under `name`.
    pub fn register_service(&mut self, name: Vec<u8>, provider: T) -> (r: Dispatch<T>)
        requires
            old(self).well_formed(),
        ensures
            final(self).well_formed(),
            r matches Dispatch::Registered { evicted } && evicted == entry_of(old(self)@, name@),
            final(self)@ == old(self)@.insert(name@, provider),
    {
        let evicted = self.registry.register(name, provider);
        Dispatch::Registered { evicted }
    }

    /// Answers a request for `name` made on `requester`: hands out the provider
    /// registered under it, removing it from the registry, or reports that there
    /// is none.
    pub fn handle_client_request(&mut self, name: &[u8], requester: T) -> (r: Dispatch<T>)
        requires
            old(self).well_formed(),
        ensures
            final(self).well_formed(),
            request_outcome(entry_of(old(self)@, name@), requester, r),
            final(self)@ == old(self)@.remove(name@),
    {
        match self.registry.take_for_request(name) {
            Option::Some(provider) => Dispatch::Matched { requester, provider, reply: ok_reply() },
            Option::None => Dispatch::NotFound { requester, reply: not_found_reply() },
        }
    }
}

} // verus!
