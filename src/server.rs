//! The server's routing state: the Send-side and Receive-side pools, the
//! counter that issues entry ids, and the delivery of one message.

use vstd::prelude::*;
use vstd::string::StringExecFns;

use crate::pool::{ids_below, new_entry, routes_to, PoolEntry, RoutingPool};
use crate::pto::{BaseProto, Proto};
use crate::response::Status;
use crate::text::{trim_ws, trimmed};

verus! {

#[verifier::external_type_specification]
#[verifier::external_body]
#[verifier::reject_recursive_types(T)]
pub struct ExSender<T>(std::sync::mpsc::Sender<T>);

/// The delivery endpoint of a Receive connection.
pub type Endpoint = std::sync::mpsc::Sender<BaseProto>;

/// The entry of a Receive connection: its alias and the endpoint that
/// delivers to it.
pub type ClientReceiverContainer = PoolEntry<Endpoint>;

/// The entry of a Send connection: the alias it sends to.
pub type ClientSenderContainer = PoolEntry<()>;

/// The decimal digits of `n`.
pub open spec fn digits(n: nat) -> Seq<char>
    decreases n,
{
    if n < 10 {
        seq![((n + 48) as u8) as char]
    } else {
        digits(n / 10) + seq![((n % 10 + 48) as u8) as char]
    }
}

/// `n` written in decimal, with a leading `-` when negative.
pub open spec fn decimal(n: int) -> Seq<char> {
    if n < 0 {
        seq!['-'] + digits((-n) as nat)
    } else {
        digits(n as nat)
    }
}

/// Relies on the `Display` impl of `i32` (through `to_string`): decimal
/// digits, with a leading `-` for negative values.
#[verifier::external_body]
fn int_text(n: i32) -> (r: String)
    ensures
        r@ == decimal(n as int),
{
    n.to_string()
}

/// Relies on `Sender::send`: it never blocks, and fails only when the
/// receiving end is gone, which no caller can know beforehand.
#[verifier::external_body]
fn push(tx: &Endpoint, m: BaseProto) -> (r: bool) {
    tx.send(m).is_ok()
}

/// The routing state of a relay server.
pub struct Server {
    host: String,
    port: i32,
    send_container_pool: RoutingPool<()>,
    receive_container_pool: RoutingPool<Endpoint>,
    stream_counter: u64,
}

/// The status of a delivery: `InvalidIdentifier` when no receiver was found,
/// else `Success` or `ServerError` as the push went.
pub open spec fn delivery_status(found: bool, pushed: bool) -> Status {
    if !found {
        Status::InvalidIdentifier
    } else if pushed {
        Status::Success
    } else {
        Status::ServerError
    }
}

/// The status of a delivery, given whether a receiver was found and whether
/// the push onto its channel went through.
pub fn status_for(found: bool, pushed: bool) -> (r: Status)
    ensures
        r == delivery_status(found, pushed),
{
    if !found {
        Status::InvalidIdentifier
    } else if pushed {
        Status::Success
    } else {
        Status::ServerError
    }
}

/// `after` is `before` with one more id issued: `id`, the one after the last.
pub open spec fn registered(before: Server, after: Server, id: u64) -> bool {
    &&& id == before.issued() + 1
    &&& after.issued() == id
}

impl Server {
    /// The host the server binds.
    pub closed spec fn host(&self) -> Seq<char> {
        self.host@
    }

    /// The port the server binds.
    pub closed spec fn port(&self) -> i32 {
        self.port
    }

    /// The entries of Send connections.
    pub closed spec fn senders(&self) -> Seq<PoolEntry<()>> {
        self.send_container_pool@
    }

    /// The entries of Receive connections.
    pub closed spec fn receivers(&self) -> Seq<PoolEntry<Endpoint>> {
        self.receive_container_pool@
    }

    /// The last id issued, or 0 when none was.
    pub closed spec fn issued(&self) -> u64 {
        self.stream_counter
    }

    /// Every id in either pool was issued, each pool is well formed, and no
    /// id stands in both pools.
    pub closed spec fn wf(&self) -> bool {
        &&& self.send_container_pool.wf()
        &&& self.receive_container_pool.wf()
        &&& ids_below(self.senders(), self.stream_counter + 1)
        &&& ids_below(self.receivers(), self.stream_counter + 1)
        &&& forall|i: int, j: int|
            0 <= i < self.senders().len() && 0 <= j < self.receivers().len()
                ==> self.senders()[i].id != self.receivers()[j].id
    }

    /// A server for `host` and `port`, with empty pools and no id issued.
    pub fn new(host: String, port: i32) -> (r: Server)
        ensures
            r.wf(),
            r.host() == host@,
            r.port() == port,
            r.senders().len() == 0,
            r.receivers().len() == 0,
            r.issued() == 0,
    {
        Server {
            host,
            port,
            send_container_pool: RoutingPool::new(),
            receive_container_pool: RoutingPool::new(),
            stream_counter: 0,
        }
    }

    /// The address to bind: the trimmed host, `:`, the port.
    pub fn construct_addr(&self) -> (r: String)
        ensures
            r@ == trimmed(self.host()) + ":"@ + decimal(self.port() as int),
    {
        let host = String::from_str(trim_ws(self.host.as_str()));
        let port = int_text(self.port);
        host.concat(":").concat(port.as_str())
    }

    /// Issues the next id; `None` once every id has been issued.
    fn generate_id(&mut self) -> (r: Option<u64>)
        requires
            old(self).wf(),
        ensures
            final(self).wf(),
            final(self).senders() == old(self).senders(),
            final(self).receivers() == old(self).receivers(),
            final(self).host() == old(self).host(),
            final(self).port() == old(self).port(),
            old(self).issued() < u64::MAX ==> r == Some((old(self).issued() + 1) as u64),
            match r {
                Some(id) => registered(*old(self), *final(self), id),
                None => old(self).issued() == u64::MAX && *final(self) == *old(self),
            },
    {
        if self.stream_counter == u64::MAX {
            None
        } else {
            self.stream_counter = self.stream_counter + 1;
            Some(self.stream_counter)
        }
    }

    /// Registers a Receive connection under its own alias, with the endpoint
    /// that delivers to it, and returns the entry's id; `None`, and no change,
    /// once every id has been issued.
    pub fn register_receive(&mut self, alias: String, endpoint: Endpoint) -> (r: Option<u64>)
        requires
            old(self).wf(),
        ensures
            final(self).wf(),
            final(self).senders() == old(self).senders(),
            final(self).host() == old(self).host(),
            final(self).port() == old(self).port(),
            match r {
                Some(id) => registered(*old(self), *final(self), id) && final(self).receivers()
                    == old(self).receivers().push(new_entry(id, alias, endpoint)),
                None => old(self).issued() == u64::MAX && *final(self) == *old(self),
            },
    {
        match self.generate_id() {
            None => None,
            Some(id) => {
                self.receive_container_pool.register(id, alias, endpoint);
                Some(id)
            },
        }
    }

    /// Registers a Send connection under the alias it sends to and returns
    /// the entry's id; `None`, and no change, once every id has been issued.
    pub fn register_send(&mut self, to_alias: String) -> (r: Option<u64>)
        requires
            old(self).wf(),
        ensures
            final(self).wf(),
            final(self).receivers() == old(self).receivers(),
            final(self).host() == old(self).host(),
            final(self).port() == old(self).port(),
            match r {
                Some(id) => registered(*old(self), *final(self), id) && final(self).senders()
                    == old(self).senders().push(new_entry(id, to_alias, ())),
                None => old(self).issued() == u64::MAX && *final(self) == *old(self),
            },
    {
        match self.generate_id() {
            None => None,
            Some(id) => {
                self.send_container_pool.register(id, to_alias, ());
                Some(id)
            },
        }
    }

    /// The endpoint of the first Receive connection registered under `alias`.
    pub fn lookup_receiver(&self, alias: &String) -> (r: Option<&Endpoint>)
        ensures
            match r {
                Some(e) => routes_to(self.receivers(), alias@) == Some(*e),
                None => routes_to(self.receivers(), alias@) is None,
            },
    {
        self.receive_container_pool.lookup(alias)
    }

    /// Removes the Receive entry with the given id; see `RoutingPool::remove`.
    pub fn remove_receive(&mut self, id: u64) -> (r: Option<PoolEntry<Endpoint>>)
        requires
            old(self).wf(),
        ensures
            final(self).wf(),
            final(self).senders() == old(self).senders(),
            final(self).issued() == old(self).issued(),
            final(self).host() == old(self).host(),
            final(self).port() == old(self).port(),
            match r {
                Some(e) => exists|i: int|
                    0 <= i < old(self).receivers().len() && old(self).receivers()[i].id == id && e
                        == old(self).receivers()[i] && final(self).receivers() == old(
                        self,
                    ).receivers().remove(i),
                None => final(self).receivers() == old(self).receivers() && forall|i: int|
                    0 <= i < old(self).receivers().len() ==> old(self).receivers()[i].id != id,
            },
    {
        let r = self.receive_container_pool.remove(id);
        proof {
            let s = self.senders();
            let rv = self.receivers();
            let orv = old(self).receivers();
            assert forall|i: int| 0 <= i < rv.len() implies exists|k: int|
                0 <= k < orv.len() && #[trigger] rv[i] == orv[k] by {
                if r is Some {
                    let j = choose|j: int|
                        0 <= j < orv.len() && orv[j].id == id && rv == orv.remove(j);
                    let k = if i < j { i } else { i + 1 };
                    assert(rv[i] == orv[k]);
                } else {
                    assert(rv[i] == orv[i]);
                }
            }
        }
        r
    }

    /// Removes the Send entry with the given id; see `RoutingPool::remove`.
    pub fn remove_send(&mut self, id: u64) -> (r: Option<PoolEntry<()>>)
        requires
            old(self).wf(),
        ensures
            final(self).wf(),
            final(self).receivers() == old(self).receivers(),
            final(self).issued() == old(self).issued(),
            final(self).host() == old(self).host(),
            final(self).port() == old(self).port(),
            match r {
                Some(e) => exists|i: int|
                    0 <= i < old(self).senders().len() && old(self).senders()[i].id == id && e
                        == old(self).senders()[i] && final(self).senders() == old(
                        self,
                    ).senders().remove(i),
                None => final(self).senders() == old(self).senders() && forall|i: int|
                    0 <= i < old(self).senders().len() ==> old(self).senders()[i].id != id,
            },
    {
        let r = self.send_container_pool.remove(id);
        proof {
            let sv = self.senders();
            let osv = old(self).senders();
            assert forall|i: int| 0 <= i < sv.len() implies exists|k: int|
                0 <= k < osv.len() && #[trigger] sv[i] == osv[k] by {
                if r is Some {
                    let j = choose|j: int|
                        0 <= j < osv.len() && osv[j].id == id && sv == osv.remove(j);
                    let k = if i < j { i } else { i + 1 };
                    assert(sv[i] == osv[k]);
                } else {
                    assert(sv[i] == osv[i]);
                }
            }
        }
        r
    }

    /// Delivers a message to the first Receive connection registered under
    /// its receiver alias. With no such connection nothing is pushed and the
    /// status is `InvalidIdentifier`; otherwise the message is pushed onto that
    /// connection's channel and the status is `Success`, or `ServerError` if the
    /// channel is closed.
    pub fn dispatch(&self, msg: BaseProto) -> (r: Status)
        ensures
            routes_to(self.receivers(), msg@.receiver) is None <==> r == Status::InvalidIdentifier,
            r == Status::InvalidIdentifier || r == Status::Success || r == Status::ServerError,
    {
        let found = self.lookup_receiver(msg.get_receiver());
        match found {
            None => status_for(false, false),
            Some(tx) => {
                let pushed = push(tx, msg);
                status_for(true, pushed)
            },
        }
    }
}

/// Ids only grow: of two registrations, the later one gets the larger id,
/// whatever happened in between (removals leave the counter alone).
pub proof fn lemma_register_ids_increase(
    s0: Server,
    s1: Server,
    id1: u64,
    s2: Server,
    s3: Server,
    id2: u64,
)
    requires
        registered(s0, s1, id1),
        s1.issued() <= s2.issued(),
        registered(s2, s3, id2),
    ensures
        id1 < id2,
{
}

/// In a well-formed server no two entries share an id, within a pool or
/// across the two pools.
pub proof fn lemma_ids_unique(s: Server)
    requires
        s.wf(),
    ensures
        forall|i: int, j: int|
            0 <= i < j < s.senders().len() ==> s.senders()[i].id != s.senders()[j].id,
        forall|i: int, j: int|
            0 <= i < j < s.receivers().len() ==> s.receivers()[i].id != s.receivers()[j].id,
        forall|i: int, j: int|
            0 <= i < s.senders().len() && 0 <= j < s.receivers().len() ==> s.senders()[i].id
                != s.receivers()[j].id,
        forall|i: int| 0 <= i < s.senders().len() ==> s.senders()[i].id <= s.issued(),
        forall|i: int| 0 <= i < s.receivers().len() ==> s.receivers()[i].id <= s.issued(),
{
}

} // verus!
