//! The relay message: the value handed from a Send worker to a Receive worker.

use vstd::prelude::*;

verus! {

/// Read access to a message that travels between workers.
///
/// `I` is the type of the client identifier, `S` that of the sender and
/// receiver aliases, `B` that of the body.
pub trait Proto<I, S, B> {
    /// The identifier of the client that sent the message.
    spec fn spec_client_id(&self) -> I;

    /// The alias of the sender.
    spec fn spec_sender(&self) -> S;

    /// The alias of the receiver.
    spec fn spec_receiver(&self) -> S;

    /// The body of the message.
    spec fn spec_body(&self) -> B;

    /// The identifier of the client that sent the message.
    fn get_client_id(&self) -> (r: &I)
        ensures
            *r == self.spec_client_id(),
    ;

    /// The alias of the sender.
    fn get_sender(&self) -> (r: &S)
        ensures
            *r == self.spec_sender(),
    ;

    /// The alias of the receiver.
    fn get_receiver(&self) -> (r: &S)
        ensures
            *r == self.spec_receiver(),
    ;

    /// The body of the message.
    fn get_body(&self) -> (r: &B)
        ensures
            *r == self.spec_body(),
    ;
}

/// A relay message: sender alias, receiver alias and body. It is never
/// changed once built.
#[derive(Debug)]
pub struct BaseProto {
    alias: String,
    body: String,
    to: String,
}

/// The abstract content of a relay message.
pub struct RelayMessage {
    pub sender: Seq<char>,
    pub receiver: Seq<char>,
    pub body: Seq<char>,
}

impl View for BaseProto {
    type V = RelayMessage;

    closed spec fn view(&self) -> RelayMessage {
        RelayMessage { sender: self.alias@, receiver: self.to@, body: self.body@ }
    }
}

impl BaseProto {
    /// Builds a message from `alias` to `to` carrying `body`.
    pub fn create(alias: String, body: String, to: String) -> (r: BaseProto)
        ensures
            r@ == (RelayMessage { sender: alias@, receiver: to@, body: body@ }),
            r.spec_client_id() == alias,
            r.spec_sender() == alias,
            r.spec_receiver() == to,
            r.spec_body() == body,
    {
        BaseProto { alias, body, to }
    }
}

impl Proto<String, String, String> for BaseProto {
    closed spec fn spec_client_id(&self) -> String {
        self.alias
    }

    closed spec fn spec_sender(&self) -> String {
        self.alias
    }

    closed spec fn spec_receiver(&self) -> String {
        self.to
    }

    closed spec fn spec_body(&self) -> String {
        self.body
    }

    /// The client identifier, which is the sender's alias.
    fn get_client_id(&self) -> (r: &String)
        ensures
            r@ == self@.sender,
    {
        &self.alias
    }

    fn get_sender(&self) -> (r: &String)
        ensures
            r@ == self@.sender,
    {
        &self.alias
    }

    fn get_receiver(&self) -> (r: &String)
        ensures
            r@ == self@.receiver,
    {
        &self.to
    }

    fn get_body(&self) -> (r: &String)
        ensures
            r@ == self@.body,
    {
        &self.body
    }
}

} // verus!
