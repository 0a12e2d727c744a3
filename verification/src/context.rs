//! What accompanies one message on its way through the engine.

use vstd::prelude::*;

use crate::connection::SocketOrUnix;
use crate::protocol::{TMessageIdentifier, TMessageType};

verus! {

/// The context of one message: its header and, on the client, the
/// endpoint it goes to.
#[derive(Debug, PartialEq, Eq)]
pub struct MsgContext {
    pub identifier: TMessageIdentifier,
    pub target: Option<SocketOrUnix>,
}

/// The header of a message as mathematics.
pub struct Header {
    pub name: Seq<char>,
    pub message_type: TMessageType,
    pub sequence_number: i32,
}

impl TMessageIdentifier {
    /// This identifier as mathematics.
    pub open spec fn header(self) -> Header {
        Header {
            name: self.name@,
            message_type: self.message_type,
            sequence_number: self.sequence_number,
        }
    }
}

impl MsgContext {
    /// The header that this context carries.
    pub open spec fn header(self) -> Header {
        self.identifier.header()
    }
}

impl Default for MsgContext {
    fn default() -> (r: Self)
        ensures
            r.identifier.name@ == Seq::<char>::empty(),
            r.identifier.message_type == TMessageType::Call,
            r.identifier.sequence_number == 0,
            r.target is None,
    {
        MsgContext { identifier: TMessageIdentifier::default(), target: None }
    }
}

impl Clone for MsgContext {
    fn clone(&self) -> (r: Self)
        ensures
            r == *self,
    {
        let target = match &self.target {
            Some(t) => Some(t.clone()),
            None => None,
        };
        MsgContext { identifier: self.identifier.clone(), target }
    }
}

} // verus!
