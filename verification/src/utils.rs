//! Small helpers shared by the codecs.

use vstd::prelude::*;

use vstd::string::*;

use crate::errors::{new_protocol_error, Error, Fault, ProtocolErrorKind};
use crate::protocol::{ttype_name, TType};

verus! {

/// What is said of a tag that is not the tag expected.
pub open spec fn mismatch_text(x: TType, y: TType) -> Seq<char> {
    "invalid ttype: "@ + ttype_name(x) + ", expect: "@ + ttype_name(y)
}

/// Checks that the tag found on the wire is the tag expected; a different
/// one is invalid data, and the error names both.
pub fn ttype_comparing(x: TType, y: TType) -> (r: Result<(), Error>)
    ensures
        x == y ==> r is Ok,
        x != y ==> r is Err && r->Err_0.fault() == Fault::Protocol(
            ProtocolErrorKind::InvalidData,
            mismatch_text(x, y),
        ),
{
    if x != y {
        let mut message = String::from_str("invalid ttype: ");
        message.append(x.name());
        message.append(", expect: ");
        message.append(y.name());
        return Err(new_protocol_error(ProtocolErrorKind::InvalidData, message.as_str()));
    }
    Ok(())
}

} // verus!
