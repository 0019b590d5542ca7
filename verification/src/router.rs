//! The message router.
//!
//! Given a sender and a raw payload, decide the destination and the exact
//! bytes to deliver through the connection registry. The routing policy in
//! scope is the self-echo: the payload comes back to the sender's own live
//! connection behind an acknowledgement marker, and a sender with no live
//! entry is reported unreachable. Routing never blocks: it either succeeds
//! against the registry snapshot or fails fast.

use crate::registry::{Delivery, Registry, RouteError};
use vstd::prelude::*;
use vstd::string::StringExecFns;

verus! {

/// The echoed form of a payload: the acknowledgement marker, then the
/// payload itself.
pub open spec fn echo_of(payload: Seq<char>) -> Seq<char> {
    "Echo: "@ + payload
}

/// Route an inbound payload from `sender`: deliver the echoed payload to the
/// sender's own live connection, or report the sender unreachable.
pub fn route(reg: &Registry, sender: &String, payload: &String) -> (r: Result<
    Delivery,
    RouteError,
>)
    requires
        reg.valid(),
    ensures
        match r {
            Ok(d) => reg.is_live(sender@) && d.target == reg.handle_of(sender@) && d.message@
                == echo_of(payload@),
            Err(e) => !reg.is_live(sender@) && e == RouteError::Unreachable,
        },
{
    let mut message = String::from_str("Echo: ");
    message.append(payload.as_str());
    reg.send(sender, message)
}

} // verus!
