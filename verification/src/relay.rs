//! The relay policy: to whom an eligible inbound frame is forwarded. Two
//! modes exist: echo, where a frame goes back to its own sender, and
//! broadcast, where it goes to every other registered session.

use vstd::prelude::*;
use crate::gateway::Gateway;

verus! {

/// The configured forwarding behaviour of the gateway.
#[derive(Clone, Copy, Debug, PartialEq, Eq, Structural)]
pub enum RelayMode {
    /// Every eligible frame from a connection is written back to that same
    /// connection.
    Echo,
    /// Every eligible frame from a connection is written to every other
    /// registered connection, never back to the sender.
    Broadcast,
}

/// The identities an eligible frame from `sender` is delivered to. In echo
/// mode that is exactly the sender; in broadcast mode exactly the other
/// registered identities, each once.
pub fn relay_recipients<T>(mode: RelayMode, sender: u64, gateway: &Gateway<T>) -> (r: Vec<u64>)
    requires
        gateway.wf(),
    ensures
        r@.no_duplicates(),
        mode == RelayMode::Echo ==> r@ == seq![sender],
        mode == RelayMode::Broadcast ==> forall|k: u64|
            #[trigger] r@.contains(k) <==> (gateway.sessions().contains_key(k) && k != sender),
{
    match mode {
        RelayMode::Echo => {
            let mut v: Vec<u64> = Vec::new();
            v.push(sender);
            proof {
                assert(v@ =~= seq![sender]);
            }
            v
        },
        RelayMode::Broadcast => gateway.broadcast_targets(Some(sender)),
    }
}

} // verus!
