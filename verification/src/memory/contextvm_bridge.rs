//! Whether the Context-VM server runs beside the agent.

use crate::config::snowclaw_schema::ContextVmEntry;
use vstd::prelude::*;

verus! {

/// Starts the server where it is enabled. It cannot run yet, and says why.
pub fn run(entry: Option<&ContextVmEntry>) -> (r: Result<(), &'static str>)
    ensures
        r is Ok <==> (entry is None || !entry->0.enabled),
        r matches Err(e) ==> e@
            == "Context-VM is not yet available: blocked on nostr crate version alignment between Snowclaw (0.44) and Nomen (0.39). See src/memory/contextvm_bridge.rs module docs for the fix path."@,
{
    let enabled = match entry {
        Some(e) => e.enabled,
        None => false,
    };
    if enabled {
        Err(
            "Context-VM is not yet available: blocked on nostr crate version alignment between Snowclaw (0.44) and Nomen (0.39). See src/memory/contextvm_bridge.rs module docs for the fix path.",
        )
    } else {
        Ok(())
    }
}

} // verus!
