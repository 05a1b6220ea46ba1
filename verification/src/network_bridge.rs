//! The transport abstraction the facade depends on.

use vstd::prelude::*;

verus! {

/// A transport that can tear the session to the management server down.
/// Implementations live with the code that owns the actual connection;
/// this core only ever delegates to them.
pub trait NetworkBridge {
    /// Closes the connection, reporting any failure as text.
    fn disconnect(&self) -> Result<(), String>;
}

} // verus!
