//! External Bus Interface pin wrapper

use vstd::prelude::*;

verus! {

/// Marks a set of pins that is wired to the external bus.
pub trait EBIPins {

}

/// The external bus interface, with its pins bound.
#[derive(Debug, Copy, Clone, PartialEq, Eq, Structural)]
pub struct ExternalBusInterface {}

impl ExternalBusInterface {
    /// Binds the pins of the external bus.
    pub fn new(_pins: &dyn EBIPins) -> (bus: ExternalBusInterface)
        ensures
            bus == (ExternalBusInterface {  }),
    {
        ExternalBusInterface {  }
    }
}

} // verus!
