//! The policies that turn sections of the declared document into services.

pub mod bbmri;
pub mod ccp;
pub mod dnpm;

use vstd::prelude::*;

use crate::services::{EngineError, ServiceMap};

verus! {

/// A policy that installs the services which one section of the declared
/// document asks for. A module only installs; it builds nothing.
pub trait Module {
    /// What the module does to the engine: how the engine stands after
    /// `install`, seen from how it stood before, and what `install` answers.
    spec fn installs(
        &self,
        before: ServiceMap,
        after: ServiceMap,
        r: Result<(), EngineError>,
    ) -> bool;

    /// Installs what the section of the module asks for.
    fn install(&self, service_map: &mut ServiceMap) -> (r: Result<(), EngineError>)
        requires
            old(service_map).wf(),
        ensures
            final(service_map).wf(),
            final(service_map).config == old(service_map).config,
            final(service_map).registry@.dom() == old(service_map).registry@.dom(),
            self.installs(*old(service_map), *final(service_map), r),
    ;
}

} // verus!
