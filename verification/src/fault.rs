//! The faults that end a background task.

use vstd::prelude::*;

verus! {

/// Why a task gave up. Every fault is final for the task that met it: no
/// step is tried again, and the other task is not told.
#[derive(Clone, Copy, Debug, PartialEq, Eq, Structural)]
pub enum Fault {
    /// The transport daemon could not be started.
    TransportInit,
    /// The service record was not accepted by the transport library.
    MalformedRecord,
    /// The daemon refused to register the service.
    Registration,
    /// The daemon refused the browse request.
    BrowseRequest,
}

impl Fault {
    /// The diagnostic that goes with the fault.
    pub open spec fn spec_message(self) -> Seq<char> {
        match self {
            Fault::TransportInit => "Failed to start mDNS daemon"@,
            Fault::MalformedRecord => "Failed to create service info"@,
            Fault::Registration => "Failed to register mDNS service"@,
            Fault::BrowseRequest => "Failed to browse service"@,
        }
    }

    /// The diagnostic that goes with the fault.
    pub fn message(self) -> (text: &'static str)
        ensures
            text@ == self.spec_message(),
    {
        match self {
            Fault::TransportInit => "Failed to start mDNS daemon",
            Fault::MalformedRecord => "Failed to create service info",
            Fault::Registration => "Failed to register mDNS service",
            Fault::BrowseRequest => "Failed to browse service",
        }
    }
}

} // verus!
