//! The advertiser: it makes this instance visible to browsing peers and
//! then keeps the registration alive by doing nothing more.
//!
//! The advertiser is written as a machine. Its driver performs the action
//! that a step hands out (starting the daemon and registering touch the
//! network) and reports how that went as the next input.

use vstd::prelude::*;
use mdns_sd::ServiceInfo;
use crate::descriptor::{
    address_list_text,
    addresses_parse,
    spec_loopback,
    ServiceDescriptor,
};
use crate::fault::Fault;

verus! {

/// Where the advertiser stands.
#[derive(Clone, Copy, Debug, PartialEq, Eq, Structural)]
pub enum AdvertiserState {
    /// The daemon is being started.
    AwaitingDaemon,
    /// The record has been handed to the daemon.
    AwaitingRegistration,
    /// The service is registered.
    Advertising,
    /// The advertiser has given up.
    Failed(Fault),
}

/// How the action that the last step handed out went.
#[derive(Clone, Copy, Debug, PartialEq, Eq, Structural)]
pub enum AdvertiserInput {
    /// It was carried out.
    Succeeded,
    /// It could not be carried out.
    Failed,
}

/// What the driver is to do next.
pub enum AdvertiserAction {
    /// Start the transport daemon.
    CreateDaemon,
    /// Register this record with the daemon.
    Register(ServiceInfo),
    /// Wait; there is nothing more to do while the process lives.
    Idle,
    /// End the task with this fault.
    Abort(Fault),
}

/// The state that follows `state` on `input`. `accepted` says whether the
/// transport library accepts the record of this instance.
///
/// A failure is final, and so is success: once the service is advertised
/// no input ends the advertising.
pub open spec fn advertiser_next(
    state: AdvertiserState,
    input: AdvertiserInput,
    accepted: bool,
) -> AdvertiserState {
    match state {
        AdvertiserState::AwaitingDaemon => match input {
            AdvertiserInput::Succeeded => if accepted {
                AdvertiserState::AwaitingRegistration
            } else {
                AdvertiserState::Failed(Fault::MalformedRecord)
            },
            AdvertiserInput::Failed => AdvertiserState::Failed(Fault::TransportInit),
        },
        AdvertiserState::AwaitingRegistration => match input {
            AdvertiserInput::Succeeded => AdvertiserState::Advertising,
            AdvertiserInput::Failed => AdvertiserState::Failed(Fault::Registration),
        },
        AdvertiserState::Advertising => AdvertiserState::Advertising,
        AdvertiserState::Failed(fault) => AdvertiserState::Failed(fault),
    }
}

impl AdvertiserAction {
    /// The action is the one that a driver owes in `state`.
    pub open spec fn serves(self, state: AdvertiserState) -> bool {
        match state {
            AdvertiserState::AwaitingDaemon => self is CreateDaemon,
            AdvertiserState::AwaitingRegistration => self is Register,
            AdvertiserState::Advertising => self is Idle,
            AdvertiserState::Failed(fault) => self == AdvertiserAction::Abort(fault),
        }
    }
}

/// Whether the transport library accepts the record of an instance: the
/// record is bound to the loopback address alone.
pub open spec fn record_accepted() -> bool {
    addresses_parse(address_list_text(seq![spec_loopback()]))
}

/// The state in which the advertiser begins, and its first action.
pub fn advertiser_start() -> (first: (AdvertiserState, AdvertiserAction))
    ensures
        first.0 == AdvertiserState::AwaitingDaemon,
        first.1 is CreateDaemon,
{
    (AdvertiserState::AwaitingDaemon, AdvertiserAction::CreateDaemon)
}

/// One step of the advertiser: the state that follows `state` on `input`
/// and the action that the driver owes in it. When the daemon has come
/// up, the record of `descriptor` is made and handed out for registration.
pub fn advertiser_step(
    state: AdvertiserState,
    input: AdvertiserInput,
    descriptor: &ServiceDescriptor,
) -> (next: (AdvertiserState, AdvertiserAction))
    ensures
        next.0 == advertiser_next(state, input, record_accepted()),
        next.1.serves(next.0),
{
    match state {
        AdvertiserState::AwaitingDaemon => match input {
            AdvertiserInput::Succeeded => {
                let record = descriptor.record();
                match record.service_info() {
                    Ok(info) => (
                        AdvertiserState::AwaitingRegistration,
                        AdvertiserAction::Register(info),
                    ),
                    Err(fault) => (AdvertiserState::Failed(fault), AdvertiserAction::Abort(fault)),
                }
            },
            AdvertiserInput::Failed => (
                AdvertiserState::Failed(Fault::TransportInit),
                AdvertiserAction::Abort(Fault::TransportInit),
            ),
        },
        AdvertiserState::AwaitingRegistration => match input {
            AdvertiserInput::Succeeded => (AdvertiserState::Advertising, AdvertiserAction::Idle),
            AdvertiserInput::Failed => (
                AdvertiserState::Failed(Fault::Registration),
                AdvertiserAction::Abort(Fault::Registration),
            ),
        },
        AdvertiserState::Advertising => (state, AdvertiserAction::Idle),
        AdvertiserState::Failed(fault) => (state, AdvertiserAction::Abort(fault)),
    }
}

/// Once the service is advertised it stays advertised, and a fault stays
/// the fault it was, whatever is reported afterwards.
pub proof fn lemma_advertiser_settles(
    state: AdvertiserState,
    input: AdvertiserInput,
    accepted: bool,
)
    requires
        state is Advertising || state is Failed,
    ensures
        advertiser_next(state, input, accepted) == state,
{
}

} // verus!
