//! The service under which instances find each other, and the record that
//! an instance publishes of itself.

use vstd::prelude::*;
use vstd::string::*;
use mdns_sd::ServiceInfo;
use std::collections::HashMap;
use crate::address::IpAddress;
use crate::fault::Fault;

verus! {

/// The service type that every instance advertises and browses for.
pub const SERVICE_TYPE: &'static str = "_openwboard._tcp.local.";

/// The name under which an instance advertises itself.
pub const INSTANCE_NAME: &'static str = "openwboard-instance";

/// The host name that the address records of an instance carry.
pub const HOST_NAME: &'static str = "openwboard.local.";

/// The port that an instance advertises.
pub const SERVICE_PORT: u16 = 42424;

/// What identifies the discovery domain; fixed for the life of a process.
#[derive(Clone, Debug)]
pub struct ServiceDescriptor {
    /// The service type with its domain, such as `_name._tcp.local.`.
    pub service_type: String,
    /// The instance name, without the service type.
    pub instance_name: String,
    /// The host name of the address records.
    pub host_name: String,
    /// The advertised port.
    pub port: u16,
}

/// The record that is registered with the transport.
#[derive(Clone, Debug)]
pub struct ServiceRecord {
    /// The service type with its domain.
    pub service_type: String,
    /// The instance name.
    pub instance_name: String,
    /// The host name of the address records.
    pub host_name: String,
    /// The addresses that the record is bound to.
    pub addresses: Vec<IpAddress>,
    /// The advertised port.
    pub port: u16,
}

/// The loopback address `127.0.0.1`.
pub open spec fn spec_loopback() -> IpAddress {
    IpAddress::V4([127u8, 0u8, 0u8, 1u8])
}

/// The loopback address `127.0.0.1`.
pub fn loopback() -> (address: IpAddress)
    ensures
        address == spec_loopback(),
{
    IpAddress::V4([127u8, 0u8, 0u8, 1u8])
}

impl ServiceDescriptor {
    /// The descriptor of this application.
    pub fn local() -> (descriptor: ServiceDescriptor)
        ensures
            descriptor.service_type@ == SERVICE_TYPE@,
            descriptor.instance_name@ == INSTANCE_NAME@,
            descriptor.host_name@ == HOST_NAME@,
            descriptor.port == SERVICE_PORT,
    {
        ServiceDescriptor {
            service_type: String::from_str(SERVICE_TYPE),
            instance_name: String::from_str(INSTANCE_NAME),
            host_name: String::from_str(HOST_NAME),
            port: SERVICE_PORT,
        }
    }

    /// The record of an instance of this service that is bound to the
    /// loopback address: type, name, host name and port are the
    /// descriptor's.
    pub fn record(&self) -> (record: ServiceRecord)
        ensures
            record.service_type@ == self.service_type@,
            record.instance_name@ == self.instance_name@,
            record.host_name@ == self.host_name@,
            record.port == self.port,
            record.addresses@ == seq![spec_loopback()],
    {
        let mut addresses: Vec<IpAddress> = Vec::new();
        addresses.push(loopback());
        let record = ServiceRecord {
            service_type: self.service_type.clone(),
            instance_name: self.instance_name.clone(),
            host_name: self.host_name.clone(),
            addresses,
            port: self.port,
        };
        assert(record.addresses@ =~= seq![spec_loopback()]);
        record
    }
}

/// The texts of the addresses with a comma between neighbours.
pub open spec fn address_list_text(addresses: Seq<IpAddress>) -> Seq<char>
    decreases addresses.len(),
{
    if addresses.len() == 0 {
        Seq::empty()
    } else if addresses.len() == 1 {
        addresses[0].spec_text()
    } else {
        address_list_text(addresses.drop_last()) + seq![','] + addresses.last().spec_text()
    }
}

/// The texts of the addresses with a comma between neighbours.
pub fn address_list(addresses: &Vec<IpAddress>) -> (text: String)
    ensures
        text@ == address_list_text(addresses@),
{
    let mut text = String::new();
    let mut i: usize = 0;
    while i < addresses.len()
        invariant
            i <= addresses.len(),
            text@ == address_list_text(addresses@.subrange(0, i as int)),
        decreases addresses.len() - i,
    {
        let ghost done = addresses@.subrange(0, i as int);
        let ghost next = addresses@.subrange(0, i + 1);
        assert(next.drop_last() =~= done);
        assert(next.last() == addresses@[i as int]);
        proof {
            reveal_strlit(",");
        }
        if i > 0 {
            text.append(",");
        }
        let one = addresses[i].text();
        text.append(one.as_str());
        assert(text@ =~= address_list_text(next));
        i += 1;
    }
    assert(addresses@.subrange(0, addresses.len() as int) =~= addresses@);
    text
}

/// `mdns_sd::ServiceInfo`, the record in the form that the transport
/// registers. Nothing is known of what a value holds.
#[verifier::external_type_specification]
#[verifier::external_body]
pub struct ExServiceInfo(mdns_sd::ServiceInfo);

/// `mdns_sd::Error`, the error of the transport library. Nothing is known
/// of what a value holds.
#[verifier::external_type_specification]
#[verifier::external_body]
pub struct ExTransportError(mdns_sd::Error);

/// Whether the transport library reads `text` as a list of addresses: the
/// empty text, or addresses separated by commas.
pub uninterp spec fn addresses_parse(text: Seq<char>) -> bool;

/// `mdns_sd::ServiceInfo::new` without TXT properties. The library parses
/// the address text and fails only where that text is not a list of
/// addresses; service type, names and port are taken as they are.
#[verifier::external_body]
fn new_service_info(
    service_type: &str,
    instance_name: &str,
    host_name: &str,
    addresses: &str,
    port: u16,
) -> (made: Result<ServiceInfo, mdns_sd::Error>)
    ensures
        made is Ok <==> addresses_parse(addresses@),
{
    ServiceInfo::new(
        service_type,
        instance_name,
        host_name,
        addresses,
        port,
        None::<HashMap<String, String>>,
    )
}

impl ServiceRecord {
    /// The record in the form that the transport registers. It is made
    /// from the record's type, names and port and from the text of its
    /// addresses; a record that the transport library does not accept is
    /// malformed.
    pub fn service_info(&self) -> (made: Result<ServiceInfo, Fault>)
        ensures
            made is Ok <==> addresses_parse(address_list_text(self.addresses@)),
            made is Err ==> made->Err_0 == Fault::MalformedRecord,
    {
        let addresses = address_list(&self.addresses);
        let made = new_service_info(
            self.service_type.as_str(),
            self.instance_name.as_str(),
            self.host_name.as_str(),
            addresses.as_str(),
            self.port,
        );
        record_or_fault(made)
    }
}

/// What becomes of the transport library's answer: its record, or the
/// fault of a malformed record whatever the library's error says.
pub fn record_or_fault(made: Result<ServiceInfo, mdns_sd::Error>) -> (answer: Result<
    ServiceInfo,
    Fault,
>)
    ensures
        match made {
            Ok(info) => answer == Ok::<ServiceInfo, Fault>(info),
            Err(_) => answer == Err::<ServiceInfo, Fault>(Fault::MalformedRecord),
        },
{
    match made {
        Ok(info) => Ok(info),
        Err(_) => Err(Fault::MalformedRecord),
    }
}

} // verus!
