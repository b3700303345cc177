//! Service discovery configuration.

use vstd::prelude::*;

verus! {

/// A service announced on the local network.
#[derive(Debug, PartialEq, Eq)]
pub struct ServiceInfo {
    /// The service's name.
    pub name: Vec<u8>,
    /// The service's type label.
    pub service_type: Vec<u8>,
    /// The port it listens on.
    pub port: u16,
    /// Custom attributes, in insertion order.
    pub attributes: Vec<(Vec<u8>, Vec<u8>)>,
}

impl ServiceInfo {
    /// A service record with no custom attributes.
    pub fn new(name: Vec<u8>, service_type: Vec<u8>, port: u16) -> (r: Self)
        ensures
            r.name == name,
            r.service_type == service_type,
            r.port == port,
            r.attributes@.len() == 0,
    {
        Self { name, service_type, port, attributes: Vec::new() }
    }

    /// The same record with one more custom attribute appended.
    pub fn with_attribute(self, key: Vec<u8>, value: Vec<u8>) -> (r: Self)
        ensures
            r.name == self.name,
            r.service_type == self.service_type,
            r.port == self.port,
            r.attributes@ == self.attributes@.push((key, value)),
    {
        let mut me = self;
        me.attributes.push((key, value));
        me
    }
}

/// Configuration of the multicast discovery.
#[derive(Debug)]
pub struct MdnsConfig {
    /// Addresses to listen on, as text.
    pub listen_addresses: Vec<Vec<u8>>,
    /// Cadence of service queries, in milliseconds.
    pub query_interval: u64,
    /// The service announced, if any.
    pub service_info: Option<ServiceInfo>,
}

impl MdnsConfig {
    /// No listen addresses, five-second queries, nothing announced.
    pub fn new() -> (r: Self)
        ensures
            r.listen_addresses@.len() == 0,
            r.query_interval == 5_000,
            r.service_info is None,
    {
        Self { listen_addresses: Vec::new(), query_interval: 5_000, service_info: None }
    }

    /// Set the listen addresses.
    pub fn with_listen_addresses(self, addrs: Vec<Vec<u8>>) -> (r: Self)
        ensures
            r == (MdnsConfig { listen_addresses: addrs, ..self }),
    {
        MdnsConfig { listen_addresses: addrs, ..self }
    }

    /// Set the query cadence, in milliseconds.
    pub fn with_query_interval(self, interval: u64) -> (r: Self)
        ensures
            r == (MdnsConfig { query_interval: interval, ..self }),
    {
        MdnsConfig { query_interval: interval, ..self }
    }

    /// Announce a service.
    pub fn with_service_info(self, info: ServiceInfo) -> (r: Self)
        ensures
            r == (MdnsConfig { service_info: Some(info), ..self }),
    {
        MdnsConfig { service_info: Some(info), ..self }
    }
}

} // verus!
