//! Where the REST API listens.

use vstd::prelude::*;

use crate::text::{decimal, push_colon, push_decimal};

verus! {

pub const DEFAULT_BIND_ADDRESS: &'static str = "0.0.0.0";

pub const DEFAULT_BIND_PORT: u16 = 3000;

/// The address and the port that the REST API binds to.
#[derive(Debug, Clone)]
pub struct RestApiConfig {
    pub bind_address: String,
    pub bind_port: u16,
}

impl RestApiConfig {
    /// The socket address in the form `address:port`, the port in decimal.
    pub fn socket_addr(&self) -> (addr: String)
        ensures
            addr@ == self.bind_address@ + seq![':'] + decimal(self.bind_port as nat),
    {
        let mut addr = self.bind_address.clone();
        push_colon(&mut addr);
        push_decimal(&mut addr, self.bind_port as u128);
        addr
    }
}

impl Default for RestApiConfig {
    fn default() -> (config: Self)
        ensures
            config.bind_address@ == DEFAULT_BIND_ADDRESS@,
            config.bind_port == DEFAULT_BIND_PORT,
    {
        RestApiConfig {
            bind_address: String::from_str(DEFAULT_BIND_ADDRESS),
            bind_port: DEFAULT_BIND_PORT,
        }
    }
}

} // verus!
