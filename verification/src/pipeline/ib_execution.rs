//! Settings of the Interactive Brokers connection.

use vstd::prelude::*;

verus! {

/// Where TWS or the gateway listens, and the client id of the connection.
#[derive(Debug, Clone)]
pub struct IbConfig {
    pub host: String,
    /// Paper trading 7497, live 7496
    pub port: u16,
    /// Unique per connection
    pub client_id: i32,
}

impl Default for IbConfig {
    /// The local paper-trading gateway, client 1.
    fn default() -> (r: Self)
        ensures
            r.host@ == "127.0.0.1"@,
            r.port == 7497,
            r.client_id == 1,
    {
        IbConfig { host: "127.0.0.1".to_owned(), port: 7497, client_id: 1 }
    }
}

} // verus!
