use vstd::prelude::*;

use crate::text::{decimal, decimal_string, owned};

verus! {

/// Settings of the server around the library.
#[derive(Debug, Clone)]
pub struct AppConfig {
    pub host: String,
    pub port: u16,
    pub max_file_size: usize,
    pub temp_dir: String,
    pub cors_origins: Vec<String>,
    pub request_timeout_seconds: u64,
}

impl Default for AppConfig {
    fn default() -> (r: Self)
        ensures
            r.host@ == "0.0.0.0"@,
            r.port == 3000,
            r.max_file_size == 10 * 1024 * 1024,
            r.temp_dir@ == "/tmp/code-snippet-designer"@,
            r.cors_origins@.len() == 1,
            r.cors_origins@[0]@ == "*"@,
            r.request_timeout_seconds == 30,
    {
        AppConfig {
            host: owned("0.0.0.0"),
            port: 3000,
            max_file_size: 10 * 1024 * 1024,
            temp_dir: owned("/tmp/code-snippet-designer"),
            cors_origins: vec![owned("*")],
            request_timeout_seconds: 30,
        }
    }
}

impl AppConfig {
    /// The address to listen on: host, colon, port.
    pub fn bind_address(&self) -> (r: String)
        ensures
            r@ == self.host@ + ":"@ + decimal(self.port as nat),
    {
        let mut s = self.host.clone();
        s.append(":");
        let p = decimal_string(self.port as u64);
        s.append(p.as_str());
        s
    }
}

} // verus!
