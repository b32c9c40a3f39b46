//! The server's settings.
use vstd::prelude::*;

use crate::text::{decimal, parse_u16, parse_unsigned, push_decimal};

verus! {

/// Where the server listens, and the secret that clients must present.
#[derive(Debug, Clone)]
pub struct Config {
    pub host: String,
    pub port: u16,
    pub secret: String,
}

/// The host that the server listens on unless told otherwise.
pub fn default_host() -> (s: String)
    ensures
        s@ == "127.0.0.1"@,
{
    String::from_str("127.0.0.1")
}

/// The port that the server listens on unless told otherwise.
pub fn default_port() -> (p: u16)
    ensures
        p == 60002,
{
    60002
}

/// The secret, empty unless configured.
pub fn default_string() -> (s: String)
    ensures
        s@ == ""@,
{
    String::from_str("")
}

impl Default for Config {
    fn default() -> (c: Self)
        ensures
            c.host@ == "127.0.0.1"@,
            c.port == 60002,
            c.secret@ == ""@,
    {
        Config { host: default_host(), port: default_port(), secret: default_string() }
    }
}

impl Config {
    /// Applies the settings given by the environment (`AKV_HOST`, `AKV_PORT`),
    /// each when present.
    pub fn parse_env_var(&mut self, host: Option<String>, port: Option<String>)
        requires
            port matches Some(p) ==> parse_unsigned(p@, u16::MAX as nat) is Some,
        ensures
            final(self).host == (match host {
                Some(h) => h,
                None => old(self).host,
            }),
            final(self).port == (match port {
                Some(p) => parse_unsigned(p@, u16::MAX as nat)->0 as u16,
                None => old(self).port,
            }),
            final(self).secret == old(self).secret,
    {
        if let Some(h) = host {
            self.host = h;
        }
        if let Some(p) = port {
            match parse_u16(p.as_str()) {
                Ok(v) => {
                    self.port = v;
                },
                Err(_) => {},
            }
        }
    }

    /// The address to listen on: the host, a colon and the port in decimal.
    pub fn get_address(&self) -> (a: String)
        ensures
            a@ == self.host@ + ":"@ + decimal(self.port as nat),
    {
        let mut a = self.host.clone();
        a.append(":");
        push_decimal(&mut a, self.port as u64);
        a
    }
}

} // verus!
