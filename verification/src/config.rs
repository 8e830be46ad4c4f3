//! The settings of the server.

use crate::message::MessageGuidelines;
use crate::user::UsernameGuidelines;
use vstd::prelude::*;

verus! {

/// All settings of the server.
#[derive(Debug, PartialEq, Eq)]
pub struct ServerConfig {
    pub net: NetConfig,
    pub system: SystemConfig,
    pub message_guidelines: MessageGuidelines,
    pub username_guidelines: UsernameGuidelines,
}

impl Default for ServerConfig {
    /// The default of each part.
    fn default() -> (r: Self)
        ensures
            r.net.ip_view() == "127.0.0.1:1234"@,
            r.net.read_port() == 4321,
            r.system.threads() == 20,
            r.system.key_start() == 0,
            r.system.verbose(),
            r.message_guidelines.message_size() == 4000,
            !r.message_guidelines.just_whitespace(),
            !r.message_guidelines.trailing_whitespace(),
            !r.message_guidelines.leading_whitespace(),
            !r.message_guidelines.empty(),
            r.message_guidelines.text_only(),
            r.username_guidelines.max_length() == 10,
            r.username_guidelines.min_length() == 3,
            !r.username_guidelines.whitespace(),
            r.username_guidelines.text_only(),
    {
        ServerConfig {
            net: NetConfig::default(),
            system: SystemConfig::default(),
            message_guidelines: MessageGuidelines::default(),
            username_guidelines: UsernameGuidelines::default(),
        }
    }
}

impl Clone for ServerConfig {
    fn clone(&self) -> (r: Self)
        ensures
            r.net.ip_view() == self.net.ip_view(),
            r.net.read_port() == self.net.read_port(),
            r.system == self.system,
            r.message_guidelines == self.message_guidelines,
            r.username_guidelines == self.username_guidelines,
    {
        ServerConfig {
            net: self.net.clone(),
            system: self.system,
            message_guidelines: self.message_guidelines,
            username_guidelines: self.username_guidelines,
        }
    }
}

/// Where the server listens, and where it reaches its clients.
#[derive(Debug, PartialEq, Eq)]
pub struct NetConfig {
    ip: String,
    read_port: u16,
}

impl Default for NetConfig {
    /// Listen on 127.0.0.1:1234, reach clients at port 4321.
    fn default() -> (r: Self)
        ensures
            r.ip_view() == "127.0.0.1:1234"@,
            r.read_port() == 4321,
    {
        Self { ip: "127.0.0.1:1234".to_owned(), read_port: 4321 }
    }
}

impl Clone for NetConfig {
    fn clone(&self) -> (r: Self)
        ensures
            r.ip_view() == self.ip_view(),
            r.read_port() == self.read_port(),
    {
        NetConfig { ip: self.ip.clone(), read_port: self.read_port }
    }
}

impl NetConfig {
    /// The address that the server listens on, as text.
    pub closed spec fn ip_view(&self) -> Seq<char> {
        self.ip@
    }

    /// The port on which a client waits for the server to dial back.
    pub closed spec fn spec_read_port(&self) -> u16 {
        self.read_port
    }

    /// The settings with the given listen address and client port.
    pub fn new(ip: String, read_port: u16) -> (r: Self)
        ensures
            r.ip_view() == ip@,
            r.read_port() == read_port,
    {
        Self { ip, read_port }
    }

    /// The address that the server listens on.
    pub fn ip(&self) -> (r: &str)
        ensures
            r@ == self.ip_view(),
    {
        self.ip.as_str()
    }

    /// The port on which a client waits for the server to dial back.
    #[verifier::when_used_as_spec(spec_read_port)]
    pub fn read_port(&self) -> (r: u16)
        ensures
            r == self.read_port(),
    {
        self.read_port
    }
}

/// How the server runs.
#[derive(Debug, Clone, Copy, PartialEq, Eq, Structural)]
pub struct SystemConfig {
    threads: usize,
    key_start: usize,
    verbose: bool,
}

impl Default for SystemConfig {
    /// Twenty workers, ids after zero, verbose.
    fn default() -> (r: Self)
        ensures
            r.threads() == 20,
            r.key_start() == 0,
            r.verbose(),
    {
        Self { threads: 20, key_start: 0, verbose: true }
    }
}

impl SystemConfig {
    /// The number of workers that serve connections.
    pub closed spec fn spec_threads(&self) -> usize {
        self.threads
    }

    /// The id after which the ids of clients are counted.
    pub closed spec fn spec_key_start(&self) -> usize {
        self.key_start
    }

    /// Whether the server logs everything.
    pub closed spec fn spec_verbose(&self) -> bool {
        self.verbose
    }

    /// The settings with the given values.
    pub fn new(threads: usize, key_start: usize, verbose: bool) -> (r: Self)
        ensures
            r.threads() == threads,
            r.key_start() == key_start,
            r.verbose() == verbose,
    {
        Self { threads, key_start, verbose }
    }

    /// The number of workers that serve connections.
    #[verifier::when_used_as_spec(spec_threads)]
    pub fn threads(&self) -> (r: usize)
        ensures
            r == self.threads(),
    {
        self.threads
    }

    /// The id after which the ids of clients are counted.
    #[verifier::when_used_as_spec(spec_key_start)]
    pub fn key_start(&self) -> (r: usize)
        ensures
            r == self.key_start(),
    {
        self.key_start
    }

    /// Whether the server logs everything.
    #[verifier::when_used_as_spec(spec_verbose)]
    pub fn verbose(&self) -> (r: bool)
        ensures
            r == self.verbose(),
    {
        self.verbose
    }
}

} // verus!
