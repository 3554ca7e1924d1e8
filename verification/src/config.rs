//! Deployment configuration for the server and the agent, with the defaults
//! the system ships with. Reading the environment or a file happens outside
//! the library; values arrive here as plain fields.
use vstd::prelude::*;

verus! {

use crate::strutil::dec_u64;
use crate::strutil::u64_to_string;
use crate::strutil::views_of;

/// The server's knobs: bind addresses, ports, sweep cadence, client expiry,
/// the connection cap, the optional HTTP bearer token and the script policy.
#[derive(Debug)]
pub struct ServerConfig {
    pub tcp_bind_addr: String,
    pub http_bind_addr: String,
    pub tcp_port: u16,
    pub http_port: u16,
    pub cleanup_interval_secs: u64,
    pub client_timeout_secs: u64,
    pub max_connections: usize,
    pub auth_token: Option<String>,
    pub allowed_script_dirs: Vec<String>,
    pub allowed_script_extensions: Vec<String>,
}

/// `host:port` in the form the listener binds.
pub open spec fn spec_address(host: Seq<char>, port: u16) -> Seq<char> {
    host + seq![':'] + dec_u64(port as int)
}

impl ServerConfig {
    pub fn tcp_address(&self) -> (r: String)
        ensures
            r@ == spec_address(self.tcp_bind_addr@, self.tcp_port),
    {
        let mut s = crate::strutil::concat2(self.tcp_bind_addr.as_str(), ":");
        let p = u64_to_string(self.tcp_port as u64);
        s.append(p.as_str());
        proof {
            reveal_strlit(":");
            assert(s@ =~= spec_address(self.tcp_bind_addr@, self.tcp_port));
        }
        s
    }

    pub fn http_address(&self) -> (r: String)
        ensures
            r@ == spec_address(self.http_bind_addr@, self.http_port),
    {
        let mut s = crate::strutil::concat2(self.http_bind_addr.as_str(), ":");
        let p = u64_to_string(self.http_port as u64);
        s.append(p.as_str());
        proof {
            reveal_strlit(":");
            assert(s@ =~= spec_address(self.http_bind_addr@, self.http_port));
        }
        s
    }
}

impl Default for ServerConfig {
    /// The shipped defaults: both services on all interfaces, a ten-second
    /// sweep, a thirty-second client timeout, a thousand connections.
    fn default() -> (r: ServerConfig)
        ensures
            r.tcp_bind_addr@ == "0.0.0.0"@,
            r.http_bind_addr@ == "0.0.0.0"@,
            r.tcp_port == 12345,
            r.http_port == 3000,
            r.cleanup_interval_secs == 10,
            r.client_timeout_secs == 30,
            r.max_connections == 1000,
            r.auth_token is None,
            views_of(r.allowed_script_dirs@) == seq![
                "/opt/ops-scripts"@,
                "/usr/local/bin/scripts"@,
                "/home/ops/scripts"@,
            ],
            views_of(r.allowed_script_extensions@) == seq!["sh"@, "py"@, "pl"@, "rb"@],
    {
        let mut allowed_script_dirs: Vec<String> = Vec::new();
        allowed_script_dirs.push(String::from_str("/opt/ops-scripts"));
        allowed_script_dirs.push(String::from_str("/usr/local/bin/scripts"));
        allowed_script_dirs.push(String::from_str("/home/ops/scripts"));
        let mut allowed_script_extensions: Vec<String> = Vec::new();
        allowed_script_extensions.push(String::from_str("sh"));
        allowed_script_extensions.push(String::from_str("py"));
        allowed_script_extensions.push(String::from_str("pl"));
        allowed_script_extensions.push(String::from_str("rb"));
        proof {
            assert(views_of(allowed_script_dirs@) =~= seq![
                "/opt/ops-scripts"@,
                "/usr/local/bin/scripts"@,
                "/home/ops/scripts"@,
            ]);
            assert(views_of(allowed_script_extensions@) =~= seq!["sh"@, "py"@, "pl"@, "rb"@]);
        }
        ServerConfig {
            tcp_bind_addr: String::from_str("0.0.0.0"),
            http_bind_addr: String::from_str("0.0.0.0"),
            tcp_port: 12345,
            http_port: 3000,
            cleanup_interval_secs: 10,
            client_timeout_secs: 30,
            max_connections: 1000,
            auth_token: None,
            allowed_script_dirs,
            allowed_script_extensions,
        }
    }
}

/// The agent's knobs: where the server is, how often to report, how to
/// retry, and where its identity and logs live on disk.
#[derive(Debug)]
pub struct ClientConfig {
    pub server_host: String,
    pub server_port: u16,
    pub heartbeat_interval_secs: u64,
    pub retry_max_attempts: u32,
    pub retry_base_delay_secs: u64,
    pub retry_max_delay_secs: u64,
    pub client_id_file: String,
    pub apps_base_dir: String,
    pub command_log_file: String,
    pub auth_token: Option<String>,
}

impl ClientConfig {
    pub fn server_address(&self) -> (r: String)
        ensures
            r@ == spec_address(self.server_host@, self.server_port),
    {
        let mut s = crate::strutil::concat2(self.server_host.as_str(), ":");
        let p = u64_to_string(self.server_port as u64);
        s.append(p.as_str());
        proof {
            reveal_strlit(":");
            assert(s@ =~= spec_address(self.server_host@, self.server_port));
        }
        s
    }
}

impl Default for ClientConfig {
    /// The shipped defaults: a local server, a three-second heartbeat, an
    /// exponential retry capped at a minute, identity and logs under /tmp.
    fn default() -> (r: ClientConfig)
        ensures
            r.server_host@ == "127.0.0.1"@,
            r.server_port == 12345,
            r.heartbeat_interval_secs == 3,
            r.retry_max_attempts == 10,
            r.retry_base_delay_secs == 2,
            r.retry_max_delay_secs == 60,
            r.client_id_file@ == "/tmp/client_id.txt"@,
            r.apps_base_dir@ == "/tmp/apps"@,
            r.command_log_file@ == "/tmp/client_commands.log"@,
            r.auth_token is None,
    {
        ClientConfig {
            server_host: String::from_str("127.0.0.1"),
            server_port: 12345,
            heartbeat_interval_secs: 3,
            retry_max_attempts: 10,
            retry_base_delay_secs: 2,
            retry_max_delay_secs: 60,
            client_id_file: String::from_str("/tmp/client_id.txt"),
            apps_base_dir: String::from_str("/tmp/apps"),
            command_log_file: String::from_str("/tmp/client_commands.log"),
            auth_token: None,
        }
    }
}

} // verus!
