//! Immutable configuration snapshot shared by every component.
//!
//! The value is constructed once at process start (defaults, then the one
//! legitimate mutation: filling in an auto-detected public IP) and is
//! treated as read-only afterwards.

use vstd::prelude::*;
use vstd::string::StringExecFns;

verus! {

/// Whether the server is private to a LAN, registered on the public
/// directory, or decides automatically.
#[derive(Clone)]
pub enum ServerType {
    Lan,
    Inet,
    Auto,
}

/// Configuration snapshot. Strings are plain UTF-8 values; numeric limits
/// are plain integers. The core never mutates a snapshot after startup
/// except through [`Config::set_ip_addr`], which happens before sharing.
#[derive(Clone)]
pub struct Config {
    pub s_server_name: String,
    pub s_terrain_name: String,
    pub s_public_password: String,
    pub s_ip_addr: String,
    pub s_serverlist_host: String,
    pub s_serverlist_path: String,

    pub s_listen_port: u32,
    pub s_max_clients: u32,
    pub s_heartbeat_retry_count: u32,
    pub s_heartbeat_retry_seconds: u32,
    pub s_heartbeat_interval_sec: u32,

    pub s_show_version: bool,
    pub s_show_help: bool,

    pub s_max_vehicles: usize,
    pub s_spawn_interval_sec: i32,
    pub s_max_spawn_rate: i32,

    pub s_server_mode: ServerType,
}

impl Config {
    pub fn get_show_help(&self) -> (r: bool)
        ensures
            r == self.s_show_help,
    {
        self.s_show_help
    }

    pub fn get_show_version(&self) -> (r: bool)
        ensures
            r == self.s_show_version,
    {
        self.s_show_version
    }

    pub fn get_server_mode(&self) -> (r: &ServerType)
        ensures
            r == self.s_server_mode,
    {
        &self.s_server_mode
    }

    pub fn get_ip_addr(&self) -> (r: &str)
        ensures
            r@ == self.s_ip_addr@,
    {
        self.s_ip_addr.as_str()
    }

    pub fn get_listen_port(&self) -> (r: &u32)
        ensures
            r == self.s_listen_port,
    {
        &self.s_listen_port
    }

    pub fn get_server_name(&self) -> (r: &str)
        ensures
            r@ == self.s_server_name@,
    {
        self.s_server_name.as_str()
    }

    pub fn get_terrain_name(&self) -> (r: &str)
        ensures
            r@ == self.s_terrain_name@,
    {
        self.s_terrain_name.as_str()
    }

    pub fn get_max_clients(&self) -> (r: &u32)
        ensures
            r == self.s_max_clients,
    {
        &self.s_max_clients
    }

    pub fn get_public_pw(&self) -> (r: &str)
        ensures
            r@ == self.s_public_password@,
    {
        self.s_public_password.as_str()
    }

    pub fn get_serverlist_path(&self) -> (r: &str)
        ensures
            r@ == self.s_serverlist_path@,
    {
        self.s_serverlist_path.as_str()
    }

    pub fn get_serverlist_host(&self) -> (r: &str)
        ensures
            r@ == self.s_serverlist_host@,
    {
        self.s_serverlist_host.as_str()
    }

    pub fn get_heartbeat_retry_count(&self) -> (r: u32)
        ensures
            r == self.s_heartbeat_retry_count,
    {
        self.s_heartbeat_retry_count
    }

    pub fn get_heartbeat_retry_seconds(&self) -> (r: u32)
        ensures
            r == self.s_heartbeat_retry_seconds,
    {
        self.s_heartbeat_retry_seconds
    }

    pub fn get_heartbeat_interval_sec(&self) -> (r: u32)
        ensures
            r == self.s_heartbeat_interval_sec,
    {
        self.s_heartbeat_interval_sec
    }

    /// Fills in the public address; the one mutation a snapshot admits,
    /// performed before the value is shared.
    pub fn set_ip_addr(&mut self, ip: &str)
        ensures
            final(self).s_ip_addr@ == ip@,
            *final(self) == (Config { s_ip_addr: final(self).s_ip_addr, ..*old(self) }),
    {
        self.s_ip_addr = ip.to_owned();
    }

    /// A server is public exactly when a public password is configured.
    pub fn is_public(&self) -> (r: bool)
        ensures
            r == (self.s_public_password@.len() != 0),
    {
        !self.s_public_password.as_str().is_empty()
    }

}

impl Default for Config {
    /// The built-in defaults used until argument/INI parsing is wired in.
    fn default() -> (c: Config)
        ensures
            c.s_server_name@ == "rust server test"@,
            c.s_terrain_name@ == "any"@,
            c.s_public_password@ == "colonthree"@,
            c.s_ip_addr@ == "0.0.0.0"@,
            c.s_serverlist_host@ == "https://api.rigsofrods.org"@,
            c.s_serverlist_path@ == "https://api.rigsofrods.org"@,
            c.s_listen_port == 0,
            c.s_max_clients == 16,
            c.s_heartbeat_retry_count == 5,
            c.s_heartbeat_retry_seconds == 15,
            c.s_heartbeat_interval_sec == 60,
            !c.s_show_version,
            !c.s_show_help,
            c.s_max_vehicles == 20,
            c.s_spawn_interval_sec == 0,
            c.s_max_spawn_rate == 0,
            c.s_server_mode is Inet,
    {
        Config {
            s_server_name: String::from_str("rust server test"),
            s_terrain_name: String::from_str("any"),
            s_public_password: String::from_str("colonthree"),
            s_ip_addr: String::from_str("0.0.0.0"),
            s_serverlist_host: String::from_str("https://api.rigsofrods.org"),
            s_serverlist_path: String::from_str("https://api.rigsofrods.org"),

            s_listen_port: 0,
            s_max_clients: 16,
            s_heartbeat_retry_count: 5,
            s_heartbeat_retry_seconds: 15,
            s_heartbeat_interval_sec: 60,

            s_show_version: false,
            s_show_help: false,

            s_max_vehicles: 20,
            s_spawn_interval_sec: 0,
            s_max_spawn_rate: 0,

            s_server_mode: ServerType::Inet,
        }
    }
}

} // verus!
