//! The startup configuration: listening port and replication role. Only
//! the INFO command reads the replication block; the role triggers no
//! network behaviour here.

use vstd::prelude::*;

verus! {

/// The server's replication role.
#[derive(Clone, Copy, Debug, PartialEq, Eq, Structural)]
pub enum Role {
    Master,
    Slave,
}

impl Role {
    /// The role's name as the INFO block prints it.
    pub open spec fn spec_name(self) -> Seq<char> {
        match self {
            Role::Master => "master"@,
            Role::Slave => "slave"@,
        }
    }

    /// Renders the role's name, exactly as `spec_name` states it.
    pub fn to_string(&self) -> (r: String)
        ensures
            r@ == self.spec_name(),
    {
        match self {
            Role::Master => String::from_str("master"),
            Role::Slave => String::from_str("slave"),
        }
    }
}

/// The peer that a replica follows.
#[derive(Debug)]
pub struct Replication {
    pub host: String,
    pub port: u16,
}

/// The mathematical abstraction of `Replication`.
pub struct ReplicationVal {
    pub host: Seq<char>,
    pub port: u16,
}

impl DeepView for Replication {
    type V = ReplicationVal;

    open spec fn deep_view(&self) -> ReplicationVal {
        ReplicationVal { host: self.host@, port: self.port }
    }
}

/// The startup configuration.
#[derive(Debug)]
pub struct Config {
    pub port: u16,
    pub role: Role,
    pub replication: Option<Replication>,
    pub master_replid: String,
    pub master_repl_offset: u64,
}

/// The mathematical abstraction of a `Config`.
pub struct ConfigVal {
    pub port: u16,
    pub role: Role,
    pub replication: Option<ReplicationVal>,
    pub master_replid: Seq<char>,
    pub master_repl_offset: u64,
}

impl ConfigVal {
    /// The configuration a server starts with when no flag says
    /// otherwise: a master on the conventional port.
    pub open spec fn spec_default() -> ConfigVal {
        ConfigVal {
            port: 6379,
            role: Role::Master,
            replication: None,
            master_replid: "8371b4fb1155b71f4a04d3e1bc3e18c4a990aeeb"@,
            master_repl_offset: 0,
        }
    }
}

impl DeepView for Config {
    type V = ConfigVal;

    open spec fn deep_view(&self) -> ConfigVal {
        ConfigVal {
            port: self.port,
            role: self.role,
            replication: match self.replication {
                Some(ref r) => Some(r.deep_view()),
                None => None,
            },
            master_replid: self.master_replid@,
            master_repl_offset: self.master_repl_offset,
        }
    }
}

impl Default for Config {
    /// The default configuration, exactly as `ConfigVal::spec_default`
    /// states it.
    fn default() -> (r: Self)
        ensures
            r.deep_view() == ConfigVal::spec_default(),
    {
        Self {
            port: 6379,
            role: Role::Master,
            replication: None,
            master_replid: String::from_str("8371b4fb1155b71f4a04d3e1bc3e18c4a990aeeb"),
            master_repl_offset: 0,
        }
    }
}

} // verus!
