//! Server lifecycle state.
//!
//! The decisions of the accept/shutdown life cycle live here: a
//! stopped server accepts `start`, a running one accepts `stop`, and
//! status reports the configuration, the connection count and the
//! last error.  The binary performs the bind, the accept loop and
//! the shutdown broadcast around these transitions.

use vstd::prelude::*;

verus! {

use crate::types::ServerStatus;

/// Server configuration.
#[derive(Debug)]
pub struct ServerConfig {
    pub host: String,
    pub port: u16,
    pub unit_id: u8,
}

impl Clone for ServerConfig {
    /// Field-for-field copy.
    fn clone(&self) -> (res: Self)
        ensures
            res == *self,
    {
        ServerConfig { host: self.host.clone(), port: self.port, unit_id: self.unit_id }
    }
}

impl Default for ServerConfig {
    /// Wildcard address, default Modbus port, unit 1.
    fn default() -> (r: Self)
        ensures
            r.host@ == "0.0.0.0"@,
            r.port == 502,
            r.unit_id == 1,
    {
        ServerConfig { host: "0.0.0.0".to_owned(), port: 502, unit_id: 1 }
    }
}

/// The control-plane state of the Modbus server: whether it runs,
/// under which configuration, with how many live connections, and
/// the last error if any.
#[derive(Debug)]
pub struct ServerCore {
    running: bool,
    config: ServerConfig,
    last_error: Option<String>,
    connections_count: usize,
}

impl ServerCore {
    /// Whether the server is marked running.
    pub closed spec fn spec_running(&self) -> bool {
        self.running
    }

    /// The current configuration.
    pub closed spec fn spec_config(&self) -> ServerConfig {
        self.config
    }

    /// The last recorded error.
    pub closed spec fn spec_last_error(&self) -> Option<String> {
        self.last_error
    }

    /// The number of live connections.
    pub closed spec fn spec_connections(&self) -> int {
        self.connections_count as int
    }

    /// A new, stopped server with the default configuration.
    pub fn new() -> (s: Self)
        ensures
            !s.spec_running(),
            s.spec_config().host@ == "0.0.0.0"@,
            s.spec_config().port == 502,
            s.spec_config().unit_id == 1,
            s.spec_last_error() is None,
            s.spec_connections() == 0,
    {
        ServerCore {
            running: false,
            config: ServerConfig::default(),
            last_error: None,
            connections_count: 0,
        }
    }

    /// Replace the configuration.
    pub fn set_config(&mut self, host: String, port: u16, unit_id: u8)
        ensures
            final(self).spec_config().host == host,
            final(self).spec_config().port == port,
            final(self).spec_config().unit_id == unit_id,
            final(self).spec_running() == old(self).spec_running(),
            final(self).spec_last_error() == old(self).spec_last_error(),
            final(self).spec_connections() == old(self).spec_connections(),
    {
        self.config = ServerConfig { host, port, unit_id };
    }

    /// Whether the server is running.
    pub fn is_running(&self) -> (r: bool)
        ensures
            r == self.spec_running(),
    {
        self.running
    }

    /// Record an error message.
    pub fn set_error(&mut self, error: String)
        ensures
            final(self).spec_last_error() == Some(error),
            final(self).spec_running() == old(self).spec_running(),
            final(self).spec_config() == old(self).spec_config(),
            final(self).spec_connections() == old(self).spec_connections(),
    {
        self.last_error = Some(error);
    }

    /// Ask to start: only a stopped server may start.  The caller
    /// then binds the listener and reports back with `mark_started`
    /// or `mark_bind_failed`.
    pub fn check_can_start(&self) -> (r: Result<(), String>)
        ensures
            r is Ok <==> !self.spec_running(),
            r is Err ==> r->Err_0@ == "Server is already running"@,
    {
        if self.running {
            let mut msg = String::new();
            msg.append("Server is already running");
            proof {
                assert(msg@ =~= "Server is already running"@);
            }
            return Err(msg);
        }
        Ok(())
    }

    /// The listener is bound: mark running and clear the last error.
    pub fn mark_started(&mut self)
        ensures
            final(self).spec_running(),
            final(self).spec_last_error() is None,
            final(self).spec_config() == old(self).spec_config(),
            final(self).spec_connections() == old(self).spec_connections(),
    {
        self.last_error = None;
        self.running = true;
    }

    /// The bind failed: stay stopped and record the error.
    pub fn mark_bind_failed(&mut self, error: String)
        ensures
            !final(self).spec_running(),
            final(self).spec_last_error() == Some(error),
            final(self).spec_config() == old(self).spec_config(),
            final(self).spec_connections() == old(self).spec_connections(),
    {
        self.running = false;
        self.last_error = Some(error);
    }

    /// Stop a running server: mark stopped and reset the connection
    /// counter.  The caller broadcasts the shutdown signal.
    pub fn stop(&mut self) -> (r: Result<(), String>)
        ensures
            r is Ok <==> old(self).spec_running(),
            r is Err ==> r->Err_0@ == "Server is not running"@ && *final(self) == *old(self),
            r is Ok ==> !final(self).spec_running() && final(self).spec_connections() == 0
                && final(self).spec_config() == old(self).spec_config()
                && final(self).spec_last_error() == old(self).spec_last_error(),
    {
        if !self.running {
            let mut msg = String::new();
            msg.append("Server is not running");
            proof {
                assert(msg@ =~= "Server is not running"@);
            }
            return Err(msg);
        }
        self.running = false;
        self.connections_count = 0;
        Ok(())
    }

    /// A client connected.
    pub fn connection_opened(&mut self)
        requires
            old(self).spec_connections() < usize::MAX,
        ensures
            final(self).spec_connections() == old(self).spec_connections() + 1,
            final(self).spec_running() == old(self).spec_running(),
            final(self).spec_config() == old(self).spec_config(),
            final(self).spec_last_error() == old(self).spec_last_error(),
    {
        self.connections_count = self.connections_count + 1;
    }

    /// A client disconnected.
    pub fn connection_closed(&mut self)
        ensures
            final(self).spec_connections() == if old(self).spec_connections() > 0 {
                old(self).spec_connections() - 1
            } else {
                0
            },
            final(self).spec_running() == old(self).spec_running(),
            final(self).spec_config() == old(self).spec_config(),
            final(self).spec_last_error() == old(self).spec_last_error(),
    {
        if self.connections_count > 0 {
            self.connections_count = self.connections_count - 1;
        }
    }

    /// The current status snapshot.
    pub fn get_status(&self) -> (r: ServerStatus)
        ensures
            r.running == self.spec_running(),
            r.host == self.spec_config().host,
            r.port == self.spec_config().port,
            r.unit_id == self.spec_config().unit_id,
            r.connections_count as int == self.spec_connections(),
            r.error == self.spec_last_error(),
    {
        ServerStatus {
            running: self.running,
            host: self.config.host.clone(),
            port: self.config.port,
            unit_id: self.config.unit_id,
            connections_count: self.connections_count,
            error: match &self.last_error {
                Some(e) => Some(e.clone()),
                None => None,
            },
        }
    }
}

} // verus!
