//! The general settings of a run: the configuration file, the debug level,
//! the command, and the service configuration once it is read.

use crate::serviceconf::{opt_action_view, route_action, ServiceConf, VerbAction};
use crate::restmessage::RestMessage;
use vstd::prelude::*;

verus! {

/// What a run does.
#[derive(Debug, Clone, Copy, PartialEq, Eq, Structural)]
pub enum UCommands {
    Parse,
    Dry,
    Run,
}

/// The settings of a run.
#[derive(Debug)]
pub struct URConfig {
    pub configfile: String,
    pub debug_level: u8,
    pub command: UCommands,
    pub serviceconf: Option<ServiceConf>,
}

impl URConfig {
    /// Installs the service configuration.
    pub fn set_config(&mut self, serviceconf: ServiceConf)
        ensures
            final(self).serviceconf == Some(serviceconf),
            final(self).configfile == old(self).configfile,
            final(self).debug_level == old(self).debug_level,
            final(self).command == old(self).command,
    {
        self.serviceconf = Some(serviceconf);
    }

    /// Installs the service configuration.
    pub fn set_serviceconf(&mut self, serviceconf: ServiceConf)
        ensures
            final(self).serviceconf == Some(serviceconf),
            final(self).configfile == old(self).configfile,
            final(self).debug_level == old(self).debug_level,
            final(self).command == old(self).command,
    {
        self.serviceconf = Some(serviceconf);
    }

    /// The socket path of the back listener, once a service configuration
    /// is installed.
    pub fn get_socket(&self) -> (r: Option<&str>)
        ensures
            match self.serviceconf {
                Some(c) => r matches Some(s) && s@ == c.socketpath@,
                None => r is None,
            },
    {
        if let Some(conf) = &self.serviceconf {
            Some(conf.socketpath.as_str())
        } else {
            None
        }
    }

    /// The action configured for the request; none before a service
    /// configuration is installed.
    pub fn match_request(&self, rm: &RestMessage) -> (r: Option<VerbAction>)
        ensures
            match self.serviceconf {
                Some(c) => opt_action_view(r) == route_action(c@, rm@.method, rm@.uri),
                None => r is None,
            },
    {
        if let Some(conf) = &self.serviceconf {
            conf.match_request(rm)
        } else {
            None
        }
    }

    /// A copy of the installed service configuration.
    pub fn clone_paths(&self) -> (r: ServiceConf)
        requires
            self.serviceconf is Some,
        ensures
            r@ == self.serviceconf->Some_0@,
    {
        match &self.serviceconf {
            Some(conf) => conf.clone(),
            None => ServiceConf::default(),
        }
    }
}

} // verus!
