//! The application: its settings and the state it keeps between cycles.

use crate::configuration::Config;
use crate::controller::fetch::State;
use vstd::prelude::*;

verus! {

/// The controller application, built from its settings.
#[derive(Debug)]
pub struct Application {
    host: String,
    port: String,
    startup_delay: u64,
    polling_interval: u64,
    pub state: State,
}

impl Application {
    /// The application with these settings and no tracked container.
    pub fn build(config: Config) -> (res: Self)
        ensures
            res.host()@ == config.host@,
            res.port()@ == config.port@,
            res.startup_delay() == config.startup_delay,
            res.polling_interval() == config.polling_interval,
            res.tracked_containers().len() == 0,
            res.state_is_consistent(),
    {
        Self {
            host: config.host,
            port: config.port,
            startup_delay: config.startup_delay,
            polling_interval: config.polling_interval,
            state: State::default(),
        }
    }

    /// The containers tracked in the kept state.
    pub closed spec fn tracked_containers(&self) -> Seq<crate::controller::container::ContainerView> {
        self.state.containers@
    }

    /// The kept state tracks no name twice.
    pub closed spec fn state_is_consistent(&self) -> bool {
        self.state.containers.wf()
    }

    /// The address that the health check endpoint binds to.
    pub closed spec fn host(&self) -> String {
        self.host
    }

    /// The port of the health check endpoint.
    pub closed spec fn port(&self) -> String {
        self.port
    }

    /// Seconds before the first cycle.
    pub closed spec fn startup_delay(&self) -> u64 {
        self.startup_delay
    }

    /// Seconds between two cycles.
    pub closed spec fn polling_interval(&self) -> u64 {
        self.polling_interval
    }

    /// The address that the health check endpoint listens on, `host:port`.
    pub fn bind_address(&self) -> (res: String)
        ensures
            res@ == self.host()@ + ":"@ + self.port()@,
    {
        let mut res = self.host.clone();
        res.append(":");
        res.append(self.port.as_str());
        res
    }

    /// Seconds before the first cycle.
    pub fn startup_delay_secs(&self) -> (res: u64)
        ensures
            res == self.startup_delay(),
    {
        self.startup_delay
    }

    /// Seconds between two cycles.
    pub fn polling_interval_secs(&self) -> (res: u64)
        ensures
            res == self.polling_interval(),
    {
        self.polling_interval
    }
}

} // verus!
