use vstd::prelude::*;

verus! {

/// Why a set of settings was refused.
#[derive(Clone, Copy, Debug, PartialEq, Eq, Structural)]
pub enum SettingsError {
    /// The heartbeat timeout does not exceed the heartbeat interval.
    TimeoutNotAboveInterval,
}

/// Server settings: where to listen, how many workers, and the heartbeat
/// interval and timeout in seconds. The timeout always exceeds the interval:
/// that is the type's invariant, and the two getters state it.
pub struct Settings {
    host: String,
    port: u16,
    workers: usize,
    hb_interval: u64,
    timeout: u64,
}

impl Settings {
    #[verifier::type_invariant]
    spec fn timeout_above_interval(&self) -> bool {
        self.timeout > self.hb_interval
    }

    pub closed spec fn spec_host(&self) -> Seq<char> {
        self.host@
    }

    pub closed spec fn spec_port(&self) -> u16 {
        self.port
    }

    pub closed spec fn spec_workers(&self) -> usize {
        self.workers
    }

    pub closed spec fn spec_hb_interval(&self) -> u64 {
        self.hb_interval
    }

    pub closed spec fn spec_timeout(&self) -> u64 {
        self.timeout
    }

    /// Settings from their values; refused unless `timeout > hb_interval`.
    pub fn new(host: String, port: u16, workers: usize, hb_interval: u64, timeout: u64) -> (r:
        Result<Settings, SettingsError>)
        ensures
            timeout > hb_interval <==> r is Ok,
            timeout <= hb_interval ==> r == Err::<Settings, _>(
                SettingsError::TimeoutNotAboveInterval,
            ),
            r matches Ok(s) ==> s.spec_host() == host@ && s.spec_port() == port
                && s.spec_workers() == workers && s.spec_hb_interval() == hb_interval
                && s.spec_timeout() == timeout,
    {
        if timeout <= hb_interval {
            Err(SettingsError::TimeoutNotAboveInterval)
        } else {
            Ok(Settings { host, port, workers, hb_interval, timeout })
        }
    }

    pub fn host(&self) -> (r: &String)
        ensures
            r@ == self.spec_host(),
    {
        &self.host
    }

    pub fn port(&self) -> (r: u16)
        ensures
            r == self.spec_port(),
    {
        self.port
    }

    pub fn workers(&self) -> (r: usize)
        ensures
            r == self.spec_workers(),
    {
        self.workers
    }

    pub fn hb_interval(&self) -> (r: u64)
        ensures
            r == self.spec_hb_interval(),
            r < self.spec_timeout(),
    {
        proof {
            use_type_invariant(self);
        }
        self.hb_interval
    }

    pub fn timeout(&self) -> (r: u64)
        ensures
            r == self.spec_timeout(),
            r > self.spec_hb_interval(),
    {
        proof {
            use_type_invariant(self);
        }
        self.timeout
    }
}

/// The application's settings, once loaded. Asking before they are loaded
/// is a caller error.
pub fn get_app_settings(loaded: &Option<Settings>) -> (r: &Settings)
    requires
        loaded.is_some(),
    ensures
        *r == loaded.unwrap(),
{
    match loaded {
        Some(s) => s,
        None => unreached(),
    }
}

} // verus!
