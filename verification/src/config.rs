//! The configuration of the two stages.

use vstd::prelude::*;

verus! {

/// Where the service descriptors are when the configuration does not say.
pub const SERVICE_DIR: &'static str = "/etc/verdant/services";

/// What the first stage is told.
#[derive(Debug, Clone)]
pub struct InitConfig {
    /// The terminals on which a login prompt is kept.
    pub tty_sessions: Vec<String>,
}

/// What the service manager is told.
#[derive(Debug, Clone)]
pub struct VerdantdConfig {
    /// The directory of the service descriptors.
    pub service_dir: String,
}

/// The configuration file.
#[derive(Debug, Clone)]
pub struct Config {
    pub init: InitConfig,
    pub verdantd: Option<VerdantdConfig>,
}

impl Config {
    /// The directory of the service descriptors: the one that the
    /// configuration names, or `/etc/verdant/services`.
    pub open spec fn service_dir_text(self) -> Seq<char> {
        match self.verdantd {
            Some(v) => v.service_dir@,
            None => SERVICE_DIR@,
        }
    }

    /// The directory of the service descriptors.
    pub fn service_dir(&self) -> (r: String)
        ensures
            r@ == self.service_dir_text(),
    {
        match &self.verdantd {
            Some(v) => v.service_dir.clone(),
            None => SERVICE_DIR.to_owned(),
        }
    }
}

} // verus!
