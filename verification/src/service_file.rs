//! The service descriptor: what one `.vs` file says about one service.

use vstd::prelude::*;
use crate::service::RestartPolicy;
use crate::text::{copy_opt_string, copy_opt_strings, opt_strings, opt_text};

verus! {

/// A service descriptor.
#[derive(Debug, Clone)]
pub struct ServiceFile {
    pub name: String,
    pub desc: Option<String>,
    pub cmd: String,
    pub args: Option<Vec<String>>,
    pub pre_cmd: Option<String>,
    pub post_cmd: Option<String>,
    pub package: Option<String>,
    pub startup_package: Option<String>,
    /// Environment entries, each `KEY=VALUE`.
    pub env: Option<Vec<String>>,
    pub user: Option<String>,
    pub group: Option<String>,
    pub working_dir: Option<String>,
    pub restart: RestartPolicy,
    /// Seconds to wait before a restart.
    pub restart_delay: Option<u64>,
    pub stop_cmd: Option<String>,
    /// Seconds.
    pub timeout_start: Option<u64>,
    /// Seconds.
    pub timeout_stop: Option<u64>,
    pub dependencies: Option<Vec<String>>,
    pub priority: Option<i32>,
    pub stdout_log: Option<String>,
    pub stderr_log: Option<String>,
    /// Octal digits, such as `022`.
    pub umask: Option<String>,
    pub nice: Option<i32>,
    pub tags: Option<Vec<String>>,
    /// The substitutions that a template is expanded with.
    pub instances: Option<Vec<String>>,
}

/// The mathematical content of a [`ServiceFile`].
pub struct Descriptor {
    pub name: Seq<char>,
    pub desc: Option<Seq<char>>,
    pub cmd: Seq<char>,
    pub args: Option<Seq<Seq<char>>>,
    pub pre_cmd: Option<Seq<char>>,
    pub post_cmd: Option<Seq<char>>,
    pub package: Option<Seq<char>>,
    pub startup_package: Option<Seq<char>>,
    pub env: Option<Seq<Seq<char>>>,
    pub user: Option<Seq<char>>,
    pub group: Option<Seq<char>>,
    pub working_dir: Option<Seq<char>>,
    pub restart: RestartPolicy,
    pub restart_delay: Option<u64>,
    pub stop_cmd: Option<Seq<char>>,
    pub timeout_start: Option<u64>,
    pub timeout_stop: Option<u64>,
    pub dependencies: Option<Seq<Seq<char>>>,
    pub priority: Option<i32>,
    pub stdout_log: Option<Seq<char>>,
    pub stderr_log: Option<Seq<char>>,
    pub umask: Option<Seq<char>>,
    pub nice: Option<i32>,
    pub tags: Option<Seq<Seq<char>>>,
    pub instances: Option<Seq<Seq<char>>>,
}

impl View for ServiceFile {
    type V = Descriptor;

    open spec fn view(&self) -> Descriptor {
        Descriptor {
            name: self.name@,
            desc: opt_text(self.desc),
            cmd: self.cmd@,
            args: opt_strings(self.args),
            pre_cmd: opt_text(self.pre_cmd),
            post_cmd: opt_text(self.post_cmd),
            package: opt_text(self.package),
            startup_package: opt_text(self.startup_package),
            env: opt_strings(self.env),
            user: opt_text(self.user),
            group: opt_text(self.group),
            working_dir: opt_text(self.working_dir),
            restart: self.restart,
            restart_delay: self.restart_delay,
            stop_cmd: opt_text(self.stop_cmd),
            timeout_start: self.timeout_start,
            timeout_stop: self.timeout_stop,
            dependencies: opt_strings(self.dependencies),
            priority: self.priority,
            stdout_log: opt_text(self.stdout_log),
            stderr_log: opt_text(self.stderr_log),
            umask: opt_text(self.umask),
            nice: self.nice,
            tags: opt_strings(self.tags),
            instances: opt_strings(self.instances),
        }
    }
}

impl Descriptor {
    /// The descriptor that has a name and a command and nothing else.
    pub open spec fn bare(name: Seq<char>, cmd: Seq<char>) -> Descriptor {
        Descriptor {
            name,
            desc: None,
            cmd,
            args: None,
            pre_cmd: None,
            post_cmd: None,
            package: None,
            startup_package: None,
            env: None,
            user: None,
            group: None,
            working_dir: None,
            restart: RestartPolicy::Never,
            restart_delay: None,
            stop_cmd: None,
            timeout_start: None,
            timeout_stop: None,
            dependencies: None,
            priority: None,
            stdout_log: None,
            stderr_log: None,
            umask: None,
            nice: None,
            tags: None,
            instances: None,
        }
    }

    /// The names that must start before this service.
    pub open spec fn needs(self) -> Seq<Seq<char>> {
        match self.dependencies {
            Some(d) => d,
            None => Seq::empty(),
        }
    }

    /// The priority that orders the service among those ready to start: its
    /// own, or 50 when it states none.
    pub open spec fn rank(self) -> int {
        match self.priority {
            Some(p) => p as int,
            None => 50,
        }
    }

    /// Seconds that the service is given to stop: its own, or 5 when it
    /// states none.
    pub open spec fn stop_seconds(self) -> nat {
        match self.timeout_stop {
            Some(t) => t as nat,
            None => 5,
        }
    }

    /// Seconds to wait before a restart: its own, or 0 when it states none.
    pub open spec fn delay_seconds(self) -> nat {
        match self.restart_delay {
            Some(t) => t as nat,
            None => 0,
        }
    }

    /// Whether the service starts at boot: it does when it names a startup
    /// package.
    pub open spec fn starts_at_boot(self) -> bool {
        self.startup_package is Some
    }

    /// Whether the descriptor is complete, as every loaded descriptor is: it
    /// has a name and a command, every field that has a default is set, and
    /// its priority lies in `0..=100`.
    pub open spec fn complete(self) -> bool {
        &&& self.name.len() > 0
        &&& self.cmd.len() > 0
        &&& self.restart_delay is Some
        &&& self.timeout_start is Some
        &&& self.timeout_stop is Some
        &&& self.umask is Some
        &&& self.nice is Some
        &&& self.stdout_log is Some
        &&& self.stderr_log is Some
        &&& self.priority matches Some(p) && 0 <= p <= 100
    }
}

impl ServiceFile {
    /// A descriptor with a name and a command and nothing else.
    pub fn new(name: String, cmd: String) -> (r: ServiceFile)
        ensures
            r@ == Descriptor::bare(name@, cmd@),
    {
        ServiceFile {
            name,
            desc: None,
            cmd,
            args: None,
            pre_cmd: None,
            post_cmd: None,
            package: None,
            startup_package: None,
            env: None,
            user: None,
            group: None,
            working_dir: None,
            restart: RestartPolicy::Never,
            restart_delay: None,
            stop_cmd: None,
            timeout_start: None,
            timeout_stop: None,
            dependencies: None,
            priority: None,
            stdout_log: None,
            stderr_log: None,
            umask: None,
            nice: None,
            tags: None,
            instances: None,
        }
    }

    /// A copy that holds the same descriptor.
    pub fn duplicate(&self) -> (r: ServiceFile)
        ensures
            r@ == self@,
    {
        ServiceFile {
            name: self.name.clone(),
            desc: copy_opt_string(&self.desc),
            cmd: self.cmd.clone(),
            args: copy_opt_strings(&self.args),
            pre_cmd: copy_opt_string(&self.pre_cmd),
            post_cmd: copy_opt_string(&self.post_cmd),
            package: copy_opt_string(&self.package),
            startup_package: copy_opt_string(&self.startup_package),
            env: copy_opt_strings(&self.env),
            user: copy_opt_string(&self.user),
            group: copy_opt_string(&self.group),
            working_dir: copy_opt_string(&self.working_dir),
            restart: self.restart,
            restart_delay: self.restart_delay,
            stop_cmd: copy_opt_string(&self.stop_cmd),
            timeout_start: self.timeout_start,
            timeout_stop: self.timeout_stop,
            dependencies: copy_opt_strings(&self.dependencies),
            priority: self.priority,
            stdout_log: copy_opt_string(&self.stdout_log),
            stderr_log: copy_opt_string(&self.stderr_log),
            umask: copy_opt_string(&self.umask),
            nice: self.nice,
            tags: copy_opt_strings(&self.tags),
            instances: copy_opt_strings(&self.instances),
        }
    }

    /// The priority that orders the service among those ready to start.
    pub fn rank(&self) -> (r: i32)
        ensures
            r == self@.rank(),
    {
        match self.priority {
            Some(p) => p,
            None => 50,
        }
    }

    /// Seconds that the service is given to stop.
    pub fn stop_seconds(&self) -> (r: u64)
        ensures
            r == self@.stop_seconds(),
    {
        match self.timeout_stop {
            Some(t) => t,
            None => 5,
        }
    }

    /// Seconds to wait before a restart.
    pub fn delay_seconds(&self) -> (r: u64)
        ensures
            r == self@.delay_seconds(),
    {
        match self.restart_delay {
            Some(t) => t,
            None => 0,
        }
    }

    /// Whether the service starts at boot.
    pub fn starts_at_boot(&self) -> (r: bool)
        ensures
            r == self@.starts_at_boot(),
    {
        self.startup_package.is_some()
    }
}

/// The descriptors that a vector of service files holds.
pub open spec fn descriptors(v: Seq<ServiceFile>) -> Seq<Descriptor> {
    Seq::new(v.len(), |i: int| v[i]@)
}

} // verus!
