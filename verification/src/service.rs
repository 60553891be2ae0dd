//! Startup packages and restart policies: the two enumerations that a
//! descriptor names by word.

use vstd::prelude::*;
use crate::service_file::{Descriptor, ServiceFile};
use crate::status::ServiceState;
use crate::text::{chars_of, copy_opt_string, copy_strings, is_text, opt_text, strings};

verus! {

/// What `str::to_lowercase` makes of a text: each character replaced by its
/// Unicode lowercase form.
pub uninterp spec fn lowercase(s: Seq<char>) -> Seq<char>;

/// `str::to_lowercase` returns the lowercase form of the text, as a new
/// string; the text alone decides the result.
pub assume_specification[ str::to_lowercase ](s: &str) -> (r: String)
    ensures
        r@ == lowercase(s@),
;

/// The group of services that a service starts with at boot.
#[derive(Debug, Clone, Copy, PartialEq, Eq, Structural)]
pub enum StartupPackage {
    Base,
    Network,
    System,
    User,
    Custom,
}

/// What the supervisor does when the service's process exits.
#[derive(Debug, Clone, Copy, PartialEq, Eq, Structural)]
pub enum RestartPolicy {
    /// Start again only after an exit code other than zero.
    OnFailure,
    /// Start again after every exit.
    Always,
    /// Never start again.
    Never,
}

impl StartupPackage {
    /// The package that the lowercase word `t` names.
    pub open spec fn named(t: Seq<char>) -> Option<StartupPackage> {
        if t == "base"@ {
            Some(StartupPackage::Base)
        } else if t == "network"@ {
            Some(StartupPackage::Network)
        } else if t == "system"@ {
            Some(StartupPackage::System)
        } else if t == "user"@ {
            Some(StartupPackage::User)
        } else if t == "custom"@ {
            Some(StartupPackage::Custom)
        } else {
            None
        }
    }

    /// The word that names the package.
    pub open spec fn word(self) -> Seq<char> {
        match self {
            StartupPackage::Base => "base"@,
            StartupPackage::Network => "network"@,
            StartupPackage::System => "system"@,
            StartupPackage::User => "user"@,
            StartupPackage::Custom => "custom"@,
        }
    }

    /// The package that the word `s` names, taken letter for letter.
    pub fn from_lower(s: &str) -> (r: Option<StartupPackage>)
        ensures
            r == Self::named(s@),
    {
        let v = chars_of(s);
        if is_text(&v, "base") {
            Some(StartupPackage::Base)
        } else if is_text(&v, "network") {
            Some(StartupPackage::Network)
        } else if is_text(&v, "system") {
            Some(StartupPackage::System)
        } else if is_text(&v, "user") {
            Some(StartupPackage::User)
        } else if is_text(&v, "custom") {
            Some(StartupPackage::Custom)
        } else {
            None
        }
    }

    /// The package that the word `s` names, whatever the case of its
    /// letters.
    pub fn from_str(s: &str) -> (r: Option<StartupPackage>)
        ensures
            r == Self::named(lowercase(s@)),
    {
        let lower = s.to_lowercase();
        Self::from_lower(lower.as_str())
    }

    /// The word that names the package.
    pub fn as_str(&self) -> (r: &'static str)
        ensures
            r@ == self.word(),
    {
        match self {
            StartupPackage::Base => "base",
            StartupPackage::Network => "network",
            StartupPackage::System => "system",
            StartupPackage::User => "user",
            StartupPackage::Custom => "custom",
        }
    }
}

impl RestartPolicy {
    /// The policy that the lowercase word `t` names.
    pub open spec fn named(t: Seq<char>) -> Option<RestartPolicy> {
        if t == "never"@ {
            Some(RestartPolicy::Never)
        } else if t == "always"@ {
            Some(RestartPolicy::Always)
        } else if t == "on-failure"@ {
            Some(RestartPolicy::OnFailure)
        } else {
            None
        }
    }

    /// The policy that the word `s` names, taken letter for letter.
    pub fn from_lower(s: &str) -> (r: Option<RestartPolicy>)
        ensures
            r == Self::named(s@),
    {
        let v = chars_of(s);
        if is_text(&v, "never") {
            Some(RestartPolicy::Never)
        } else if is_text(&v, "always") {
            Some(RestartPolicy::Always)
        } else if is_text(&v, "on-failure") {
            Some(RestartPolicy::OnFailure)
        } else {
            None
        }
    }

    /// The policy that the word `s` names, whatever the case of its letters.
    pub fn from_str(s: &str) -> (r: Option<RestartPolicy>)
        ensures
            r == Self::named(lowercase(s@)),
    {
        let lower = s.to_lowercase();
        Self::from_lower(lower.as_str())
    }

    /// Whether a process that exited with `code` is started again.
    pub open spec fn restarts_after(self, code: int) -> bool {
        match self {
            RestartPolicy::Never => false,
            RestartPolicy::Always => true,
            RestartPolicy::OnFailure => code != 0,
        }
    }

    /// Whether a process that exited with `code` is started again.
    pub fn should_restart(self, code: i32) -> (r: bool)
        ensures
            r == self.restarts_after(code as int),
    {
        match self {
            RestartPolicy::Never => false,
            RestartPolicy::Always => true,
            RestartPolicy::OnFailure => code != 0,
        }
    }
}

impl Default for RestartPolicy {
    fn default() -> (r: RestartPolicy)
        ensures
            r == RestartPolicy::Never,
    {
        RestartPolicy::Never
    }
}

/// Each package is named by its own word: reading the word gives the
/// package back.
pub proof fn lemma_package_word_round_trip(p: StartupPackage)
    ensures
        StartupPackage::named(p.word()) == Some(p),
{
    reveal_strlit("base");
    reveal_strlit("network");
    reveal_strlit("system");
    reveal_strlit("user");
    reveal_strlit("custom");
    match p {
        StartupPackage::Base => {},
        StartupPackage::Network => {
            assert("network"@.len() != "base"@.len());
        },
        StartupPackage::System => {
            assert("system"@.len() != "base"@.len());
            assert("system"@.len() != "network"@.len());
        },
        StartupPackage::User => {
            assert("user"@[0] != "base"@[0]);
            assert("user"@.len() != "network"@.len());
            assert("user"@.len() != "system"@.len());
        },
        StartupPackage::Custom => {
            assert("custom"@.len() != "base"@.len());
            assert("custom"@.len() != "network"@.len());
            assert("custom"@[0] != "system"@[0]);
            assert("custom"@.len() != "user"@.len());
        },
    }
}

/// What is shown of a service: what it is and how it stands.
#[derive(Debug, Clone)]
pub struct Service {
    pub name: String,
    pub desc: String,
    pub cmd: String,
    pub args: Vec<String>,
    pub startup: StartupPackage,
    pub restart: RestartPolicy,
    pub tags: Vec<String>,
    pub instances: Vec<String>,
    pub state: ServiceState,
    pub stdout: Option<String>,
    pub stderr: Option<String>,
}

/// The mathematical content of a [`Service`].
pub struct Shown {
    pub name: Seq<char>,
    pub desc: Seq<char>,
    pub cmd: Seq<char>,
    pub args: Seq<Seq<char>>,
    pub startup: StartupPackage,
    pub restart: RestartPolicy,
    pub tags: Seq<Seq<char>>,
    pub instances: Seq<Seq<char>>,
    pub state: ServiceState,
    pub stdout: Option<Seq<char>>,
    pub stderr: Option<Seq<char>>,
}

impl View for Service {
    type V = Shown;

    open spec fn view(&self) -> Shown {
        Shown {
            name: self.name@,
            desc: self.desc@,
            cmd: self.cmd@,
            args: strings(self.args@),
            startup: self.startup,
            restart: self.restart,
            tags: strings(self.tags@),
            instances: strings(self.instances@),
            state: self.state,
            stdout: opt_text(self.stdout),
            stderr: opt_text(self.stderr),
        }
    }
}

/// The package that a descriptor's startup tag names, whatever the case of
/// its letters; `Custom` for a tag that names none and for no tag.
pub open spec fn package_of(tag: Option<Seq<char>>) -> StartupPackage {
    match tag {
        Some(t) => match StartupPackage::named(lowercase(t)) {
            Some(p) => p,
            None => StartupPackage::Custom,
        },
        None => StartupPackage::Custom,
    }
}

/// What is shown of the service `d` in the state `state`: the fields of
/// the descriptor, with empty texts and lists for what it leaves open.
pub open spec fn shown(d: Descriptor, state: ServiceState) -> Shown {
    Shown {
        name: d.name,
        desc: d.desc.unwrap_or(Seq::empty()),
        cmd: d.cmd,
        args: d.args.unwrap_or(Seq::empty()),
        startup: package_of(d.startup_package),
        restart: d.restart,
        tags: d.tags.unwrap_or(Seq::empty()),
        instances: d.instances.unwrap_or(Seq::empty()),
        state,
        stdout: d.stdout_log,
        stderr: d.stderr_log,
    }
}

fn list_or_empty(list: &Option<Vec<String>>) -> (r: Vec<String>)
    ensures
        strings(r@) == crate::text::opt_strings(*list).unwrap_or(Seq::empty()),
{
    match list {
        Some(v) => copy_strings(v),
        None => {
            let r: Vec<String> = Vec::new();
            proof {
                assert(strings(r@) =~= Seq::<Seq<char>>::empty());
            }
            r
        },
    }
}

impl Service {
    /// What is shown of the service `file` in the state `state`.
    pub fn of(file: &ServiceFile, state: ServiceState) -> (r: Service)
        ensures
            r@ == shown(file@, state),
    {
        let startup = match &file.startup_package {
            Some(t) => match StartupPackage::from_str(t.as_str()) {
                Some(p) => p,
                None => StartupPackage::Custom,
            },
            None => StartupPackage::Custom,
        };
        Service {
            name: file.name.clone(),
            desc: match &file.desc {
                Some(d) => d.clone(),
                None => String::new(),
            },
            cmd: file.cmd.clone(),
            args: list_or_empty(&file.args),
            startup,
            restart: file.restart,
            tags: list_or_empty(&file.tags),
            instances: list_or_empty(&file.instances),
            state,
            stdout: copy_opt_string(&file.stdout_log),
            stderr: copy_opt_string(&file.stderr_log),
        }
    }
}

} // verus!
