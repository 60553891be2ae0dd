//! The error taxonomy shared by the loader, the orderer, the launcher and
//! the registry.

use vstd::prelude::*;
use crate::text::{join2, strings};

verus! {

/// An error number of the operating system, as the nix crate holds it.
#[verifier::external_type_specification]
#[verifier::external_body]
pub struct ExErrno(nix::errno::Errno);

/// The words that the nix crate has for the error number `n`: what
/// `nix::errno::Errno::desc` gives for the error that `Errno::from_raw`
/// makes of `n`. The number alone decides them; for a number that the
/// crate does not know they are the words for an unknown error.
/// Nothing more is claimed of them.
pub uninterp spec fn errno_words(n: i32) -> Seq<char>;

/// The number of an error: `nix::errno::Errno` is an enumeration whose
/// values are the numbers of the operating system, and the error alone
/// decides its number.
#[verifier::external_body]
pub(crate) fn errno_number(e: nix::errno::Errno) -> (n: i32)
    ensures
        n == errno_code(e),
{
    e as i32
}

/// What can go wrong, by kind.
#[derive(Debug, Clone)]
pub enum BloomError {
    /// A file or a socket could not be read or written.
    Io(String),
    /// A descriptor does not follow the grammar.
    Parse(String),
    /// A descriptor follows the grammar but lacks or misstates a field.
    ConfigInvalid(String),
    /// The named services depend on each other in a circle.
    DependencyCycle(Vec<String>),
    /// A service (second) depends on a name (first) that no service has.
    UnknownDependency(String, String),
    /// A service of that name is registered already.
    AlreadyRegistered(String),
    /// No service of that name is registered.
    NotFound(String),
    /// A service ended in failure.
    ServiceFailed(String),
    /// A service could not be launched.
    LaunchFailed(String),
    /// A service could not be stopped.
    StopFailed(String),
    /// A blocking operation was cancelled by shutdown.
    Cancelled,
}

/// The mathematical content of a [`BloomError`].
pub enum Fault {
    Io(Seq<char>),
    Parse(Seq<char>),
    ConfigInvalid(Seq<char>),
    DependencyCycle(Seq<Seq<char>>),
    UnknownDependency(Seq<char>, Seq<char>),
    AlreadyRegistered(Seq<char>),
    NotFound(Seq<char>),
    ServiceFailed(Seq<char>),
    LaunchFailed(Seq<char>),
    StopFailed(Seq<char>),
    Cancelled,
}

impl View for BloomError {
    type V = Fault;

    open spec fn view(&self) -> Fault {
        match self {
            BloomError::Io(m) => Fault::Io(m@),
            BloomError::Parse(m) => Fault::Parse(m@),
            BloomError::ConfigInvalid(m) => Fault::ConfigInvalid(m@),
            BloomError::DependencyCycle(names) => Fault::DependencyCycle(strings(names@)),
            BloomError::UnknownDependency(dep, svc) => Fault::UnknownDependency(dep@, svc@),
            BloomError::AlreadyRegistered(n) => Fault::AlreadyRegistered(n@),
            BloomError::NotFound(n) => Fault::NotFound(n@),
            BloomError::ServiceFailed(n) => Fault::ServiceFailed(n@),
            BloomError::LaunchFailed(m) => Fault::LaunchFailed(m@),
            BloomError::StopFailed(m) => Fault::StopFailed(m@),
            BloomError::Cancelled => Fault::Cancelled,
        }
    }
}

/// `names` written one after the other, each but the last followed by `, `.
pub open spec fn comma_list(names: Seq<Seq<char>>) -> Seq<char>
    decreases names.len(),
{
    if names.len() == 0 {
        Seq::empty()
    } else if names.len() == 1 {
        names[0]
    } else {
        comma_list(names.drop_last()) + ", "@ + names.last()
    }
}

impl Fault {
    /// The one-line text that describes the fault to a person.
    pub open spec fn message(self) -> Seq<char> {
        match self {
            Fault::Io(m) => "IO error: "@ + m,
            Fault::Parse(m) => "Parse error: "@ + m,
            Fault::ConfigInvalid(m) => "Invalid configuration: "@ + m,
            Fault::DependencyCycle(names) => "Dependency cycle among: "@ + comma_list(names),
            Fault::UnknownDependency(dep, svc) => "Unknown dependency '"@ + dep
                + "' for service '"@ + svc + "'"@,
            Fault::AlreadyRegistered(n) => "Already registered: "@ + n,
            Fault::NotFound(n) => "Not found: "@ + n,
            Fault::ServiceFailed(n) => "Service failed: "@ + n,
            Fault::LaunchFailed(m) => "Launch failed: "@ + m,
            Fault::StopFailed(m) => "Stop failed: "@ + m,
            Fault::Cancelled => "Cancelled"@,
        }
    }
}

/// The names of `names`, separated by `, `.
pub fn comma_joined(names: &Vec<String>) -> (r: String)
    ensures
        r@ == comma_list(strings(names@)),
{
    let mut r = String::new();
    let mut i: usize = 0;
    proof {
        assert(strings(names@).take(0).len() == 0);
    }
    while i < names.len()
        invariant
            i <= names.len(),
            r@ == comma_list(strings(names@).take(i as int)),
        decreases names.len() - i,
    {
        let ghost all = strings(names@);
        proof {
            assert(all.take(i + 1).drop_last() == all.take(i as int));
            assert(all.take(i + 1).last() == names@[i as int]@);
        }
        if i == 0 {
            proof {
                assert(r@.len() == 0);
                assert(r@ + names@[0]@ == names@[0]@);
                assert(all.take(1)[0] == names@[0]@);
            }
            r = join2(r.as_str(), names[i].as_str());
        } else {
            r = join2(r.as_str(), ", ");
            r = join2(r.as_str(), names[i].as_str());
        }
        i += 1;
    }
    proof {
        assert(strings(names@).take(names.len() as int) == strings(names@));
    }
    r
}

impl BloomError {
    /// The error for a system call that failed with the error number `e`:
    /// an `Io` error with the system's words for the number.
    pub fn from_errno(e: nix::errno::Errno) -> (r: BloomError)
        ensures
            r is Io,
            r@ == Fault::Io(errno_words(errno_code(e))),
    {
        let n = errno_number(e);
        let r = BloomError::from_errno_number(n);
        proof {
            assert(r@ == Fault::Io(errno_words(n)));
        }
        r
    }

    /// The error for a system call that failed with the error number `n`:
    /// an `Io` error with the words that the nix crate has for the number.
    pub fn from_errno_number(n: i32) -> (r: BloomError)
        ensures
            r@ == Fault::Io(errno_words(n)),
    {
        BloomError::Io(errno_text(n))
    }

    /// The one-line text that describes the error to a person.
    pub fn message(&self) -> (r: String)
        ensures
            r@ == self@.message(),
    {
        match self {
            BloomError::Io(m) => join2("IO error: ", m.as_str()),
            BloomError::Parse(m) => join2("Parse error: ", m.as_str()),
            BloomError::ConfigInvalid(m) => join2("Invalid configuration: ", m.as_str()),
            BloomError::DependencyCycle(names) => {
                let list = comma_joined(names);
                join2("Dependency cycle among: ", list.as_str())
            },
            BloomError::UnknownDependency(dep, svc) => {
                let a = join2("Unknown dependency '", dep.as_str());
                let b = join2(a.as_str(), "' for service '");
                let c = join2(b.as_str(), svc.as_str());
                join2(c.as_str(), "'")
            },
            BloomError::AlreadyRegistered(n) => join2("Already registered: ", n.as_str()),
            BloomError::NotFound(n) => join2("Not found: ", n.as_str()),
            BloomError::ServiceFailed(n) => join2("Service failed: ", n.as_str()),
            BloomError::LaunchFailed(m) => join2("Launch failed: ", m.as_str()),
            BloomError::StopFailed(m) => join2("Stop failed: ", m.as_str()),
            BloomError::Cancelled => "Cancelled".to_owned(),
        }
    }
}

/// The words of the nix crate for the error number `n`: `Errno::from_raw`
/// makes the error of the number, and `Errno::desc` gives its words. The
/// number alone decides the result.
#[verifier::external_body]
fn errno_text(n: i32) -> (r: String)
    ensures
        r@ == errno_words(n),
{
    nix::errno::Errno::from_raw(n).desc().to_owned()
}

/// The number of the error `e`: the value of the enumeration
/// `nix::errno::Errno`, which is the number that the operating system gives
/// the error.
pub uninterp spec fn errno_code(e: nix::errno::Errno) -> i32;

} // verus!
