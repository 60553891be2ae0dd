//! The control protocol: requests, responses, their framing, and what each
//! endpoint answers.
//!
//! A message is one JSON document followed by a line feed, in both
//! directions. The service manager takes `Shutdown` and `Reboot`; the first
//! stage takes those and `BootComplete`.

use vstd::prelude::*;
use crate::text::opt_text;

verus! {

/// The socket of the first stage.
pub const INIT_SOCKET_PATH: &'static str = "/run/verdant/init.sock";

/// The socket of the service manager.
pub const VERDANTD_SOCKET_PATH: &'static str = "/run/verdant/verdantd.sock";

/// Whom a request is for.
#[derive(Debug, Clone, Copy, PartialEq, Eq, Structural)]
pub enum IpcTarget {
    Init,
    Verdantd,
}

/// Messages between the stages themselves.
#[derive(Debug, Clone, Copy, PartialEq, Eq, Structural)]
pub enum IpcInternal {
    PreShutdown,
    ReloadConfig,
}

/// What a request asks for.
#[derive(Debug, Clone)]
pub enum IpcCommand {
    Shutdown,
    Reboot,
    StartService(String),
    StopService(String),
    RestartService(String),
    EnableService(String),
    DisableService(String),
    GetStatus,
    GetServiceStatus(String),
    Internal(IpcInternal),
    BootComplete,
}

/// The mathematical content of an [`IpcCommand`].
pub enum Order {
    Shutdown,
    Reboot,
    StartService(Seq<char>),
    StopService(Seq<char>),
    RestartService(Seq<char>),
    EnableService(Seq<char>),
    DisableService(Seq<char>),
    GetStatus,
    GetServiceStatus(Seq<char>),
    Internal(IpcInternal),
    BootComplete,
}

impl View for IpcCommand {
    type V = Order;

    open spec fn view(&self) -> Order {
        match self {
            IpcCommand::Shutdown => Order::Shutdown,
            IpcCommand::Reboot => Order::Reboot,
            IpcCommand::StartService(n) => Order::StartService(n@),
            IpcCommand::StopService(n) => Order::StopService(n@),
            IpcCommand::RestartService(n) => Order::RestartService(n@),
            IpcCommand::EnableService(n) => Order::EnableService(n@),
            IpcCommand::DisableService(n) => Order::DisableService(n@),
            IpcCommand::GetStatus => Order::GetStatus,
            IpcCommand::GetServiceStatus(n) => Order::GetServiceStatus(n@),
            IpcCommand::Internal(i) => Order::Internal(*i),
            IpcCommand::BootComplete => Order::BootComplete,
        }
    }
}

/// A request.
#[derive(Debug, Clone)]
pub struct IpcRequest {
    pub target: IpcTarget,
    pub command: IpcCommand,
}

/// A response. `data` holds a JSON document, if the response carries one.
#[derive(Debug, Clone)]
pub struct IpcResponse {
    pub success: bool,
    pub message: String,
    pub data: Option<String>,
}

/// The mathematical content of an [`IpcResponse`].
pub struct Reply {
    pub success: bool,
    pub message: Seq<char>,
    pub data: Option<Seq<char>>,
}

impl View for IpcResponse {
    type V = Reply;

    open spec fn view(&self) -> Reply {
        Reply { success: self.success, message: self.message@, data: opt_text(self.data) }
    }
}

/// What the endpoint does after it has answered.
#[derive(Debug, Clone, Copy, PartialEq, Eq, Structural)]
pub enum FollowUp {
    /// Nothing.
    Nothing,
    /// Shut the services down, tell the first stage to shut down, and leave.
    Shutdown,
    /// Shut the services down, tell the first stage to reboot, and leave.
    Reboot,
    /// Take note that the service manager has brought its services up.
    BootComplete,
}

/// The answer to a request and what follows it.
#[derive(Debug, Clone)]
pub struct Handled {
    pub response: IpcResponse,
    pub follow_up: FollowUp,
}

/// The response without data.
pub open spec fn reply(success: bool, message: Seq<char>) -> Reply {
    Reply { success, message, data: None }
}

/// What the service manager answers. A request that could not be read is
/// invalid. A request for another target is refused. `Shutdown` and
/// `Reboot` are accepted, and the shutdown follows the answer. Any other
/// command is unsupported.
pub open spec fn manager_answer(request: Option<(IpcTarget, Order)>) -> (Reply, FollowUp) {
    match request {
        None => (reply(false, "Invalid IPC request"@), FollowUp::Nothing),
        Some((target, order)) => if target != IpcTarget::Verdantd {
            (reply(false, "Incorrect target"@), FollowUp::Nothing)
        } else {
            match order {
                Order::Shutdown => (reply(true, "Shutdown initiated"@), FollowUp::Shutdown),
                Order::Reboot => (reply(true, "Reboot initiated"@), FollowUp::Reboot),
                _ => (reply(false, "Unsupported command"@), FollowUp::Nothing),
            }
        },
    }
}

/// What the first stage answers. A request that could not be read is
/// invalid. `Shutdown`, `Reboot` and `BootComplete` are accepted, whoever
/// the request names as its target; any other command is unsupported.
pub open spec fn init_answer(request: Option<(IpcTarget, Order)>) -> (Reply, FollowUp) {
    match request {
        None => (reply(false, "Invalid IPC request"@), FollowUp::Nothing),
        Some((target, order)) => match order {
            Order::Shutdown => (reply(true, "Shutdown scheduled"@), FollowUp::Shutdown),
            Order::Reboot => (reply(true, "Reboot scheduled"@), FollowUp::Reboot),
            Order::BootComplete => (
                reply(true, "Boot complete acknowledged"@),
                FollowUp::BootComplete,
            ),
            _ => (reply(false, "Unsupported command for init"@), FollowUp::Nothing),
        },
    }
}

/// The view of a request that may be missing.
pub open spec fn request_view(request: Option<IpcRequest>) -> Option<(IpcTarget, Order)> {
    match request {
        Some(r) => Some((r.target, r.command@)),
        None => None,
    }
}

fn respond(success: bool, message: &str, follow_up: FollowUp) -> (h: Handled)
    ensures
        h.response@ == reply(success, message@),
        h.follow_up == follow_up,
{
    Handled { response: IpcResponse { success, message: message.to_owned(), data: None }, follow_up }
}

/// Answers a request to the service manager; `None` stands for a request
/// that could not be read.
pub fn handle_request(request: Option<IpcRequest>) -> (h: Handled)
    ensures
        (h.response@, h.follow_up) == manager_answer(request_view(request)),
{
    match request {
        None => respond(false, "Invalid IPC request", FollowUp::Nothing),
        Some(r) => {
            match r.target {
                IpcTarget::Verdantd => match r.command {
                    IpcCommand::Shutdown => respond(true, "Shutdown initiated", FollowUp::Shutdown),
                    IpcCommand::Reboot => respond(true, "Reboot initiated", FollowUp::Reboot),
                    _ => respond(false, "Unsupported command", FollowUp::Nothing),
                },
                IpcTarget::Init => respond(false, "Incorrect target", FollowUp::Nothing),
            }
        },
    }
}

/// Answers a request to the first stage; `None` stands for a request that
/// could not be read.
pub fn handle_init_request(request: Option<IpcRequest>) -> (h: Handled)
    ensures
        (h.response@, h.follow_up) == init_answer(request_view(request)),
{
    match request {
        None => respond(false, "Invalid IPC request", FollowUp::Nothing),
        Some(r) => match r.command {
            IpcCommand::Shutdown => respond(true, "Shutdown scheduled", FollowUp::Shutdown),
            IpcCommand::Reboot => respond(true, "Reboot scheduled", FollowUp::Reboot),
            IpcCommand::BootComplete => respond(
                true,
                "Boot complete acknowledged",
                FollowUp::BootComplete,
            ),
            _ => respond(false, "Unsupported command for init", FollowUp::Nothing),
        },
    }
}

/// The request that passes a shutdown or a reboot on to the first stage.
pub fn forward_to_init(follow_up: FollowUp) -> (r: Option<IpcRequest>)
    ensures
        request_view(r) == match follow_up {
            FollowUp::Shutdown => Some((IpcTarget::Init, Order::Shutdown)),
            FollowUp::Reboot => Some((IpcTarget::Init, Order::Reboot)),
            _ => None,
        },
{
    match follow_up {
        FollowUp::Shutdown => Some(
            IpcRequest { target: IpcTarget::Init, command: IpcCommand::Shutdown },
        ),
        FollowUp::Reboot => Some(IpcRequest { target: IpcTarget::Init, command: IpcCommand::Reboot }),
        _ => None,
    }
}

/// The line feed that ends a message.
pub const FRAME_END: u8 = 10;

/// The place of the first line feed in `buf`, or its length.
pub open spec fn frame_len(buf: Seq<u8>) -> int
    decreases buf.len(),
{
    if buf.len() == 0 || buf[0] == FRAME_END {
        0
    } else {
        1 + frame_len(buf.skip(1))
    }
}

/// The document of a message: what stands before its first line feed, or
/// all of it when it holds none.
pub open spec fn document_of(buf: Seq<u8>) -> Seq<u8> {
    buf.take(frame_len(buf))
}

/// `frame_len` is the place of the first line feed.
pub proof fn lemma_frame_len(buf: Seq<u8>, n: int)
    requires
        0 <= n <= buf.len(),
        forall|k: int| 0 <= k < n ==> #[trigger] buf[k] != FRAME_END,
        n < buf.len() ==> buf[n] == FRAME_END,
    ensures
        frame_len(buf) == n,
    decreases buf.len(),
{
    if n > 0 {
        let t = buf.skip(1);
        assert forall|k: int| 0 <= k < n - 1 implies #[trigger] t[k] != FRAME_END by {
            assert(t[k] == buf[k + 1]);
        }
        lemma_frame_len(t, n - 1);
    }
}

/// The message that carries `document`: the document and a line feed.
pub fn frame(document: &Vec<u8>) -> (r: Vec<u8>)
    ensures
        r@ == document@.push(FRAME_END),
{
    let mut r: Vec<u8> = Vec::new();
    let mut i: usize = 0;
    while i < document.len()
        invariant
            i <= document.len(),
            r@ == document@.take(i as int),
        decreases document.len() - i,
    {
        r.push(document[i]);
        proof {
            assert(document@.take(i + 1) == document@.take(i as int).push(document@[i as int]));
        }
        i += 1;
    }
    proof {
        assert(document@.take(document.len() as int) == document@);
    }
    r.push(FRAME_END);
    r
}

/// The document of a message.
pub fn unframe(buf: &Vec<u8>) -> (r: Vec<u8>)
    ensures
        r@ == document_of(buf@),
{
    let mut r: Vec<u8> = Vec::new();
    let mut i: usize = 0;
    while i < buf.len() && buf[i] != FRAME_END
        invariant
            i <= buf.len(),
            r@ == buf@.take(i as int),
            forall|k: int| 0 <= k < i ==> #[trigger] buf@[k] != FRAME_END,
        decreases buf.len() - i,
    {
        r.push(buf[i]);
        proof {
            assert(buf@.take(i + 1) == buf@.take(i as int).push(buf@[i as int]));
        }
        i += 1;
    }
    proof {
        lemma_frame_len(buf@, i as int);
    }
    r
}

/// A document without a line feed comes back from its message as it went
/// in.
pub proof fn lemma_frame_round_trip(document: Seq<u8>)
    requires
        forall|k: int| 0 <= k < document.len() ==> #[trigger] document[k] != FRAME_END,
    ensures
        document_of(document.push(FRAME_END)) == document,
{
    let m = document.push(FRAME_END);
    assert forall|k: int| 0 <= k < document.len() implies #[trigger] m[k] != FRAME_END by {
        assert(m[k] == document[k]);
    }
    lemma_frame_len(m, document.len() as int);
    assert(m.take(document.len() as int) =~= document);
}

/// How the control tool ends: with code 0 and the message on standard
/// output when the response reports success, with code 1 and the message
/// on standard error when it does not.
pub fn exit_code(response: &IpcResponse) -> (code: i32)
    ensures
        code == if response.success {
            0i32
        } else {
            1i32
        },
{
    if response.success {
        0
    } else {
        1
    }
}

} // verus!
