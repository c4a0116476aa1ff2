//! What a JSON-RPC call asks of the devices and how their answer is
//! returned.

use crate::correlation::{wrapping_succ, CorrelationCounter};
use crate::messages::Operation;
use vstd::prelude::*;

verus! {

/// The methods of the JSON-RPC interface.
#[derive(Debug, Clone, Copy, PartialEq, Eq, Structural)]
pub enum RpcMethodKind {
    Ping,
    GetVersion,
    GetDeviceList,
    GetStatus,
    ReadSignalGroup,
    WriteSignalGroup,
}

/// The name under which a method is called.
pub open spec fn method_name(m: RpcMethodKind) -> Seq<char> {
    match m {
        RpcMethodKind::Ping => "ping"@,
        RpcMethodKind::GetVersion => "get_version"@,
        RpcMethodKind::GetDeviceList => "get_device_list"@,
        RpcMethodKind::GetStatus => "get_status"@,
        RpcMethodKind::ReadSignalGroup => "read_signal_group"@,
        RpcMethodKind::WriteSignalGroup => "write_signal_group"@,
    }
}

/// The device operation a method sends, for the methods that reach a
/// device.
pub open spec fn method_operation(m: RpcMethodKind) -> Option<Operation> {
    match m {
        RpcMethodKind::GetStatus => Some(Operation::GetStatus),
        RpcMethodKind::ReadSignalGroup => Some(Operation::ReadSignalGroup),
        RpcMethodKind::WriteSignalGroup => Some(Operation::WriteSignalGroup),
        _ => None,
    }
}

impl RpcMethodKind {
    pub fn name(&self) -> (n: &'static str)
        ensures
            n@ == method_name(*self),
    {
        match self {
            RpcMethodKind::Ping => "ping",
            RpcMethodKind::GetVersion => "get_version",
            RpcMethodKind::GetDeviceList => "get_device_list",
            RpcMethodKind::GetStatus => "get_status",
            RpcMethodKind::ReadSignalGroup => "read_signal_group",
            RpcMethodKind::WriteSignalGroup => "write_signal_group",
        }
    }

    pub fn operation(&self) -> (o: Option<Operation>)
        ensures
            o == method_operation(*self),
    {
        match self {
            RpcMethodKind::GetStatus => Some(Operation::GetStatus),
            RpcMethodKind::ReadSignalGroup => Some(Operation::ReadSignalGroup),
            RpcMethodKind::WriteSignalGroup => Some(Operation::WriteSignalGroup),
            _ => None,
        }
    }
}

/// What a call that reached a device returns: the data of a success, or an
/// error message.
#[derive(Debug, Clone, PartialEq)]
pub enum ControlAnswer<D> {
    Data(D),
    Error(String),
}

/// The answer to a call from the device's reply, `None` when none came in
/// time: the data on success; otherwise the device's error, `Unknown error`
/// when it gave none; `Request timed out` without a reply.
pub fn answer_from_reply<D>(reply: Option<(bool, D, Option<String>)>) -> (a: ControlAnswer<D>)
    ensures
        match reply {
            Some((true, data, _)) => a == ControlAnswer::Data(data),
            Some((false, _, Some(e))) => a matches ControlAnswer::Error(m) && m@ == e@,
            Some((false, _, None)) => a matches ControlAnswer::Error(m) && m@ == "Unknown error"@,
            None => a matches ControlAnswer::Error(m) && m@ == "Request timed out"@,
        },
{
    match reply {
        Some((success, data, error)) => {
            if success {
                ControlAnswer::Data(data)
            } else {
                match error {
                    Some(e) => ControlAnswer::Error(e),
                    None => ControlAnswer::Error("Unknown error".to_owned()),
                }
            }
        },
        None => ControlAnswer::Error("Request timed out".to_owned()),
    }
}

/// Draws the next correlation id of the RPC server from its counter, which
/// starts at 0.
pub fn next_correlation_id(counter: &mut CorrelationCounter) -> (id: u64)
    ensures
        id == old(counter).upcoming(),
        final(counter).upcoming() == wrapping_succ(id),
{
    crate::correlation::next_correlation_id(counter)
}

} // verus!
