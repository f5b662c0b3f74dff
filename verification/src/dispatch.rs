use vstd::prelude::*;
use crate::envelope::CommandRequest;
use crate::envelope::DecodeError;
use crate::envelope::EnvelopeModel;
use crate::envelope::IpcMessage;
use crate::envelope::ProxyRequest;
use crate::envelope::decode_message;
use crate::envelope::spec_decode;

verus! {

/// What the host must do with one inbound text: run a command, fetch a URL,
/// or — when the envelope did not decode and so carries no callback token —
/// only log the failure, producing no result.
pub enum HostAction {
    RunCommand(CommandRequest),
    Fetch(ProxyRequest),
    LogDecodeError(DecodeError),
}

/// Routes one inbound text: each decoded envelope is accepted
/// unconditionally onto its execution path, and a text that does not decode
/// yields only a diagnostic, never a result.
pub fn route_message(text: &str) -> (a: HostAction)
    ensures
        match a {
            HostAction::RunCommand(c) => spec_decode(text@) == Ok::<EnvelopeModel, DecodeError>(
                EnvelopeModel::Command { command: c.command@, callback_id: c.callback_id@ },
            ),
            HostAction::Fetch(p) => spec_decode(text@) == Ok::<EnvelopeModel, DecodeError>(
                EnvelopeModel::Proxy { url: p.url@, callback_id: p.callback_id@ },
            ),
            HostAction::LogDecodeError(e) => spec_decode(text@) == Err::<
                EnvelopeModel,
                DecodeError,
            >(e),
        },
{
    match decode_message(text) {
        Ok(IpcMessage::Command(c)) => HostAction::RunCommand(c),
        Ok(IpcMessage::Proxy(p)) => HostAction::Fetch(p),
        Err(e) => HostAction::LogDecodeError(e),
    }
}

} // verus!
