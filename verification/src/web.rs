//! The web side of the daemon: what a request is turned into, and how an
//! error is reported.

use vstd::prelude::*;
use vstd::string::StringExecFns;
use crate::error::{ErrorChain, texts};
use crate::network::{Command, CommandResponse};

verus! {

/// What a request to the web side ends in.
#[derive(Debug)]
pub enum AppResponse {
    Network(CommandResponse),
    Error(ErrorChain),
}

/// The body of an error response: the messages of the error and its causes.
#[derive(Debug)]
pub struct AppErrors {
    pub errors: Vec<String>,
}

impl AppErrors {
    /// The body that lists these messages.
    pub fn new(errors: Vec<String>) -> (made: Self)
        ensures
            made.errors == errors,
    {
        Self { errors }
    }
}

/// What a command is called in an error message.
pub open spec fn action_of(command: Command) -> Seq<char> {
    match command {
        Command::CheckConnectivity => "check connectivity"@,
        Command::ListConnections => "list actions"@,
        Command::ListWiFiNetworks => "list WiFi networks"@,
        Command::Stop => "stop"@,
    }
}

/// What a command is called in an error message.
pub fn action_name(command: &Command) -> (action: &'static str)
    ensures
        action@ == action_of(*command),
{
    match command {
        Command::CheckConnectivity => "check connectivity",
        Command::ListConnections => "list actions",
        Command::ListWiFiNetworks => "list WiFi networks",
        Command::Stop => "stop",
    }
}

/// What the web side makes of the answer of the network side to a command.
/// `received` is the answer, or the error of receiving it. An answer that
/// could not be received is an error with that cause; every error is
/// reported as the failure of the action.
pub fn receive_network_thread_response(
    received: Result<Result<CommandResponse, ErrorChain>, ErrorChain>,
    action: &str,
) -> (result: Result<CommandResponse, ErrorChain>)
    ensures
        match received {
            Ok(Ok(response)) => result == Ok::<CommandResponse, ErrorChain>(response),
            Ok(Err(error)) => result is Err && result->Err_0@ == seq!["Failed to "@ + action@]
                + error@,
            Err(error) => result is Err && result->Err_0@ == seq![
                "Failed to "@ + action@,
                "Failed to receive network thread response"@,
            ] + error@,
        },
{
    let ghost given = received;
    let failed = match received {
        Ok(Ok(response)) => {
            return Ok(response);
        },
        Ok(Err(error)) => error,
        Err(error) => error.context("Failed to receive network thread response".to_owned()),
    };
    let message = String::from_str("Failed to ").concat(action);
    let chain = failed.context(message);
    proof {
        match given {
            Err(error) => {
                assert(seq!["Failed to "@ + action@] + (seq![
                    "Failed to receive network thread response"@,
                ] + error@) =~= seq![
                    "Failed to "@ + action@,
                    "Failed to receive network thread response"@,
                ] + error@);
            },
            _ => {},
        }
    }
    Err(chain)
}

/// What the daemon makes of the report that the network side is up, or of
/// the error of receiving it, in the same way.
pub fn receive_network_initialized(received: Result<Result<(), ErrorChain>, ErrorChain>) -> (result:
    Result<(), ErrorChain>)
    ensures
        match received {
            Ok(Ok(())) => result is Ok,
            Ok(Err(error)) => result is Err && result->Err_0@ == seq![
                "Failed to initialize network"@,
            ] + error@,
            Err(error) => result is Err && result->Err_0@ == seq![
                "Failed to initialize network"@,
                "Failed to receive network initialization response"@,
            ] + error@,
        },
{
    let ghost given = received;
    let failed = match received {
        Ok(Ok(())) => {
            return Ok(());
        },
        Ok(Err(error)) => error,
        Err(error) => error.context(
            "Failed to receive network initialization response".to_owned(),
        ),
    };
    let chain = failed.context("Failed to initialize network".to_owned());
    proof {
        match given {
            Err(error) => {
                assert(seq!["Failed to initialize network"@] + (seq![
                    "Failed to receive network initialization response"@,
                ] + error@) =~= seq![
                    "Failed to initialize network"@,
                    "Failed to receive network initialization response"@,
                ] + error@);
            },
            _ => {},
        }
    }
    Err(chain)
}

/// The answer of the network side, or its error, as the outcome of the
/// request.
pub open spec fn response_of(result: Result<CommandResponse, ErrorChain>) -> AppResponse {
    match result {
        Ok(network_response) => AppResponse::Network(network_response),
        Err(err) => AppResponse::Error(err),
    }
}

impl From<Result<CommandResponse, ErrorChain>> for AppResponse {
    fn from(result: Result<CommandResponse, ErrorChain>) -> (response: Self) {
        match result {
            Ok(network_response) => Self::Network(network_response),
            Err(err) => Self::Error(err),
        }
    }
}

impl vstd::std_specs::convert::FromSpecImpl<Result<CommandResponse, ErrorChain>> for AppResponse {
    open spec fn obeys_from_spec() -> bool {
        true
    }

    open spec fn from_spec(result: Result<CommandResponse, ErrorChain>) -> Self {
        response_of(result)
    }
}

/// The body of the response that reports an error: its messages, the
/// outermost first.
pub fn to_http_error_response(err: ErrorChain) -> (body: AppErrors)
    ensures
        texts(body.errors@) == err@,
{
    AppErrors::new(err.messages)
}

} // verus!
