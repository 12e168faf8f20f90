//! The failure taxonomy of the client, and the decision logic that turns
//! responses and paired shutdown outcomes into a single reported result.

use vstd::prelude::*;

use crate::types::{JsonRpcError, JsonRpcResponse};

verus! {

/// Every way a call can fail.
///
/// `Transport` is a send, receive or spawn failure; `Disconnected` means the
/// dispatch loop ended while the call was pending or before it began;
/// `MalformedFrame` carries a frame that did not decode; `Rpc` is an error
/// the peer reported; `Protocol` carries a frame or payload of an unexpected
/// shape; `ShutdownFailure` combines a failed shutdown call with a failed
/// transport close so that neither is lost.
#[derive(Debug)]
pub enum RpcClientError {
    Transport(String),
    Disconnected,
    MalformedFrame(String),
    Rpc(JsonRpcError),
    Protocol(String),
    ShutdownFailure(Box<RpcClientError>, Box<RpcClientError>),
}

/// Merges the outcome of the shutdown call with the outcome of the transport
/// close: success only if both succeeded, the single failure if exactly one
/// failed, and a combined failure that keeps both if both failed.
pub fn merge_shutdown_results(
    call_result: Result<(), RpcClientError>,
    close_result: Result<(), RpcClientError>,
) -> (r: Result<(), RpcClientError>)
    ensures
        call_result is Ok && close_result is Ok ==> r is Ok,
        call_result is Ok && close_result is Err ==> r == close_result,
        call_result is Err && close_result is Ok ==> r == call_result,
        call_result is Err && close_result is Err ==> (r matches Err(
            RpcClientError::ShutdownFailure(a, b),
        ) && *a == call_result->Err_0 && *b == close_result->Err_0),
{
    match call_result {
        Ok(()) => close_result,
        Err(call_err) => match close_result {
            Ok(()) => Err(call_err),
            Err(close_err) => Err(
                RpcClientError::ShutdownFailure(Box::new(call_err), Box::new(close_err)),
            ),
        },
    }
}

/// The outcome a caller sees for a decoded response: the raw result text on
/// success, the peer's error when it reported one, and a protocol error for
/// a response of the shape the decoder never produces — one carrying neither
/// a result nor an error.
pub fn complete_call(resp: JsonRpcResponse) -> (r: Result<String, RpcClientError>)
    ensures
        resp.error matches Some(e) ==> r == Result::<String, RpcClientError>::Err(
            RpcClientError::Rpc(e),
        ),
        resp.error is None ==> (match resp.result {
            Some(t) => r == Result::<String, RpcClientError>::Ok(t),
            None => r matches Err(RpcClientError::Protocol(t)) && t@ == (
            "response carries neither result nor error")@,
        }),
{
    match resp.error {
        Some(e) => Err(RpcClientError::Rpc(e)),
        None => match resp.result {
            Some(t) => Ok(t),
            None => Err(
                RpcClientError::Protocol(
                    String::from_str("response carries neither result nor error"),
                ),
            ),
        },
    }
}

/// The outcome a caller sees for whatever the dispatcher delivered: the
/// completed response, or the failure the dispatcher routed to this caller,
/// unchanged.
pub fn settle_call(delivered: Result<JsonRpcResponse, RpcClientError>) -> (r: Result<
    String,
    RpcClientError,
>)
    ensures
        delivered matches Err(e) ==> r == Result::<String, RpcClientError>::Err(e),
        delivered matches Ok(resp) ==> {
            &&& resp.error matches Some(e) ==> r == Result::<String, RpcClientError>::Err(
                RpcClientError::Rpc(e),
            )
            &&& resp.error is None ==> (match resp.result {
                Some(t) => r == Result::<String, RpcClientError>::Ok(t),
                None => r matches Err(RpcClientError::Protocol(t)) && t@ == (
                "response carries neither result nor error")@,
            })
        },
{
    match delivered {
        Ok(resp) => complete_call(resp),
        Err(e) => Err(e),
    }
}

} // verus!
