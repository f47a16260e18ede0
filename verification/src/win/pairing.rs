//! Pairing without asking the user: requests are confirmed as they come. The system's own
//! dialog may hang, and an unfinished request then takes the whole link down.
use vstd::prelude::*;

use crate::win::connect;
use crate::win::error::WinError;

verus! {

/// The device has a fixed code.
pub const METHOD_LEGACY: i32 = 1;

/// Both sides show a number, which is confirmed.
pub const METHOD_NUMERIC_COMPARISON: i32 = 3;

/// One side shows a number, which is entered on the other.
pub const METHOD_PASSKEY: i32 = 5;

/// How a pairing request is answered.
#[derive(Debug, PartialEq, Eq)]
pub enum AuthResponse {
    /// The number that is shown is confirmed.
    Numeric(u32),
    /// The number that is shown is entered.
    Passkey(u32),
    /// This code is given.
    Pin(Vec<u8>),
    /// Nothing but the consent is given.
    Consent,
}

/// A pairing request.
#[derive(Debug, PartialEq, Eq, Clone, Copy)]
pub struct AuthRequest {
    /// The device that asks.
    pub address: u64,
    pub method: i32,
    /// The number to compare, where numbers are compared.
    pub numeric_value: u32,
    /// The number to enter, where one is entered.
    pub passkey: u32,
}

/// The answer to a pairing request.
#[derive(Debug, PartialEq, Eq)]
pub struct AuthAnswer {
    /// The device that the answer goes to.
    pub address: u64,
    pub method: i32,
    /// Zero where the request is not refused.
    pub negative: u8,
    pub response: AuthResponse,
}

/// What is done with a pairing request.
#[derive(Debug, PartialEq, Eq)]
pub struct AuthDecision {
    /// The answer to send, if there is one; it is sent once.
    pub answer: Option<AuthAnswer>,
    /// Whether the request counts as handled, be the answer sent or not.
    pub handled: bool,
}

/// Whether a response gives what a request asks for.
pub open spec fn responds(response: AuthResponse, request: AuthRequest) -> bool {
    if request.method == METHOD_NUMERIC_COMPARISON {
        response == AuthResponse::Numeric(request.numeric_value)
    } else if request.method == METHOD_PASSKEY {
        response == AuthResponse::Passkey(request.passkey)
    } else if request.method == METHOD_LEGACY {
        response matches AuthResponse::Pin(pin) && pin@ == seq![48u8, 48u8, 48u8, 48u8]
    } else {
        response is Consent
    }
}

/// What a response to a request holds.
fn response_to(request: AuthRequest) -> (r: AuthResponse)
    ensures
        responds(r, request),
{
    if request.method == METHOD_NUMERIC_COMPARISON {
        AuthResponse::Numeric(request.numeric_value)
    } else if request.method == METHOD_PASSKEY {
        AuthResponse::Passkey(request.passkey)
    } else if request.method == METHOD_LEGACY {
        let pin: Vec<u8> = vec![48, 48, 48, 48];
        assert(pin@ =~= seq![48u8, 48u8, 48u8, 48u8]);
        AuthResponse::Pin(pin)
    } else {
        AuthResponse::Consent
    }
}

/// What is done with a pairing request: it is confirmed to the device that asked, with the method
/// that it asked for. Without a request there is nothing to answer.
pub fn auto_accept_auth_callback(request: Option<AuthRequest>) -> (r: AuthDecision)
    ensures
        r.handled == (request is Some),
        match request {
            Some(request) => {
                &&& r.answer matches Some(answer)
                &&& answer.address == request.address
                &&& answer.method == request.method
                &&& answer.negative == 0
                &&& responds(answer.response, request)
            },
            None => r.answer is None,
        },
{
    match request {
        Some(request) => AuthDecision {
            answer: Some(
                AuthAnswer {
                    address: request.address,
                    method: request.method,
                    negative: 0,
                    response: response_to(request),
                },
            ),
            handled: true,
        },
        None => AuthDecision { answer: None, handled: false },
    }
}

/// What follows a pairing request.
#[derive(Debug, PartialEq, Eq)]
pub struct PairingEnd {
    /// Whether the answering of requests is to be ended.
    pub unregister: bool,
    pub result: Result<(), WinError>,
}

impl PairingEnd {
    /// Whether what is known of the device is read again, after
    /// [`connect::PAIRING_SETTLE_MS`]: pairing succeeded.
    pub fn reads_device_again(&self) -> (r: bool)
        ensures
            r == (self.result is Ok),
    {
        self.result.is_ok()
    }
}

/// What follows a request to pair with the device at `addr`: answering requests was begun with
/// the first result, and pairing has ended with the second. A device that was paired already is
/// no failure.
pub fn pair_device_headless(addr: &str, register_result: u32, auth_result: u32) -> (r: PairingEnd)
    ensures
        r.unregister == (register_result == connect::ERROR_SUCCESS),
        if auth_result == connect::ERROR_SUCCESS || auth_result == connect::ERROR_NO_MORE_ITEMS {
            r.result == Ok::<(), WinError>(())
        } else {
            r.result matches Err(WinError::PairingFailed(with, code)) && with@ == addr@ && code
                == auth_result
        },
{
    let unregister: bool = register_result == connect::ERROR_SUCCESS;
    if auth_result == connect::ERROR_SUCCESS || auth_result == connect::ERROR_NO_MORE_ITEMS {
        PairingEnd { unregister, result: Ok(()) }
    } else {
        PairingEnd {
            unregister,
            result: Err(WinError::PairingFailed(addr.to_owned(), auth_result)),
        }
    }
}

} // verus!
