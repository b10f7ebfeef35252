//! Verified core of the Cobalt plugin API: the decisions the host bindings make
//! about registration results, the service-method table that `#[service]`
//! traits generate, and the checks and hashes behind it.

use vstd::prelude::*;

pub mod fnv;
pub mod injection;
pub mod services;
pub mod service;
pub mod text;
pub mod vtable;

verus! {

/// An event handed to a system-event handler: its arguments, or nothing.
#[derive(Debug)]
pub enum Event<E> {
    Args(E),
    Missing,
}

/// Cobalt's version, as reported by the host.
#[derive(Debug, Clone, Copy)]
pub struct CobApiVerison {
    pub major: u64,
    pub minor: u64,
    pub patch: u64,
}

/// Why the host refused to register a service.
#[derive(Debug, Clone, Copy, PartialEq, Eq, Structural)]
pub enum RegisterServiceError {
    AlreadyRegistered,
    AbiVersionMismatch,
}

/// The human-readable text of a service-registration error.
pub open spec fn register_service_error_text(e: RegisterServiceError) -> Seq<char> {
    match e {
        RegisterServiceError::AlreadyRegistered => "a service with this id is already registered"@,
        RegisterServiceError::AbiVersionMismatch => "service vtable ABI version mismatch"@,
    }
}

impl RegisterServiceError {
    /// The error's message.
    pub fn message(&self) -> (text: &'static str)
        ensures
            text@ == register_service_error_text(*self),
    {
        match self {
            RegisterServiceError::AlreadyRegistered => "a service with this id is already registered",
            RegisterServiceError::AbiVersionMismatch => "service vtable ABI version mismatch",
        }
    }
}

/// What a status code of the host's service registration means:
/// 0 is success, 2 an ABI mismatch, and every other code a clash of ids.
pub open spec fn service_registration_outcome(rc: i32) -> Result<(), RegisterServiceError> {
    if rc == 0 {
        Ok(())
    } else if rc == 2 {
        Err(RegisterServiceError::AbiVersionMismatch)
    } else {
        Err(RegisterServiceError::AlreadyRegistered)
    }
}

/// Turns the status code of a service registration into its result.
pub fn register_service_outcome(rc: i32) -> (result: Result<(), RegisterServiceError>)
    ensures
        result == service_registration_outcome(rc),
        result is Ok <==> rc == 0,
        result == Err::<(), _>(RegisterServiceError::AbiVersionMismatch) <==> rc == 2,
        result == Err::<(), _>(RegisterServiceError::AlreadyRegistered) <==> (rc != 0 && rc != 2),
{
    match rc {
        0 => Ok(()),
        1 => Err(RegisterServiceError::AlreadyRegistered),
        2 => Err(RegisterServiceError::AbiVersionMismatch),
        _ => Err(RegisterServiceError::AlreadyRegistered),
    }
}

/// Turns the status code of a service lookup, together with what the host
/// wrote back, into the lookup's result: found only on status 0.
pub fn lookup_service_outcome<T>(rc: i32, found: T) -> (result: Option<T>)
    ensures
        rc == 0 ==> result == Some(found),
        rc != 0 ==> result is None,
{
    if rc == 0 {
        Some(found)
    } else {
        None
    }
}

} // verus!
