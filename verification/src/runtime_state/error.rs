//! Error types for the runtime-state subsystem.
use vstd::prelude::*;

use crate::text::{push_all, push_str, string_from_chars, str_chars};

verus! {

/// Validation failures for runtime-state inputs.
#[derive(Debug, Clone, Copy, PartialEq, Eq, Structural)]
pub enum RuntimeStateValidationError {
    /// Schedule interval must be positive.
    InvalidScheduleMinutes,
    /// Hour must be in 0..=23.
    InvalidScheduleHour,
    /// Minute must be in 0..=59.
    InvalidScheduleMinute,
    /// Bind token TTL must be positive.
    InvalidBindTokenTtl,
    /// Prompt text cannot be blank.
    EmptyTaskPrompt,
}

/// Storage adapter failures.
#[derive(Debug)]
pub enum RuntimeStateStoreError {
    /// Database operation failed.
    Database(String),
    /// Serialization or deserialization failed.
    Serialization(String),
    /// Input validation failed.
    Validation(RuntimeStateValidationError),
}

/// Service-level failures.
#[derive(Debug)]
pub enum RuntimeStateServiceError {
    /// Validation error.
    Validation(RuntimeStateValidationError),
    /// Storage error.
    Store(RuntimeStateStoreError),
}

/// The human-readable text of a validation error.
pub open spec fn validation_message(e: RuntimeStateValidationError) -> Seq<char> {
    match e {
        RuntimeStateValidationError::InvalidScheduleMinutes => "schedule interval must be greater than zero minutes"@,
        RuntimeStateValidationError::InvalidScheduleHour => "schedule hour must be between 0 and 23"@,
        RuntimeStateValidationError::InvalidScheduleMinute => "schedule minute must be between 0 and 59"@,
        RuntimeStateValidationError::InvalidBindTokenTtl => "bind token ttl must be greater than zero"@,
        RuntimeStateValidationError::EmptyTaskPrompt => "scheduled task prompt cannot be blank"@,
    }
}

/// The human-readable text of a store error.
pub open spec fn store_message(e: RuntimeStateStoreError) -> Seq<char> {
    match e {
        RuntimeStateStoreError::Database(m) => "database error: "@ + m@,
        RuntimeStateStoreError::Serialization(m) => "serialization error: "@ + m@,
        RuntimeStateStoreError::Validation(v) => validation_message(v),
    }
}

/// The human-readable text of a service error.
pub open spec fn service_message(e: RuntimeStateServiceError) -> Seq<char> {
    match e {
        RuntimeStateServiceError::Validation(v) => validation_message(v),
        RuntimeStateServiceError::Store(s) => store_message(s),
    }
}

impl RuntimeStateValidationError {
    /// Appends the human-readable text of this error.
    pub fn push_message(&self, out: &mut Vec<char>)
        ensures
            final(out)@ == old(out)@ + validation_message(*self),
    {
        match self {
            RuntimeStateValidationError::InvalidScheduleMinutes => {
                push_str(out, "schedule interval must be greater than zero minutes")
            },
            RuntimeStateValidationError::InvalidScheduleHour => {
                push_str(out, "schedule hour must be between 0 and 23")
            },
            RuntimeStateValidationError::InvalidScheduleMinute => {
                push_str(out, "schedule minute must be between 0 and 59")
            },
            RuntimeStateValidationError::InvalidBindTokenTtl => {
                push_str(out, "bind token ttl must be greater than zero")
            },
            RuntimeStateValidationError::EmptyTaskPrompt => {
                push_str(out, "scheduled task prompt cannot be blank")
            },
        }
    }

    /// The human-readable text of this error.
    pub fn message(&self) -> (r: String)
        ensures
            r@ == validation_message(*self),
    {
        let mut out: Vec<char> = Vec::new();
        self.push_message(&mut out);
        assert(out@ =~= validation_message(*self));
        string_from_chars(out.as_slice())
    }
}

impl RuntimeStateStoreError {
    /// Appends the human-readable text of this error.
    pub fn push_message(&self, out: &mut Vec<char>)
        ensures
            final(out)@ == old(out)@ + store_message(*self),
    {
        match self {
            RuntimeStateStoreError::Database(m) => {
                push_str(out, "database error: ");
                let c = str_chars(m.as_str());
                push_all(out, &c);
                assert(out@ =~= old(out)@ + store_message(*self));
            },
            RuntimeStateStoreError::Serialization(m) => {
                push_str(out, "serialization error: ");
                let c = str_chars(m.as_str());
                push_all(out, &c);
                assert(out@ =~= old(out)@ + store_message(*self));
            },
            RuntimeStateStoreError::Validation(v) => v.push_message(out),
        }
    }

    /// The human-readable text of this error.
    pub fn message(&self) -> (r: String)
        ensures
            r@ == store_message(*self),
    {
        let mut out: Vec<char> = Vec::new();
        self.push_message(&mut out);
        assert(out@ =~= store_message(*self));
        string_from_chars(out.as_slice())
    }
}

impl RuntimeStateServiceError {
    /// Appends the human-readable text of this error.
    pub fn push_message(&self, out: &mut Vec<char>)
        ensures
            final(out)@ == old(out)@ + service_message(*self),
    {
        match self {
            RuntimeStateServiceError::Validation(v) => v.push_message(out),
            RuntimeStateServiceError::Store(s) => s.push_message(out),
        }
    }

    /// The human-readable text of this error.
    pub fn message(&self) -> (r: String)
        ensures
            r@ == service_message(*self),
    {
        let mut out: Vec<char> = Vec::new();
        self.push_message(&mut out);
        assert(out@ =~= service_message(*self));
        string_from_chars(out.as_slice())
    }
}

} // verus!
