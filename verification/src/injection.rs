use vstd::prelude::*;

verus! {

/// Why the host refused to register an injected class.
#[derive(Debug, Clone, Copy, PartialEq, Eq, Structural)]
pub enum RegisterClassError {
    NullClass,
    AlreadyRegistered,
    Unknown(i32),
}

/// What a status code of the host's class registration means for `class`:
/// 0 keeps the class, 1 and 2 name their errors, any other code is passed on.
pub open spec fn class_registration_outcome<C>(code: i32, class: C) -> Result<C, RegisterClassError> {
    if code == 0 {
        Ok(class)
    } else if code == 1 {
        Err(RegisterClassError::NullClass)
    } else if code == 2 {
        Err(RegisterClassError::AlreadyRegistered)
    } else {
        Err(RegisterClassError::Unknown(code))
    }
}

/// Turns the status code of a class registration into its result.
pub fn register_class_outcome<C>(code: i32, class: C) -> (result: Result<C, RegisterClassError>)
    ensures
        result == class_registration_outcome(code, class),
{
    match code {
        0 => Ok(class),
        1 => Err(RegisterClassError::NullClass),
        2 => Err(RegisterClassError::AlreadyRegistered),
        other => Err(RegisterClassError::Unknown(other)),
    }
}

impl RegisterClassError {
    /// The error's message; `Unknown` carries its code, written in decimal.
    pub fn message(&self) -> (text: String)
        ensures
            text@ == register_class_error_text(*self),
    {
        match self {
            RegisterClassError::NullClass => "the built class pointer was null".to_string(),
            RegisterClassError::AlreadyRegistered =>
                "a class with this namespace+name is already registered".to_string(),
            RegisterClassError::Unknown(code) => {
                let mut s = "unrecognized class-registration error code ".to_string();
                crate::text::push_signed_decimal(&mut s, *code);
                s
            },
        }
    }
}

/// The human-readable text of a class-registration error.
pub open spec fn register_class_error_text(e: RegisterClassError) -> Seq<char> {
    match e {
        RegisterClassError::NullClass => "the built class pointer was null"@,
        RegisterClassError::AlreadyRegistered => "a class with this namespace+name is already registered"@,
        RegisterClassError::Unknown(code) => "unrecognized class-registration error code "@
            + crate::text::signed_decimal(code as int),
    }
}

} // verus!
