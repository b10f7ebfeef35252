//! What `#[service]` reads from a trait, the checks it makes on each method,
//! and the plan of the method table it generates.

use vstd::prelude::*;

pub mod expand;
pub mod signature;
pub mod validate;

verus! {

/// The kind of a generic parameter of a method.
#[derive(Debug, Clone, Copy, PartialEq, Eq, Structural)]
pub enum GenericParamKind {
    Lifetime,
    Type,
    Const,
}

/// The shape of a `self` receiver: whether it is borrowed, and whether mutably
/// (`&mut self` and `mut self` both count as mutable).
#[derive(Debug, Clone, Copy, PartialEq, Eq, Structural)]
pub struct ReceiverShape {
    pub is_reference: bool,
    pub is_mutable: bool,
}

/// One input of a method: its receiver, or a typed argument with the name it is
/// bound to (when its pattern is a plain identifier) and the token text of its type.
#[derive(Debug, Clone)]
pub enum MethodInput {
    Receiver(ReceiverShape),
    Typed { binding: Option<String>, ty_tokens: String },
}

/// A method of a service trait, as far as `#[service]` reads it.
#[derive(Debug, Clone)]
pub struct ServiceMethod {
    pub name: String,
    pub generics: Vec<GenericParamKind>,
    pub is_async: bool,
    pub inputs: Vec<MethodInput>,
    /// The token text of the return type; `None` for `()` left unwritten.
    pub output: Option<String>,
}

/// An item of a service trait: a method, or anything else (which is left alone).
#[derive(Debug, Clone)]
pub enum TraitItemShape {
    Method(ServiceMethod),
    Other,
}

/// A trait marked `#[service]`: its name and its items in order.
#[derive(Debug, Clone)]
pub struct ServiceTrait {
    pub name: String,
    pub items: Vec<TraitItemShape>,
}

} // verus!
