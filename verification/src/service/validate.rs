//! The rules a service method must follow.

use vstd::prelude::*;
use crate::service::{GenericParamKind, MethodInput, ServiceMethod};

verus! {

/// Why a method cannot be part of a service; the receiver errors carry the
/// position of the offending input.
#[derive(Debug, Clone, Copy, PartialEq, Eq, Structural)]
pub enum MethodError {
    GenericMethod,
    AsyncMethod,
    MutableReceiver(usize),
    ValueReceiver(usize),
    MissingReceiver,
}

/// The human-readable text of a method error.
pub open spec fn method_error_text(e: MethodError) -> Seq<char> {
    match e {
        MethodError::GenericMethod => "service methods cannot be generic"@,
        MethodError::AsyncMethod => "service methods cannot be async"@,
        MethodError::MutableReceiver(_) => "service methods take &self only, not &mut self"@,
        MethodError::ValueReceiver(_) => "service methods take &self, not self by value"@,
        MethodError::MissingReceiver => "service methods must take &self"@,
    }
}

impl MethodError {
    /// The error's message.
    pub fn message(&self) -> (text: &'static str)
        ensures
            text@ == method_error_text(*self),
    {
        match self {
            MethodError::GenericMethod => "service methods cannot be generic",
            MethodError::AsyncMethod => "service methods cannot be async",
            MethodError::MutableReceiver(_) => "service methods take &self only, not &mut self",
            MethodError::ValueReceiver(_) => "service methods take &self, not self by value",
            MethodError::MissingReceiver => "service methods must take &self",
        }
    }
}

/// Whether some generic parameter is a type or a constant.
pub open spec fn has_non_lifetime_generic(generics: Seq<GenericParamKind>) -> bool {
    exists|i: int| 0 <= i < generics.len() && !(#[trigger] generics[i] is Lifetime)
}

/// Scans the first `n` inputs for receivers in order: the first receiver that is
/// mutable or not borrowed is an error; otherwise whether a receiver was seen.
pub open spec fn receiver_scan(inputs: Seq<MethodInput>, n: nat) -> Result<bool, MethodError>
    decreases n,
{
    if n == 0 {
        Ok(false)
    } else {
        match receiver_scan(inputs, (n - 1) as nat) {
            Err(e) => Err(e),
            Ok(saw_self) => match inputs[n - 1] {
                MethodInput::Receiver(r) => if r.is_mutable {
                    Err(MethodError::MutableReceiver((n - 1) as usize))
                } else if !r.is_reference {
                    Err(MethodError::ValueReceiver((n - 1) as usize))
                } else {
                    Ok(true)
                },
                MethodInput::Typed { .. } => Ok(saw_self),
            },
        }
    }
}

/// The verdict on a method: generics are checked first, then `async`, then the
/// receivers in order, and last that there is a receiver at all.
pub open spec fn method_check(m: ServiceMethod) -> Result<(), MethodError> {
    if has_non_lifetime_generic(m.generics@) {
        Err(MethodError::GenericMethod)
    } else if m.is_async {
        Err(MethodError::AsyncMethod)
    } else {
        match receiver_scan(m.inputs@, m.inputs@.len()) {
            Err(e) => Err(e),
            Ok(true) => Ok(()),
            Ok(false) => Err(MethodError::MissingReceiver),
        }
    }
}

/// Whether an input is a `&self` receiver.
pub open spec fn is_shared_receiver(input: MethodInput) -> bool {
    input matches MethodInput::Receiver(r) && r.is_reference && !r.is_mutable
}

/// A method a service accepts: generic over lifetimes only, not `async`, every
/// receiver `&self`, and at least one receiver.
pub open spec fn method_acceptable(m: ServiceMethod) -> bool {
    &&& !has_non_lifetime_generic(m.generics@)
    &&& !m.is_async
    &&& forall|i: int|
        0 <= i < m.inputs@.len() && (#[trigger] m.inputs@[i] is Receiver) ==> is_shared_receiver(
            m.inputs@[i],
        )
    &&& exists|i: int| 0 <= i < m.inputs@.len() && #[trigger] is_shared_receiver(m.inputs@[i])
}

/// What a clean scan of a prefix says: every receiver in it is `&self`, and
/// whether one was seen.
proof fn lemma_receiver_scan_ok(inputs: Seq<MethodInput>, n: nat)
    requires
        n <= inputs.len(),
    ensures
        receiver_scan(inputs, n) is Ok <==> forall|i: int|
            0 <= i < n && (#[trigger] inputs[i] is Receiver) ==> is_shared_receiver(inputs[i]),
        receiver_scan(inputs, n) == Ok::<bool, MethodError>(true) <==> (receiver_scan(
            inputs,
            n,
        ) is Ok && exists|i: int| 0 <= i < n && #[trigger] is_shared_receiver(inputs[i])),
    decreases n,
{
    if n > 0 {
        lemma_receiver_scan_ok(inputs, (n - 1) as nat);
        let prev = receiver_scan(inputs, (n - 1) as nat);
        let last = inputs[n - 1];
        if prev is Ok {
            if last is Receiver {
                assert(inputs[n - 1] is Receiver);
                if is_shared_receiver(last) {
                    assert(is_shared_receiver(inputs[n - 1]));
                }
            } else {
                assert(!is_shared_receiver(inputs[n - 1]));
                if exists|i: int| 0 <= i < n && #[trigger] is_shared_receiver(inputs[i]) {
                    let i = choose|i: int| 0 <= i < n && #[trigger] is_shared_receiver(inputs[i]);
                    assert(i != n - 1);
                    assert(0 <= i < n - 1 && is_shared_receiver(inputs[i]));
                }
            }
        } else {
            let i = choose|i: int|
                0 <= i < n - 1 && (#[trigger] inputs[i] is Receiver) && !is_shared_receiver(
                    inputs[i],
                );
            assert(0 <= i < n && inputs[i] is Receiver && !is_shared_receiver(inputs[i]));
        }
    }
}

/// Once a scan has failed, scanning further inputs keeps the same error.
proof fn lemma_receiver_scan_err_sticks(inputs: Seq<MethodInput>, n: nat, m: nat)
    requires
        n <= m,
        receiver_scan(inputs, n) is Err,
    ensures
        receiver_scan(inputs, m) == receiver_scan(inputs, n),
    decreases m - n,
{
    if n < m {
        lemma_receiver_scan_err_sticks(inputs, n, (m - 1) as nat);
    }
}

/// The verdict of `method_check` is success exactly on acceptable methods.
pub proof fn lemma_method_check_accepts(m: ServiceMethod)
    ensures
        method_check(m) is Ok <==> method_acceptable(m),
{
    lemma_receiver_scan_ok(m.inputs@, m.inputs@.len());
}

/// Checks that a method can be called through a service table.
pub fn validate_method(m: &ServiceMethod) -> (result: Result<(), MethodError>)
    ensures
        result == method_check(*m),
        result is Ok <==> method_acceptable(*m),
{
    proof {
        lemma_method_check_accepts(*m);
    }
    let ng: usize = m.generics.len();
    let mut i: usize = 0;
    while i < ng
        invariant
            ng == m.generics@.len(),
            i <= ng,
            forall|j: int| 0 <= j < i ==> (#[trigger] m.generics@[j]) is Lifetime,
        decreases ng - i,
    {
        match m.generics[i] {
            GenericParamKind::Lifetime => {},
            _ => {
                return Err(MethodError::GenericMethod);
            },
        }
        i = i + 1;
    }
    if m.is_async {
        return Err(MethodError::AsyncMethod);
    }
    let n: usize = m.inputs.len();
    let mut saw_self: bool = false;
    let mut k: usize = 0;
    while k < n
        invariant
            n == m.inputs@.len(),
            k <= n,
            !has_non_lifetime_generic(m.generics@),
            !m.is_async,
            receiver_scan(m.inputs@, k as nat) == Ok::<bool, MethodError>(saw_self),
        decreases n - k,
    {
        match &m.inputs[k] {
            MethodInput::Receiver(r) => {
                if r.is_mutable {
                    proof {
                        lemma_receiver_scan_err_sticks(m.inputs@, (k + 1) as nat, n as nat);
                    }
                    return Err(MethodError::MutableReceiver(k));
                }
                if !r.is_reference {
                    proof {
                        lemma_receiver_scan_err_sticks(m.inputs@, (k + 1) as nat, n as nat);
                    }
                    return Err(MethodError::ValueReceiver(k));
                }
                saw_self = true;
            },
            MethodInput::Typed { .. } => {},
        }
        k = k + 1;
    }
    if !saw_self {
        return Err(MethodError::MissingReceiver);
    }
    Ok(())
}

} // verus!
