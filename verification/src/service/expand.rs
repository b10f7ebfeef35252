//! The plan of what `#[service]` generates for a trait: the checked methods,
//! their trampolines and argument names, and the method-table entries.

use vstd::prelude::*;
use vstd::utf8::encode_utf8;
use crate::fnv::{const_fnv1a_64, fnv1a_64};
use crate::service::signature::{
    NamedArg, all_typed_args, method_signature, named_arg_view, non_self_args, signature_string,
};
use crate::service::validate::{
    MethodError, lemma_method_check_accepts, method_acceptable, method_check, validate_method,
};
use crate::service::{ServiceMethod, ServiceTrait, TraitItemShape};
use crate::text::string_push;
use crate::vtable::{MethodKey, VTABLE_ABI_VERSION, keys_distinct, law_published_table_resolves, resolution};

verus! {

/// What the generated code does for one method of the trait.
#[derive(Debug, Clone)]
pub struct MethodPlan {
    /// The position of the method among the trait's items.
    pub item: usize,
    pub name: String,
    /// The name of the function that calls the method on the service's value.
    pub trampoline: String,
    pub args: Vec<NamedArg>,
    pub signature: String,
    pub key: MethodKey,
}

/// What the generated code does for a whole trait.
#[derive(Debug, Clone)]
pub struct ServicePlan {
    /// The name of the client-side handle type.
    pub handle_name: String,
    pub methods: Vec<MethodPlan>,
    /// The method count written into the table header.
    pub method_count: u32,
}

/// The first method of a trait that a service cannot hold, and why.
#[derive(Debug, Clone, Copy, PartialEq, Eq, Structural)]
pub struct ServiceError {
    /// The position of the method among the trait's items.
    pub item: usize,
    pub error: MethodError,
}

/// The methods among the first `n` items of a trait, with their positions.
pub open spec fn trait_methods(items: Seq<TraitItemShape>, n: nat) -> Seq<(nat, ServiceMethod)>
    decreases n,
{
    if n == 0 {
        seq![]
    } else {
        let prev = trait_methods(items, (n - 1) as nat);
        match items[n - 1] {
            TraitItemShape::Method(m) => prev.push(((n - 1) as nat, m)),
            TraitItemShape::Other => prev,
        }
    }
}

/// All methods of a trait, with their positions among its items.
pub open spec fn all_trait_methods(t: ServiceTrait) -> Seq<(nat, ServiceMethod)> {
    trait_methods(t.items@, t.items@.len())
}

/// The first failed check among the methods of the first `n` items, in item order.
pub open spec fn first_method_error(items: Seq<TraitItemShape>, n: nat) -> Option<ServiceError>
    decreases n,
{
    if n == 0 {
        None
    } else {
        match first_method_error(items, (n - 1) as nat) {
            Some(e) => Some(e),
            None => match items[n - 1] {
                TraitItemShape::Method(m) => match method_check(m) {
                    Err(e) => Some(ServiceError { item: (n - 1) as usize, error: e }),
                    Ok(_) => None,
                },
                TraitItemShape::Other => None,
            },
        }
    }
}

/// The table key of a method: the FNV-1a hashes of the UTF-8 of its name and
/// of its signature text.
pub open spec fn method_key(m: ServiceMethod) -> MethodKey {
    MethodKey {
        name_hash: fnv1a_64(encode_utf8(m.name@)),
        sig_hash: fnv1a_64(encode_utf8(method_signature(m))),
    }
}

/// An identifier's name without the `r#` that marks a raw identifier, as it
/// reads when formatted into another identifier.
pub open spec fn unraw(name: Seq<char>) -> Seq<char> {
    if name.len() >= 2 && name[0] == 'r' && name[1] == '#' {
        name.skip(2)
    } else {
        name
    }
}

/// The name of the trampoline of the method called `name`.
pub open spec fn trampoline_name(name: Seq<char>) -> Seq<char> {
    "__cobapi_trampoline_"@ + unraw(name)
}

/// The name of the handle type of the trait called `name`.
pub open spec fn handle_name(name: Seq<char>) -> Seq<char> {
    unraw(name) + "Handle"@
}

/// Appends the identifier `name` to `s`, without the `r#` of a raw identifier.
fn push_unraw(s: &mut String, name: &str)
    ensures
        final(s)@ == old(s)@ + unraw(name@),
{
    let n: usize = name.unicode_len();
    let start: usize = if n >= 2 && name.get_char(0) == 'r' && name.get_char(1) == '#' {
        2
    } else {
        0
    };
    assert(unraw(name@) == name@.skip(start as int));
    let mut i: usize = start;
    while i < n
        invariant
            n == name@.len(),
            start <= i <= n,
            s@ == old(s)@ + name@.subrange(start as int, i as int),
        decreases n - i,
    {
        let c: char = name.get_char(i);
        string_push(s, c);
        i = i + 1;
        assert(s@ =~= old(s)@ + name@.subrange(start as int, i as int));
    }
    assert(name@.subrange(start as int, n as int) =~= name@.skip(start as int));
}

/// Whether `p` is the plan of method `m`, the item at position `item`.
pub open spec fn plans_method(p: MethodPlan, item: nat, m: ServiceMethod) -> bool {
    &&& p.item == item
    &&& p.name@ == m.name@
    &&& p.trampoline@ == trampoline_name(m.name@)
    &&& p.args@.map_values(|a: NamedArg| named_arg_view(a)) == all_typed_args(m.inputs@)
    &&& p.signature@ == method_signature(m)
    &&& p.key == method_key(m)
}

/// The keys of a trait's methods, in order: the table that the service publishes.
pub open spec fn trait_keys(t: ServiceTrait) -> Seq<MethodKey> {
    all_trait_methods(t).map_values(|e: (nat, ServiceMethod)| method_key(e.1))
}

/// The id a service registers under: the path of the module that declares
/// its trait, `::`, the trait's name, `@`, and the major version of the crate.
pub open spec fn service_id_text(module: Seq<char>, trait_name: Seq<char>, major: Seq<char>) -> Seq<char> {
    module + "::"@ + trait_name + "@"@ + major
}

/// The id under which the service of a trait is registered and looked up.
pub fn service_id(module: &str, trait_name: &str, major: &str) -> (id: String)
    ensures
        id@ == service_id_text(module@, trait_name@, major@),
{
    let mut id = String::from_str(module);
    id.append("::");
    id.append(trait_name);
    id.append("@");
    id.append(major);
    id
}

/// The table key of a method.
pub fn method_entry_key(m: &ServiceMethod) -> (key: MethodKey)
    ensures
        key == method_key(*m),
{
    let sig = signature_string(m);
    let name_hash = const_fnv1a_64(m.name.as_str().as_bytes());
    let sig_hash = const_fnv1a_64(sig.as_str().as_bytes());
    MethodKey { name_hash, sig_hash }
}

fn plan_method(item: usize, m: &ServiceMethod) -> (p: MethodPlan)
    ensures
        plans_method(p, item as nat, *m),
{
    let mut trampoline = String::from_str("__cobapi_trampoline_");
    push_unraw(&mut trampoline, m.name.as_str());
    let signature = signature_string(m);
    let name_hash = const_fnv1a_64(m.name.as_str().as_bytes());
    let sig_hash = const_fnv1a_64(signature.as_str().as_bytes());
    MethodPlan {
        item,
        name: m.name.clone(),
        trampoline,
        args: non_self_args(&m.inputs),
        signature,
        key: MethodKey { name_hash, sig_hash },
    }
}

/// Once a method of a prefix has failed its check, longer prefixes report the same failure.
proof fn lemma_first_method_error_sticks(items: Seq<TraitItemShape>, n: nat, m: nat)
    requires
        n <= m,
        first_method_error(items, n) is Some,
    ensures
        first_method_error(items, m) == first_method_error(items, n),
    decreases m - n,
{
    if n < m {
        lemma_first_method_error_sticks(items, n, (m - 1) as nat);
    }
}

/// Whether item `i` of a trait is a method that a service accepts.
pub open spec fn item_acceptable(items: Seq<TraitItemShape>, i: int) -> bool {
    items[i] matches TraitItemShape::Method(m) ==> method_acceptable(m)
}

/// The first `n` items have a failing method exactly when some method among
/// them is not acceptable; the failure reported is then the earliest such
/// method, with the error its check gives, and every method before it is
/// acceptable.
pub proof fn law_first_method_error(items: Seq<TraitItemShape>, n: nat)
    requires
        n <= items.len(),
        items.len() <= usize::MAX,
    ensures
        first_method_error(items, n) is None <==> forall|i: int|
            0 <= i < n ==> #[trigger] item_acceptable(items, i),
        first_method_error(items, n) matches Some(e) ==> {
            &&& e.item < n
            &&& items[e.item as int] matches TraitItemShape::Method(m)
            &&& !method_acceptable(m)
            &&& method_check(m) == Err::<(), MethodError>(e.error)
            &&& forall|i: int| 0 <= i < e.item ==> #[trigger] item_acceptable(items, i)
        },
    decreases n,
{
    if n > 0 {
        law_first_method_error(items, (n - 1) as nat);
        match items[n - 1] {
            TraitItemShape::Method(m) => {
                lemma_method_check_accepts(m);
            },
            TraitItemShape::Other => {},
        }
        if first_method_error(items, (n - 1) as nat) is Some {
            let e = first_method_error(items, (n - 1) as nat).unwrap();
            assert(!item_acceptable(items, e.item as int));
            assert(!(forall|i: int| 0 <= i < n ==> #[trigger] item_acceptable(items, i)));
        } else {
            assert(forall|i: int| 0 <= i < n - 1 ==> #[trigger] item_acceptable(items, i));
            assert(first_method_error(items, n) is None <==> item_acceptable(items, n - 1));
            if first_method_error(items, n) is Some {
                let e = first_method_error(items, n).unwrap();
                assert(e.item as int == n - 1);
                assert(!(forall|i: int| 0 <= i < n ==> #[trigger] item_acceptable(items, i)));
            }
        }
    }
}

/// Checks every method of a service trait and, when all pass, plans the code
/// generated for it; otherwise reports the first method, in item order, that
/// fails its check.
pub fn expand_service(t: &ServiceTrait) -> (result: Result<ServicePlan, ServiceError>)
    ensures
        match result {
            Err(e) => {
                &&& first_method_error(t.items@, t.items@.len()) == Some(e)
                &&& e.item < t.items@.len()
                &&& t.items@[e.item as int] matches TraitItemShape::Method(m)
                &&& !method_acceptable(m)
                &&& method_check(m) == Err::<(), MethodError>(e.error)
                &&& forall|i: int| 0 <= i < e.item ==> #[trigger] item_acceptable(t.items@, i)
            },
            Ok(plan) => {
                &&& first_method_error(t.items@, t.items@.len()) is None
                &&& forall|i: int| 0 <= i < t.items@.len() ==> #[trigger] item_acceptable(t.items@, i)
                &&& plan.handle_name@ == handle_name(t.name@)
                &&& plan.methods@.len() == all_trait_methods(*t).len()
                &&& forall|k: int|
                    0 <= k < plan.methods@.len() ==> plans_method(
                        #[trigger] plan.methods@[k],
                        all_trait_methods(*t)[k].0,
                        all_trait_methods(*t)[k].1,
                    )
                &&& plan.methods@.map_values(|p: MethodPlan| p.key) == trait_keys(*t)
                &&& plan.method_count == plan.methods@.len() as u32
            },
        },
{
    let n: usize = t.items.len();
    proof {
        law_first_method_error(t.items@, t.items@.len());
    }
    let mut methods: Vec<MethodPlan> = Vec::new();
    let mut i: usize = 0;
    while i < n
        invariant
            n == t.items@.len(),
            i <= n,
            first_method_error(t.items@, i as nat) is None,
            methods@.len() == trait_methods(t.items@, i as nat).len(),
            forall|k: int|
                0 <= k < methods@.len() ==> plans_method(
                    #[trigger] methods@[k],
                    trait_methods(t.items@, i as nat)[k].0,
                    trait_methods(t.items@, i as nat)[k].1,
                ),
        decreases n - i,
    {
        match &t.items[i] {
            TraitItemShape::Method(m) => {
                match validate_method(m) {
                    Err(e) => {
                        proof {
                            lemma_first_method_error_sticks(t.items@, (i + 1) as nat, n as nat);
                            law_first_method_error(t.items@, n as nat);
                        }
                        return Err(ServiceError { item: i, error: e });
                    },
                    Ok(()) => {},
                }
                let p = plan_method(i, m);
                methods.push(p);
            },
            TraitItemShape::Other => {},
        }
        i = i + 1;
    }
    assert(trait_methods(t.items@, n as nat) == all_trait_methods(*t));
    assert(methods@.map_values(|p: MethodPlan| p.key) =~= trait_keys(*t));
    let mut handle = String::new();
    push_unraw(&mut handle, t.name.as_str());
    handle.append("Handle");
    let count: u32 = methods.len() as u32;
    Ok(ServicePlan { handle_name: handle, methods, method_count: count })
}

/// A client generated from the same trait as a service resolves every method
/// in the table the service publishes: each at an entry with the same name and
/// signature hashes at or before its own position, and at exactly its own
/// position when no two of the trait's methods share both hashes.
pub proof fn law_client_resolves_service_table(t: ServiceTrait)
    ensures
        resolution(VTABLE_ABI_VERSION, trait_keys(t), trait_keys(t)) is Some,
        forall|k: int|
            0 <= k < trait_keys(t).len() ==> {
                let at = #[trigger] resolution(VTABLE_ABI_VERSION, trait_keys(t), trait_keys(t)).unwrap()[k];
                at <= k && trait_keys(t)[at as int] == trait_keys(t)[k]
            },
        keys_distinct(trait_keys(t)) ==> resolution(VTABLE_ABI_VERSION, trait_keys(t), trait_keys(t))
            == Some(Seq::new(trait_keys(t).len(), |k: int| k as nat)),
{
    law_published_table_resolves(trait_keys(t));
}

/// The table a service publishes: the keys of its planned methods, in order.
pub fn vtable_keys(plan: &ServicePlan) -> (keys: Vec<MethodKey>)
    ensures
        keys@ == plan.methods@.map_values(|p: MethodPlan| p.key),
{
    let mut keys: Vec<MethodKey> = Vec::new();
    let n: usize = plan.methods.len();
    let mut k: usize = 0;
    while k < n
        invariant
            n == plan.methods@.len(),
            k <= n,
            keys@ == plan.methods@.take(k as int).map_values(|p: MethodPlan| p.key),
        decreases n - k,
    {
        keys.push(plan.methods[k].key);
        assert(plan.methods@.take(k as int + 1).map_values(|p: MethodPlan| p.key)
            =~= plan.methods@.take(k as int).map_values(|p: MethodPlan| p.key).push(plan.methods@[k as int].key));
        k = k + 1;
    }
    assert(plan.methods@.take(n as int) =~= plan.methods@);
    keys
}

} // verus!
