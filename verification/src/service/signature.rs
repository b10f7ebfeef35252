//! The names `#[service]` binds arguments to, and the canonical signature text
//! whose hash tells two versions of a method apart.

use vstd::prelude::*;
use crate::service::{MethodInput, ServiceMethod};
use crate::text::{decimal, push_decimal, push_without_white_space, strip_white_space, string_push};

verus! {

/// A typed argument of a method: the name it is bound to, its position among
/// the method's inputs, and the token text of its type.
#[derive(Debug, Clone)]
pub struct NamedArg {
    pub name: String,
    pub input: usize,
    pub ty_tokens: String,
}

/// A named argument as plain values: name, position, type tokens.
pub open spec fn named_arg_view(a: NamedArg) -> (Seq<char>, nat, Seq<char>) {
    (a.name@, a.input as nat, a.ty_tokens@)
}

/// The name the argument at position `i` is bound to: its own identifier, or
/// `__arg_` followed by `i` in decimal when its pattern is not a plain identifier.
pub open spec fn arg_name(binding: Option<String>, i: nat) -> Seq<char> {
    match binding {
        Some(b) => b@,
        None => "__arg_"@ + decimal(i),
    }
}

/// The typed arguments among the first `n` inputs, in order, as plain values.
pub open spec fn typed_args(inputs: Seq<MethodInput>, n: nat) -> Seq<(Seq<char>, nat, Seq<char>)>
    decreases n,
{
    if n == 0 {
        seq![]
    } else {
        let prev = typed_args(inputs, (n - 1) as nat);
        match inputs[n - 1] {
            MethodInput::Receiver(_) => prev,
            MethodInput::Typed { binding, ty_tokens } => prev.push(
                (arg_name(binding, (n - 1) as nat), (n - 1) as nat, ty_tokens@),
            ),
        }
    }
}

/// All typed arguments of a method's inputs.
pub open spec fn all_typed_args(inputs: Seq<MethodInput>) -> Seq<(Seq<char>, nat, Seq<char>)> {
    typed_args(inputs, inputs.len())
}

/// The typed arguments of the first `n` inputs are exactly the typed inputs
/// among them, each once, in the order of their positions, each with its own
/// type tokens and the name it is bound to; receivers are left out.
pub proof fn law_typed_args_are_the_typed_inputs(inputs: Seq<MethodInput>, n: nat)
    requires
        n <= inputs.len(),
    ensures
        forall|k: int|
            0 <= k < typed_args(inputs, n).len() ==> {
                let (name, pos, ty) = #[trigger] typed_args(inputs, n)[k];
                &&& pos < n
                &&& inputs[pos as int] is Typed
                &&& ty == inputs[pos as int]->ty_tokens@
                &&& name == arg_name(inputs[pos as int]->binding, pos)
            },
        forall|k1: int, k2: int|
            0 <= k1 < k2 < typed_args(inputs, n).len() ==> (#[trigger] typed_args(inputs, n)[k1]).1
                < (#[trigger] typed_args(inputs, n)[k2]).1,
        forall|i: int|
            0 <= i < n && (#[trigger] inputs[i] is Typed) ==> exists|k: int|
                0 <= k < typed_args(inputs, n).len() && (#[trigger] typed_args(inputs, n)[k]).1 == i,
    decreases n,
{
    if n > 0 {
        law_typed_args_are_the_typed_inputs(inputs, (n - 1) as nat);
        let prev = typed_args(inputs, (n - 1) as nat);
        let cur = typed_args(inputs, n);
        if inputs[n - 1] is Typed {
            assert(cur == prev.push(
                (arg_name(inputs[n - 1]->binding, (n - 1) as nat), (n - 1) as nat, inputs[n - 1]->ty_tokens@),
            ));
            assert forall|i: int| 0 <= i < n && (#[trigger] inputs[i] is Typed) implies exists|k: int|
                0 <= k < cur.len() && (#[trigger] cur[k]).1 == i by {
                if i == n - 1 {
                    assert(cur[prev.len() as int].1 == i);
                } else {
                    let k = choose|k: int| 0 <= k < prev.len() && (#[trigger] prev[k]).1 == i;
                    assert(cur[k] == prev[k]);
                }
            }
        } else {
            assert(cur == prev);
        }
    }
}

/// The typed arguments of a method, with the names they are bound to.
pub fn non_self_args(inputs: &Vec<MethodInput>) -> (args: Vec<NamedArg>)
    ensures
        args@.map_values(|a: NamedArg| named_arg_view(a)) == all_typed_args(inputs@),
{
    let mut out: Vec<NamedArg> = Vec::new();
    let n: usize = inputs.len();
    let mut i: usize = 0;
    while i < n
        invariant
            n == inputs@.len(),
            i <= n,
            out@.map_values(|a: NamedArg| named_arg_view(a)) == typed_args(inputs@, i as nat),
        decreases n - i,
    {
        let ghost before = out@;
        match &inputs[i] {
            MethodInput::Receiver(_) => {},
            MethodInput::Typed { binding, ty_tokens } => {
                let name: String = match binding {
                    Some(b) => b.clone(),
                    None => {
                        let mut s = String::from_str("__arg_");
                        push_decimal(&mut s, i as u64);
                        s
                    },
                };
                let arg = NamedArg { name, input: i, ty_tokens: ty_tokens.clone() };
                out.push(arg);
                assert(out@.map_values(|a: NamedArg| named_arg_view(a)) =~= before.map_values(
                    |a: NamedArg| named_arg_view(a),
                ).push(named_arg_view(arg)));
            },
        }
        i = i + 1;
    }
    out
}

/// The canonical form of a type's token text: the text with all white space taken out.
pub fn type_to_canonical_string(ty_tokens: &str) -> (canonical: String)
    ensures
        canonical@ == strip_white_space(ty_tokens@),
{
    let mut s = String::new();
    push_without_white_space(&mut s, ty_tokens);
    assert(s@ =~= strip_white_space(ty_tokens@));
    s
}

/// The canonical types of `args`, separated by commas.
pub open spec fn joined_types(args: Seq<(Seq<char>, nat, Seq<char>)>) -> Seq<char>
    decreases args.len(),
{
    if args.len() == 0 {
        seq![]
    } else if args.len() == 1 {
        strip_white_space(args[0].2)
    } else {
        joined_types(args.drop_last()) + seq![','] + strip_white_space(args.last().2)
    }
}

/// The signature text of a method: `(` the canonical argument types joined by
/// commas `)`, then `->` and the canonical return type when one is written.
pub open spec fn method_signature(m: ServiceMethod) -> Seq<char> {
    seq!['('] + joined_types(all_typed_args(m.inputs@)) + seq![')'] + match m.output {
        Some(t) => seq!['-', '>'] + strip_white_space(t@),
        None => seq![],
    }
}

/// Whether two input lists have receivers and typed arguments at the same
/// positions, with types that agree once white space is taken out.
pub open spec fn inputs_agree_canonically(a: Seq<MethodInput>, b: Seq<MethodInput>) -> bool {
    &&& a.len() == b.len()
    &&& forall|i: int| 0 <= i < a.len() ==> (#[trigger] a[i] is Receiver) == (b[i] is Receiver)
    &&& forall|i: int|
        0 <= i < a.len() && (#[trigger] a[i] is Typed) ==> strip_white_space(a[i]->ty_tokens@)
            == strip_white_space(b[i]->ty_tokens@)
}

proof fn lemma_typed_args_agree(a: Seq<MethodInput>, b: Seq<MethodInput>, n: nat)
    requires
        inputs_agree_canonically(a, b),
        n <= a.len(),
    ensures
        typed_args(a, n).len() == typed_args(b, n).len(),
        forall|k: int|
            0 <= k < typed_args(a, n).len() ==> strip_white_space(#[trigger] typed_args(a, n)[k].2)
                == strip_white_space(typed_args(b, n)[k].2),
    decreases n,
{
    if n > 0 {
        lemma_typed_args_agree(a, b, (n - 1) as nat);
        assert(a[n - 1] is Receiver == b[n - 1] is Receiver);
    }
}

proof fn lemma_joined_types_agree(x: Seq<(Seq<char>, nat, Seq<char>)>, y: Seq<(Seq<char>, nat, Seq<char>)>)
    requires
        x.len() == y.len(),
        forall|k: int| 0 <= k < x.len() ==> strip_white_space(#[trigger] x[k].2) == strip_white_space(y[k].2),
    ensures
        joined_types(x) == joined_types(y),
    decreases x.len(),
{
    if x.len() > 1 {
        assert forall|k: int| 0 <= k < x.drop_last().len() implies strip_white_space(
            #[trigger] x.drop_last()[k].2,
        ) == strip_white_space(y.drop_last()[k].2) by {
            assert(x.drop_last()[k] == x[k]);
            assert(y.drop_last()[k] == y[k]);
        }
        lemma_joined_types_agree(x.drop_last(), y.drop_last());
        assert(strip_white_space(x[x.len() - 1].2) == strip_white_space(y[y.len() - 1].2));
    } else if x.len() == 1 {
        assert(strip_white_space(x[0].2) == strip_white_space(y[0].2));
    }
}

/// The signature text of a method depends on the canonical forms of its types
/// alone: methods whose argument and return types differ only in white space,
/// or whose arguments are bound to other names, have the same signature.
pub proof fn law_signature_ignores_white_space(m1: ServiceMethod, m2: ServiceMethod)
    requires
        inputs_agree_canonically(m1.inputs@, m2.inputs@),
        m1.output is Some <==> m2.output is Some,
        m1.output is Some ==> strip_white_space(m1.output->0@) == strip_white_space(m2.output->0@),
    ensures
        method_signature(m1) == method_signature(m2),
{
    lemma_typed_args_agree(m1.inputs@, m2.inputs@, m1.inputs@.len());
    lemma_joined_types_agree(all_typed_args(m1.inputs@), all_typed_args(m2.inputs@));
}

/// A written return type adds `->` and its canonical form after the
/// argument list, whatever the arguments: the signature of a method is that of
/// the same method without a return type, followed by `->` and the type.
pub proof fn law_signature_return_suffix(m: ServiceMethod, t: String)
    ensures
        method_signature(ServiceMethod { output: Some(t), ..m }) == method_signature(
            ServiceMethod { output: None, ..m },
        ) + seq!['-', '>'] + strip_white_space(t@),
        method_signature(ServiceMethod { output: None, ..m }).last() == ')',
        method_signature(ServiceMethod { output: None, ..m })[0] == '(',
{
    let a = ServiceMethod { output: Some(t), ..m };
    let b = ServiceMethod { output: None, ..m };
    assert(method_signature(a) =~= method_signature(b) + seq!['-', '>'] + strip_white_space(t@));
}

/// The canonical signature text of a method.
pub fn signature_string(m: &ServiceMethod) -> (sig: String)
    ensures
        sig@ == method_signature(*m),
{
    let args = non_self_args(&m.inputs);
    let ghost views = args@.map_values(|a: NamedArg| named_arg_view(a));
    let mut s = String::new();
    string_push(&mut s, '(');
    let n: usize = args.len();
    let mut k: usize = 0;
    while k < n
        invariant
            n == args@.len(),
            views == args@.map_values(|a: NamedArg| named_arg_view(a)),
            k <= n,
            s@ == seq!['('] + joined_types(views.take(k as int)),
        decreases n - k,
    {
        let ghost prefix = s@;
        if k != 0 {
            string_push(&mut s, ',');
        }
        push_without_white_space(&mut s, args[k].ty_tokens.as_str());
        proof {
            let next = views.take(k as int + 1);
            assert(next.drop_last() =~= views.take(k as int));
            assert(next.last() == named_arg_view(args@[k as int]));
            assert(s@ =~= seq!['('] + joined_types(next));
        }
        k = k + 1;
    }
    assert(views.take(n as int) =~= views);
    string_push(&mut s, ')');
    match &m.output {
        Some(t) => {
            string_push(&mut s, '-');
            string_push(&mut s, '>');
            push_without_white_space(&mut s, t.as_str());
        },
        None => {},
    }
    assert(s@ =~= method_signature(*m));
    s
}

} // verus!
