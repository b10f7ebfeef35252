use cobapi::service::signature::{non_self_args, signature_string, type_to_canonical_string};
use cobapi::service::validate::{validate_method, MethodError};
use cobapi::service::{GenericParamKind, MethodInput, ReceiverShape, ServiceMethod};

fn shared_self() -> MethodInput {
    MethodInput::Receiver(ReceiverShape { is_reference: true, is_mutable: false })
}

fn arg(name: &str, ty: &str) -> MethodInput {
    MethodInput::Typed { binding: Some(name.to_string()), ty_tokens: ty.to_string() }
}

fn method(name: &str, inputs: Vec<MethodInput>, output: Option<&str>) -> ServiceMethod {
    ServiceMethod {
        name: name.to_string(),
        generics: vec![],
        is_async: false,
        inputs,
        output: output.map(|s| s.to_string()),
    }
}

#[test]
fn accepts_shared_self_method() {
    let m = method("subscribe", vec![shared_self(), arg("handler", "extern \"C\" fn ()")], None);
    assert_eq!(validate_method(&m), Ok(()));
}

#[test]
fn accepts_lifetime_generics() {
    let mut m = method("get", vec![shared_self()], Some("& 'a str"));
    m.generics = vec![GenericParamKind::Lifetime];
    assert_eq!(validate_method(&m), Ok(()));
}

#[test]
fn rejects_type_generics_before_anything_else() {
    let mut m = method("get", vec![], None);
    m.generics = vec![GenericParamKind::Lifetime, GenericParamKind::Type];
    m.is_async = true;
    assert_eq!(validate_method(&m), Err(MethodError::GenericMethod));
    m.generics = vec![GenericParamKind::Const];
    assert_eq!(validate_method(&m), Err(MethodError::GenericMethod));
}

#[test]
fn rejects_async() {
    let mut m = method("get", vec![shared_self()], None);
    m.is_async = true;
    assert_eq!(validate_method(&m), Err(MethodError::AsyncMethod));
}

#[test]
fn rejects_mutable_receiver() {
    let m = method(
        "set",
        vec![MethodInput::Receiver(ReceiverShape { is_reference: true, is_mutable: true })],
        None,
    );
    assert_eq!(validate_method(&m), Err(MethodError::MutableReceiver(0)));
    let m = method(
        "set",
        vec![MethodInput::Receiver(ReceiverShape { is_reference: false, is_mutable: true })],
        None,
    );
    assert_eq!(validate_method(&m), Err(MethodError::MutableReceiver(0)));
}

#[test]
fn rejects_value_receiver() {
    let m = method(
        "take",
        vec![arg("x", "u8"), MethodInput::Receiver(ReceiverShape { is_reference: false, is_mutable: false })],
        None,
    );
    assert_eq!(validate_method(&m), Err(MethodError::ValueReceiver(1)));
}

#[test]
fn rejects_missing_receiver() {
    let m = method("free", vec![arg("x", "u8")], None);
    assert_eq!(validate_method(&m), Err(MethodError::MissingReceiver));
}

#[test]
fn method_error_messages() {
    assert_eq!(MethodError::GenericMethod.message(), "service methods cannot be generic");
    assert_eq!(MethodError::AsyncMethod.message(), "service methods cannot be async");
    assert_eq!(MethodError::MutableReceiver(0).message(), "service methods take &self only, not &mut self");
    assert_eq!(MethodError::ValueReceiver(2).message(), "service methods take &self, not self by value");
    assert_eq!(MethodError::MissingReceiver.message(), "service methods must take &self");
}

#[test]
fn args_keep_names_or_get_positional_ones() {
    let inputs = vec![
        shared_self(),
        arg("handler", "fn ()"),
        MethodInput::Typed { binding: None, ty_tokens: "(u8 , u8)".to_string() },
    ];
    let args = non_self_args(&inputs);
    assert_eq!(args.len(), 2);
    assert_eq!(args[0].name, "handler");
    assert_eq!(args[0].input, 1);
    assert_eq!(args[0].ty_tokens, "fn ()");
    assert_eq!(args[1].name, "__arg_2");
    assert_eq!(args[1].input, 2);
    assert_eq!(args[1].ty_tokens, "(u8 , u8)");
}

#[test]
fn canonical_type_drops_all_white_space() {
    assert_eq!(type_to_canonical_string("& 'static str"), "&'staticstr");
    assert_eq!(type_to_canonical_string(" Vec < u8 >\t\n"), "Vec<u8>");
    assert_eq!(type_to_canonical_string(""), "");
    assert_eq!(type_to_canonical_string("a\u{3000}b"), "ab");
}

#[test]
fn signature_of_method_without_return() {
    let m = method("subscribe", vec![shared_self(), arg("handler", "extern \"C\" fn (& SaveLoadedArgs)")], None);
    assert_eq!(signature_string(&m), "(extern\"C\"fn(&SaveLoadedArgs))");
}

#[test]
fn signature_of_method_with_return_and_several_args() {
    let m = method("sum", vec![shared_self(), arg("a", "u32"), arg("b", "Option < u8 >")], Some("u64"));
    assert_eq!(signature_string(&m), "(u32,Option<u8>)->u64");
}

#[test]
fn signature_of_method_without_args() {
    let m = method("ping", vec![shared_self()], None);
    assert_eq!(signature_string(&m), "()");
}

#[test]
fn signature_ignores_white_space_and_names() {
    let m1 = method("f", vec![shared_self(), arg("a", "Vec < u8 >")], Some("& 'static str"));
    let m2 = method(
        "f",
        vec![shared_self(), MethodInput::Typed { binding: None, ty_tokens: "Vec<u8>".to_string() }],
        Some("&'static str"),
    );
    assert_eq!(signature_string(&m1), signature_string(&m2));
}

#[test]
fn canonical_type_is_a_fixed_point() {
    for t in ["& 'static str", "Vec < Option < u8 > >", "fn ( u8 ) -> u8", "a\u{a0}b"] {
        let once = type_to_canonical_string(t);
        assert_eq!(type_to_canonical_string(&once), once);
        assert!(!once.chars().any(|c| c.is_whitespace()));
    }
}
