use cobapi::fnv::const_fnv1a_64;
use cobapi::service::expand::{expand_service, method_entry_key, service_id, vtable_keys, ServiceError};
use cobapi::service::validate::MethodError;
use cobapi::service::{MethodInput, ReceiverShape, ServiceMethod, ServiceTrait, TraitItemShape};
use cobapi::vtable::{find_method, resolve_methods, MethodKey, VTABLE_ABI_VERSION};

fn shared_self() -> MethodInput {
    MethodInput::Receiver(ReceiverShape { is_reference: true, is_mutable: false })
}

fn handler_method(name: &str) -> ServiceMethod {
    ServiceMethod {
        name: name.to_string(),
        generics: vec![],
        is_async: false,
        inputs: vec![
            shared_self(),
            MethodInput::Typed { binding: Some("handler".to_string()), ty_tokens: "extern \"C\" fn ()".to_string() },
        ],
        output: None,
    }
}

fn msbt_loaded_service() -> ServiceTrait {
    ServiceTrait {
        name: "MsbtLoadedService".to_string(),
        items: vec![
            TraitItemShape::Method(handler_method("subscribe")),
            TraitItemShape::Other,
            TraitItemShape::Method(handler_method("unsubscribe")),
        ],
    }
}

#[test]
fn plan_of_a_service_trait() {
    let plan = expand_service(&msbt_loaded_service()).unwrap();
    assert_eq!(plan.handle_name, "MsbtLoadedServiceHandle");
    assert_eq!(plan.method_count, 2);
    assert_eq!(plan.methods.len(), 2);
    let first = &plan.methods[0];
    assert_eq!(first.item, 0);
    assert_eq!(first.name, "subscribe");
    assert_eq!(first.trampoline, "__cobapi_trampoline_subscribe");
    assert_eq!(first.signature, "(extern\"C\"fn())");
    assert_eq!(first.args.len(), 1);
    assert_eq!(first.args[0].name, "handler");
    assert_eq!(first.key.name_hash, const_fnv1a_64(b"subscribe"));
    assert_eq!(first.key.sig_hash, const_fnv1a_64(b"(extern\"C\"fn())"));
    let second = &plan.methods[1];
    assert_eq!(second.item, 2);
    assert_eq!(second.name, "unsubscribe");
    assert_eq!(second.trampoline, "__cobapi_trampoline_unsubscribe");
    assert_eq!(second.key, method_entry_key(&handler_method("unsubscribe")));
}

#[test]
fn plan_reports_first_bad_method() {
    let mut bad_async = handler_method("later");
    bad_async.is_async = true;
    let mut bad_mut = handler_method("mutate");
    bad_mut.inputs[0] = MethodInput::Receiver(ReceiverShape { is_reference: true, is_mutable: true });
    let t = ServiceTrait {
        name: "Broken".to_string(),
        items: vec![
            TraitItemShape::Method(handler_method("fine")),
            TraitItemShape::Other,
            TraitItemShape::Method(bad_mut),
            TraitItemShape::Method(bad_async),
        ],
    };
    assert_eq!(
        expand_service(&t).unwrap_err(),
        ServiceError { item: 2, error: MethodError::MutableReceiver(0) }
    );
}

#[test]
fn plan_of_trait_without_methods() {
    let t = ServiceTrait { name: "Empty".to_string(), items: vec![TraitItemShape::Other] };
    let plan = expand_service(&t).unwrap();
    assert_eq!(plan.handle_name, "EmptyHandle");
    assert_eq!(plan.method_count, 0);
    assert!(plan.methods.is_empty());
}

#[test]
fn service_id_format() {
    assert_eq!(
        service_id("cobapi::services::msbt_loaded", "MsbtLoadedService", "0"),
        "cobapi::services::msbt_loaded::MsbtLoadedService@0"
    );
}

fn key(n: u64, s: u64) -> MethodKey {
    MethodKey { name_hash: n, sig_hash: s }
}

#[test]
fn find_method_returns_first_match() {
    let table = [key(1, 1), key(2, 2), key(2, 2), key(3, 1)];
    assert_eq!(find_method(&table, key(2, 2)), Some(1));
    assert_eq!(find_method(&table, key(3, 1)), Some(3));
    assert_eq!(find_method(&table, key(3, 3)), None);
    assert_eq!(find_method(&[], key(1, 1)), None);
}

#[test]
fn resolve_needs_every_method_and_the_same_abi() {
    let table = [key(1, 1), key(2, 2)];
    assert_eq!(resolve_methods(VTABLE_ABI_VERSION, &table, &[key(2, 2), key(1, 1)]), Some(vec![1, 0]));
    assert_eq!(resolve_methods(VTABLE_ABI_VERSION, &table, &[key(2, 2), key(2, 3)]), None);
    assert_eq!(resolve_methods(VTABLE_ABI_VERSION + 1, &table, &[key(1, 1)]), None);
    assert_eq!(resolve_methods(0, &table, &[]), None);
    assert_eq!(resolve_methods(VTABLE_ABI_VERSION, &[], &[]), Some(vec![]));
}

#[test]
fn client_resolves_the_table_the_service_published() {
    let plan = expand_service(&msbt_loaded_service()).unwrap();
    let published = vtable_keys(&plan);
    assert_eq!(published.len(), 2);
    let wanted: Vec<MethodKey> = plan.methods.iter().map(|m| m.key).collect();
    assert_eq!(resolve_methods(VTABLE_ABI_VERSION, &published, &wanted), Some(vec![0, 1]));
}

#[test]
fn client_with_changed_signature_finds_nothing() {
    let plan = expand_service(&msbt_loaded_service()).unwrap();
    let published = vtable_keys(&plan);
    let mut changed = handler_method("subscribe");
    changed.output = Some("bool".to_string());
    assert_eq!(resolve_methods(VTABLE_ABI_VERSION, &published, &[method_entry_key(&changed)]), None);
}

#[test]
fn duplicate_keys_resolve_to_first_entry() {
    let table = [key(5, 5), key(5, 5)];
    assert_eq!(resolve_methods(VTABLE_ABI_VERSION, &table, &table), Some(vec![0, 0]));
}

#[test]
fn raw_identifiers_lose_their_prefix_in_generated_names() {
    let t = ServiceTrait {
        name: "r#Match".to_string(),
        items: vec![TraitItemShape::Method(handler_method("r#type"))],
    };
    let plan = expand_service(&t).unwrap();
    assert_eq!(plan.handle_name, "MatchHandle");
    assert_eq!(plan.methods[0].name, "r#type");
    assert_eq!(plan.methods[0].trampoline, "__cobapi_trampoline_type");
    assert_eq!(plan.methods[0].key.name_hash, const_fnv1a_64(b"r#type"));
}
