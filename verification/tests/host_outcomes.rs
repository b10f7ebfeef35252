use cobapi::injection::{register_class_outcome, RegisterClassError};
use cobapi::{lookup_service_outcome, register_service_outcome, Event, CobApiVerison, RegisterServiceError};
use cobapi::services::SaveLoadedArgs;

#[test]
fn register_service_code_zero_is_success() {
    assert_eq!(register_service_outcome(0), Ok(()));
}

#[test]
fn register_service_code_one_is_already_registered() {
    assert_eq!(register_service_outcome(1), Err(RegisterServiceError::AlreadyRegistered));
}

#[test]
fn register_service_code_two_is_abi_mismatch() {
    assert_eq!(register_service_outcome(2), Err(RegisterServiceError::AbiVersionMismatch));
}

#[test]
fn register_service_other_codes_are_already_registered() {
    assert_eq!(register_service_outcome(3), Err(RegisterServiceError::AlreadyRegistered));
    assert_eq!(register_service_outcome(-1), Err(RegisterServiceError::AlreadyRegistered));
    assert_eq!(register_service_outcome(i32::MAX), Err(RegisterServiceError::AlreadyRegistered));
}

#[test]
fn register_service_error_messages() {
    assert_eq!(
        RegisterServiceError::AlreadyRegistered.message(),
        "a service with this id is already registered"
    );
    assert_eq!(RegisterServiceError::AbiVersionMismatch.message(), "service vtable ABI version mismatch");
}

#[test]
fn lookup_finds_only_on_status_zero() {
    assert_eq!(lookup_service_outcome(0, (7u32, 9u32)), Some((7, 9)));
    assert_eq!(lookup_service_outcome(1, (7u32, 9u32)), None);
    assert_eq!(lookup_service_outcome(-3, "x"), None);
}

#[test]
fn register_class_codes() {
    assert_eq!(register_class_outcome(0, "class"), Ok("class"));
    assert_eq!(register_class_outcome(1, "class"), Err(RegisterClassError::NullClass));
    assert_eq!(register_class_outcome(2, "class"), Err(RegisterClassError::AlreadyRegistered));
    assert_eq!(register_class_outcome(7, "class"), Err(RegisterClassError::Unknown(7)));
    assert_eq!(register_class_outcome(-4, "class"), Err(RegisterClassError::Unknown(-4)));
}

#[test]
fn register_class_error_messages() {
    assert_eq!(RegisterClassError::NullClass.message(), "the built class pointer was null");
    assert_eq!(
        RegisterClassError::AlreadyRegistered.message(),
        "a class with this namespace+name is already registered"
    );
    assert_eq!(RegisterClassError::Unknown(42).message(), "unrecognized class-registration error code 42");
    assert_eq!(RegisterClassError::Unknown(-7).message(), "unrecognized class-registration error code -7");
    assert_eq!(
        RegisterClassError::Unknown(i32::MIN).message(),
        "unrecognized class-registration error code -2147483648"
    );
    assert_eq!(RegisterClassError::Unknown(0).message(), "unrecognized class-registration error code 0");
}

#[test]
fn plain_types_hold_their_values() {
    let e: Event<SaveLoadedArgs> = Event::Args(SaveLoadedArgs { ty: 1, slot_id: 3 });
    match e {
        Event::Args(a) => {
            assert_eq!(a.ty, 1);
            assert_eq!(a.slot_id, 3);
        }
        Event::Missing => panic!("expected arguments"),
    }
    let v = CobApiVerison { major: 0, minor: 5, patch: 0 };
    assert_eq!((v.major, v.minor, v.patch), (0, 5, 0));
    let s = cobapi::services::save_loaded::SaveLoadedArgs { ty: 2, slot_id: 4 };
    assert_eq!((s.ty, s.slot_id), (2, 4));
}
