use errore::decimal::u8_dec;
use errore::error::{RError, Repr};
use errore::kind::{description, RErrorKind, NOT_FOUND, NUM_BUILTIN_KINDS};
use errore::registry::{ModuleRegistry, RegistryError};

#[test]
fn codec_round_trip_all_codes() {
    for code in 0..=255u8 {
        for is_custom in [false, true] {
            let packed = RErrorKind::encode_code(code, is_custom);
            assert_eq!(RErrorKind::decode_code(packed), (code, is_custom));
            // The low 4 bits of every packed kind are clear.
            assert_eq!(packed & 0xF, 0);
        }
    }
}

#[test]
fn builtin_descriptions_are_fixed() {
    assert_eq!(description(0), "NOT ALLOWED");
    assert_eq!(description(1), "NOT FOUND");
    assert_eq!(description(6), "INVALID ARGUMENT");
    assert_eq!(description(21), "REMOTE ERROR");
}

#[test]
fn kind_render_builtin_and_boundary() {
    assert_eq!(RErrorKind::new(1).render(), "NOT FOUND (1)");
    assert_eq!(RErrorKind::new(0).render(), "NOT ALLOWED (0)");
    // Codes at or past the taxonomy boundary render as unknown.
    assert_eq!(
        RErrorKind::new(NUM_BUILTIN_KINDS).render(),
        "UNKNOWN ERROR (22)"
    );
    assert_eq!(RErrorKind::new(255).render(), "UNKNOWN ERROR (255)");
    // Custom kinds never consult the built-in table.
    assert_eq!(RErrorKind::new_custom(5).render(), "MODULE ERROR (5)");
    assert_eq!(RErrorKind::new_custom(1).render(), "MODULE ERROR (1)");
}

#[test]
fn decimal_rendering() {
    assert_eq!(u8_dec(0), "0");
    assert_eq!(u8_dec(7), "7");
    assert_eq!(u8_dec(10), "10");
    assert_eq!(u8_dec(42), "42");
    assert_eq!(u8_dec(100), "100");
    assert_eq!(u8_dec(255), "255");
}

#[test]
fn register_then_resolve() {
    let mut reg = ModuleRegistry::new();
    let m = reg.register("net").unwrap();
    assert_eq!(reg.resolve(m.module_id()).as_str(), "net");
}

#[test]
fn duplicate_registration_is_refused() {
    let mut reg = ModuleRegistry::new();
    reg.register("net").unwrap();
    let second = reg.register("net");
    assert!(matches!(second, Err(RegistryError::DuplicateModule)));
    // The first registration is untouched.
    let m = reg.register("disk").unwrap();
    assert_eq!(reg.resolve(m.module_id()).as_str(), "disk");
}

#[test]
fn many_names_stay_distinct_and_resolvable() {
    // With a thousand names in a 16-bit hash space some pairs collide;
    // every name must still get its own identity and resolve back.
    let mut reg = ModuleRegistry::new();
    let names: Vec<String> = (0..1000).map(|i| format!("module_{}", i)).collect();
    let mut ids = Vec::new();
    for name in &names {
        let m = reg.register(name.as_str()).unwrap();
        ids.push(m.module_id());
    }
    for i in 0..ids.len() {
        for j in (i + 1)..ids.len() {
            assert_ne!(ids[i], ids[j]);
        }
    }
    for (i, name) in names.iter().enumerate() {
        assert_eq!(reg.resolve(ids[i]).as_str(), name.as_str());
    }
}

#[test]
fn equality_ignores_message() {
    let mut reg = ModuleRegistry::new();
    let m = reg.register("net").unwrap();
    let kind = RErrorKind::new(NOT_FOUND);
    let plain = Repr::new_simple(m, kind);
    let with_static = Repr::new_simple_msg(m, kind, "missing");
    let with_owned = Repr::new_custom_msg(m, kind, String::from("gone for good"));
    assert!(plain == with_static);
    assert!(plain == with_owned);
    assert!(with_static == with_owned);
    // A different kind makes a different error.
    let other = Repr::new_simple(m, RErrorKind::new(0));
    assert!(plain != other);
}

#[test]
fn simple_errors_are_allocation_free() {
    let mut reg = ModuleRegistry::new();
    let m = reg.register("net").unwrap();
    let plain = RError::new_simple(m, RErrorKind::new(NOT_FOUND));
    assert!(plain.is_allocation_free());
    plain.ignore();
    let with_msg = RError::new_simple_msg(m, RErrorKind::new(NOT_FOUND), "missing");
    assert!(!with_msg.is_allocation_free());
    with_msg.ignore();
    let with_owned = RError::new_custom_msg(m, RErrorKind::new(NOT_FOUND), String::from("gone"));
    assert!(!with_owned.is_allocation_free());
    with_owned.ignore();
}

#[test]
fn both_consuming_paths_are_clean() {
    let mut reg = ModuleRegistry::new();
    let m = reg.register("net").unwrap();
    // Acknowledge and drop.
    RError::new_simple(m, RErrorKind::new(NOT_FOUND)).ignore();
    // Propagate as the error branch of a Result.
    let r: Result<(), RError> = RError::new_simple(m, RErrorKind::new(NOT_FOUND)).to_err();
    match r {
        Ok(()) => panic!("to_err must yield the error branch"),
        Err(e) => e.ignore(),
    }
}

#[test]
fn scenario_simple_not_found_renders() {
    let mut reg = ModuleRegistry::new();
    let n = reg.register("net").unwrap();
    let err = RError::new_simple(n, RErrorKind::new(NOT_FOUND));
    assert_eq!(err.render(&reg), "NOT FOUND (1). Null. FROM 'net'");
    err.ignore();
}

#[test]
fn scenario_duplicate_net_registration() {
    let mut reg = ModuleRegistry::new();
    reg.register("net").unwrap();
    assert_eq!(reg.register("net").unwrap_err(), RegistryError::DuplicateModule);
}

#[test]
fn scenario_custom_message_through_result() {
    let mut reg = ModuleRegistry::new();
    let n = reg.register("net").unwrap();
    let err = RError::new_custom_msg(n, RErrorKind::new_custom(5), String::from("disk full"));
    let r: Result<(), RError> = err.to_err();
    let e = r.unwrap_err();
    assert_eq!(e.render(&reg), "MODULE ERROR (5). disk full. FROM 'net'");
    e.ignore();
}

#[test]
fn rendering_with_static_message() {
    let mut reg = ModuleRegistry::new();
    let n = reg.register("store").unwrap();
    let err = RError::new_simple_msg(n, RErrorKind::new(5), "key taken");
    assert_eq!(err.render(&reg), "ALREADY EXIST (5). key taken. FROM 'store'");
    err.ignore();
}

#[test]
fn type_id_packs_module_and_kind() {
    let mut reg = ModuleRegistry::new();
    let m = reg.register("net").unwrap();
    let kind = RErrorKind::new(NOT_FOUND);
    let err = RError::new_simple(m, kind);
    let tid = err.error_type_id();
    assert_eq!(tid >> 16, m.module_id() as u32);
    assert_eq!(tid & 0xFFFF, RErrorKind::encode_code(NOT_FOUND, false) as u32);
    err.ignore();
}
