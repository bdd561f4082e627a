use butler_core::identity::thunk_identity;
use butler_core::parse::parse_args;
use butler_core::record::ReservedKey;
use butler_core::thunk::{GenError, effective_handler, generate_thunk};

#[test]
fn identity_is_deterministic() {
    let a = thunk_identity(b"setup", b"src/main.rs", 42);
    let b = thunk_identity(b"setup", b"src/main.rs", 42);
    assert_eq!(a, b);
}

#[test]
fn identity_differs_across_lines() {
    let a = thunk_identity(b"setup", b"src/main.rs", 10);
    let b = thunk_identity(b"setup", b"src/main.rs", 11);
    assert_ne!(a, b);
}

#[test]
fn identity_differs_across_paths() {
    let a = thunk_identity(b"setup", b"a.src", 10);
    let b = thunk_identity(b"setup", b"b.src", 10);
    assert_ne!(a, b);
}

#[test]
fn identity_differs_across_names() {
    let a = thunk_identity(b"setup", b"a.src", 10);
    let b = thunk_identity(b"teardown", b"a.src", 10);
    assert_ne!(a, b);
}

#[test]
fn identity_matches_known_digest() {
    // SHA-256 of the encoded location "1:a1:b1", rendered in hex.
    let id = thunk_identity(b"a", b"b", 1);
    let expected =
        b"__butler_4f4cf4a2fb3e5f92c8560838a1cae2c252dc4d05df85367073fda9fc165a78f4".to_vec();
    assert_eq!(id, expected);
}

#[test]
fn identity_has_prefix_and_hex_digest() {
    let id = thunk_identity(b"setup", b"src/lib.rs", 7);
    assert_eq!(&id[..9], b"__butler_");
    assert_eq!(id.len(), 9 + 64);
    assert!(id[9..].iter().all(|c| (b'0'..=b'9').contains(c) || (b'a'..=b'f').contains(c)));
}

#[test]
fn generation_without_schedule_fails() {
    let rec = parse_args(b"plugin = A").unwrap();
    let r = generate_thunk(&rec, b"setup", b"a.src", 1);
    assert_eq!(r.unwrap_err(), GenError::MissingRequiredConfig(ReservedKey::Schedule));
}

#[test]
fn generation_without_plugin_fails() {
    let rec = parse_args(b"schedule = Update").unwrap();
    let r = generate_thunk(&rec, b"setup", b"a.src", 1);
    assert_eq!(r.unwrap_err(), GenError::MissingRequiredConfig(ReservedKey::Plugin));
}

#[test]
fn generation_with_both_keys_succeeds() {
    let rec = parse_args(b"plugin = A, schedule = Update, run_if = cond").unwrap();
    let t = generate_thunk(&rec, b"setup", b"a.src", 3).unwrap();
    assert_eq!(t.plugin, b"A".to_vec());
    assert_eq!(t.schedule, b"Update".to_vec());
    assert_eq!(t.handler, b"setup".to_vec());
    assert_eq!(t.transforms, vec![(b"run_if".to_vec(), b"cond".to_vec())]);
    assert_eq!(t.identity, thunk_identity(b"setup", b"a.src", 3));
}

#[test]
fn effective_handler_without_transforms_is_the_handler() {
    let rec = parse_args(b"plugin = A, schedule = S").unwrap();
    let t = generate_thunk(&rec, b"setup", b"a.src", 1).unwrap();
    assert_eq!(effective_handler(&t), b"setup".to_vec());
}

#[test]
fn effective_handler_wraps_transforms_in_order() {
    let rec = parse_args(b"plugin = A, schedule = S, run_if = cond, after = other").unwrap();
    let t = generate_thunk(&rec, b"setup", b"a.src", 1).unwrap();
    assert_eq!(effective_handler(&t), b"setup.run_if(cond).after(other)".to_vec());
}
