use butler_core::group::{Declaration, GroupError, process_group, register_declaration};
use butler_core::parse::{ParseError, parse_args};
use butler_core::record::ReservedKey;
use butler_core::registry::{BootstrapError, ComponentInstance, Registry, bootstrap};
use butler_core::thunk::GenError;

fn decl(handler: &[u8], args: &[u8], path: &[u8], line: u64) -> Declaration {
    Declaration {
        handler: handler.to_vec(),
        args: args.to_vec(),
        path: path.to_vec(),
        line,
    }
}

#[test]
fn registered_thunks_are_retrievable_by_component() {
    let mut reg = Registry::new();
    let a = parse_args(b"plugin = PluginA, schedule = Update").unwrap();
    let b = parse_args(b"plugin = PluginB, schedule = Startup").unwrap();
    register_declaration(&mut reg, &a, b"setup", b"a.src", 10).unwrap();
    register_declaration(&mut reg, &b, b"setup", b"b.src", 5).unwrap();

    let for_a = reg.entries_for(b"PluginA");
    let for_b = reg.entries_for(b"PluginB");
    assert_eq!(for_a.len(), 1);
    assert_eq!(for_b.len(), 1);
    assert_eq!(for_a[0].schedule, b"Update".to_vec());
    assert_eq!(for_b[0].schedule, b"Startup".to_vec());
    // Two declarations sharing the name `setup` still get distinct thunks.
    assert_ne!(for_a[0].identity, for_b[0].identity);
}

#[test]
fn entries_for_unknown_component_is_empty() {
    let reg = Registry::new();
    assert!(reg.entries_for(b"Nobody").is_empty());
}

#[test]
fn registry_keeps_declaration_order_within_component() {
    let mut reg = Registry::new();
    let first = parse_args(b"plugin = P, schedule = First").unwrap();
    let second = parse_args(b"plugin = P, schedule = Second").unwrap();
    register_declaration(&mut reg, &first, b"one", b"m.src", 1).unwrap();
    register_declaration(&mut reg, &second, b"two", b"m.src", 2).unwrap();
    let ts = reg.entries_for(b"P");
    assert_eq!(ts.len(), 2);
    assert_eq!(ts[0].handler, b"one".to_vec());
    assert_eq!(ts[1].handler, b"two".to_vec());
}

#[test]
fn failed_generation_leaves_registry_untouched() {
    let mut reg = Registry::new();
    let rec = parse_args(b"schedule = Update").unwrap();
    let r = register_declaration(&mut reg, &rec, b"setup", b"a.src", 1);
    assert_eq!(r.unwrap_err(), GenError::MissingRequiredConfig(ReservedKey::Plugin));
    assert_eq!(reg.len(), 0);
}

#[test]
fn component_with_no_thunks_bootstraps_empty() {
    let reg = Registry::new();
    let mut inst = ComponentInstance::new(b"PluginA".to_vec());
    let n = bootstrap(&reg, &mut inst).unwrap();
    assert_eq!(n, 0);
    assert!(inst.handlers().is_empty());
}

#[test]
fn bootstrap_registers_in_order_with_wrapped_handlers() {
    let mut reg = Registry::new();
    let a = parse_args(b"plugin = P, schedule = Update, run_if = cond").unwrap();
    let b = parse_args(b"plugin = P, schedule = Startup").unwrap();
    let other = parse_args(b"plugin = Q, schedule = Update").unwrap();
    register_declaration(&mut reg, &a, b"first", b"m.src", 1).unwrap();
    register_declaration(&mut reg, &other, b"elsewhere", b"m.src", 2).unwrap();
    register_declaration(&mut reg, &b, b"second", b"m.src", 3).unwrap();

    let mut inst = ComponentInstance::new(b"P".to_vec());
    let n = bootstrap(&reg, &mut inst).unwrap();
    assert_eq!(n, 2);
    let hs = inst.handlers();
    assert_eq!(hs.len(), 2);
    assert_eq!(hs[0], (b"Update".to_vec(), b"first.run_if(cond)".to_vec()));
    assert_eq!(hs[1], (b"Startup".to_vec(), b"second".to_vec()));
}

#[test]
fn duplicate_registration_fails_fast_keeping_earlier_ones() {
    let mut reg = Registry::new();
    let rec = parse_args(b"plugin = P, schedule = Update").unwrap();
    register_declaration(&mut reg, &rec, b"setup", b"m.src", 1).unwrap();
    register_declaration(&mut reg, &rec, b"setup", b"m.src", 1).unwrap();
    let mut inst = ComponentInstance::new(b"P".to_vec());
    let r = bootstrap(&reg, &mut inst);
    assert_eq!(r.unwrap_err(), BootstrapError::DuplicateRegistration);
    assert_eq!(inst.handlers().len(), 1);
}

#[test]
fn add_handler_refuses_a_repeated_pair() {
    let mut inst = ComponentInstance::new(b"P".to_vec());
    inst.add_handler(b"Update".to_vec(), b"setup".to_vec()).unwrap();
    let r = inst.add_handler(b"Update".to_vec(), b"setup".to_vec());
    assert_eq!(r.unwrap_err(), BootstrapError::DuplicateRegistration);
    let r2 = inst.add_handler(b"Startup".to_vec(), b"setup".to_vec());
    assert!(r2.is_ok());
    assert_eq!(inst.handlers().len(), 2);
}

#[test]
fn group_stamps_defaults_onto_declarations() {
    let mut reg = Registry::new();
    let decls = vec![
        decl(b"hello", b"schedule = Update", b"g.src", 4),
        decl(b"goodbye", b"schedule = Shutdown, run_if = cond", b"g.src", 9),
    ];
    let n = process_group(&mut reg, b"plugin = PluginA", &decls).unwrap();
    assert_eq!(n, 2);
    let ts = reg.entries_for(b"PluginA");
    assert_eq!(ts.len(), 2);
    assert_eq!(ts[0].handler, b"hello".to_vec());
    assert_eq!(ts[0].schedule, b"Update".to_vec());
    assert!(ts[0].transforms.is_empty());
    assert_eq!(ts[1].handler, b"goodbye".to_vec());
    assert_eq!(ts[1].transforms, vec![(b"run_if".to_vec(), b"cond".to_vec())]);
}

#[test]
fn group_defaults_that_do_not_parse_fail_first() {
    let mut reg = Registry::new();
    let decls = vec![decl(b"hello", b"schedule = Update", b"g.src", 4)];
    let r = process_group(&mut reg, b"plugin == PluginA", &decls);
    assert!(matches!(r.unwrap_err(), GroupError::Defaults(_)));
    assert_eq!(reg.len(), 0);
}

#[test]
fn duplicate_schedule_in_a_declaration_generates_no_thunk() {
    let mut reg = Registry::new();
    let decls = vec![decl(b"hello", b"schedule = A, schedule = B", b"g.src", 4)];
    let r = process_group(&mut reg, b"plugin = PluginA", &decls);
    assert_eq!(
        r.unwrap_err(),
        GroupError::DeclArgs(0, ParseError::DuplicateKey(ReservedKey::Schedule))
    );
    assert_eq!(reg.len(), 0);
}

#[test]
fn unresolved_schedule_after_merging_fails_generation() {
    let mut reg = Registry::new();
    let decls = vec![decl(b"hello", b"run_if = cond", b"g.src", 4)];
    let r = process_group(&mut reg, b"plugin = PluginA", &decls);
    assert_eq!(
        r.unwrap_err(),
        GroupError::DeclConfig(0, GenError::MissingRequiredConfig(ReservedKey::Schedule))
    );
    assert_eq!(reg.len(), 0);
}

#[test]
fn group_failure_keeps_earlier_registrations() {
    let mut reg = Registry::new();
    let decls = vec![
        decl(b"good", b"schedule = Update", b"g.src", 1),
        decl(b"bad", b"schedule = ", b"g.src", 2),
        decl(b"later", b"schedule = Update", b"g.src", 3),
    ];
    let r = process_group(&mut reg, b"plugin = PluginA", &decls);
    assert_eq!(r.unwrap_err(), GroupError::DeclArgs(1, ParseError::Syntax));
    assert_eq!(reg.len(), 1);
}
