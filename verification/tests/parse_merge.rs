use butler_core::parse::{ParseError, parse_args};
use butler_core::record::{ConfigRecord, ReservedKey, render_args};

#[test]
fn empty_input_parses_to_empty_record() {
    let rec = parse_args(b"").unwrap();
    assert_eq!(rec.plugin, None);
    assert_eq!(rec.schedule, None);
    assert!(rec.transforms.is_empty());
}

#[test]
fn blank_input_parses_to_empty_record() {
    let rec = parse_args(b"   \t ").unwrap();
    assert_eq!(rec.plugin, None);
    assert_eq!(rec.schedule, None);
    assert!(rec.transforms.is_empty());
}

#[test]
fn full_argument_list_parses() {
    let rec = parse_args(b"schedule = Update, plugin = MyPlugin, run_if = always_true").unwrap();
    assert_eq!(rec.schedule, Some(b"Update".to_vec()));
    assert_eq!(rec.plugin, Some(b"MyPlugin".to_vec()));
    assert_eq!(rec.transforms, vec![(b"run_if".to_vec(), b"always_true".to_vec())]);
}

#[test]
fn path_reference_value_is_accepted() {
    let rec = parse_args(b"plugin = crate::plugins::MyPlugin").unwrap();
    assert_eq!(rec.plugin, Some(b"crate::plugins::MyPlugin".to_vec()));
}

#[test]
fn trailing_comma_is_tolerated() {
    let rec = parse_args(b"after = cleanup,").unwrap();
    assert_eq!(rec.transforms, vec![(b"after".to_vec(), b"cleanup".to_vec())]);
}

#[test]
fn surrounding_blanks_are_trimmed() {
    let rec = parse_args(b"  plugin   =   A  ").unwrap();
    assert_eq!(rec.plugin, Some(b"A".to_vec()));
}

#[test]
fn transforms_keep_declaration_order() {
    let rec = parse_args(b"run_if = a, after = b, before = c").unwrap();
    assert_eq!(
        rec.transforms,
        vec![
            (b"run_if".to_vec(), b"a".to_vec()),
            (b"after".to_vec(), b"b".to_vec()),
            (b"before".to_vec(), b"c".to_vec()),
        ]
    );
}

#[test]
fn duplicate_schedule_fails_naming_schedule() {
    let r = parse_args(b"schedule = Update, schedule = Startup");
    assert_eq!(r.unwrap_err(), ParseError::DuplicateKey(ReservedKey::Schedule));
}

#[test]
fn duplicate_plugin_fails_naming_plugin() {
    let r = parse_args(b"plugin = A, plugin = B");
    assert_eq!(r.unwrap_err(), ParseError::DuplicateKey(ReservedKey::Plugin));
}

#[test]
fn non_reference_schedule_value_is_invalid() {
    let r = parse_args(b"schedule = (Update)");
    assert_eq!(r.unwrap_err(), ParseError::InvalidArgument(ReservedKey::Schedule));
}

#[test]
fn numeric_plugin_value_is_invalid() {
    let r = parse_args(b"plugin = 123");
    assert_eq!(r.unwrap_err(), ParseError::InvalidArgument(ReservedKey::Plugin));
}

#[test]
fn dangling_path_separator_is_invalid() {
    let r = parse_args(b"plugin = A::");
    assert_eq!(r.unwrap_err(), ParseError::InvalidArgument(ReservedKey::Plugin));
}

#[test]
fn missing_equals_is_a_syntax_error() {
    assert_eq!(parse_args(b"schedule").unwrap_err(), ParseError::Syntax);
}

#[test]
fn empty_argument_is_a_syntax_error() {
    assert_eq!(parse_args(b", run_if = a").unwrap_err(), ParseError::Syntax);
    assert_eq!(parse_args(b"run_if = a,, after = b").unwrap_err(), ParseError::Syntax);
}

#[test]
fn empty_value_is_a_syntax_error() {
    assert_eq!(parse_args(b"run_if = ").unwrap_err(), ParseError::Syntax);
}

#[test]
fn non_identifier_name_is_a_syntax_error() {
    assert_eq!(parse_args(b"1bad = x").unwrap_err(), ParseError::Syntax);
}

#[test]
fn missing_separator_between_pairs_is_a_syntax_error() {
    assert_eq!(parse_args(b"x = 1 y = 2").unwrap_err(), ParseError::Syntax);
    assert_eq!(parse_args(b"schedule = Update plugin = P").unwrap_err(), ParseError::Syntax);
}

#[test]
fn equals_inside_nesting_stays_one_value() {
    let rec = parse_args(b"run_if = cond(a = b)").unwrap();
    assert_eq!(rec.transforms, vec![(b"run_if".to_vec(), b"cond(a = b)".to_vec())]);
}

#[test]
fn newlines_count_as_blanks() {
    let rec = parse_args(b"plugin\n= P,\r\nschedule = S\n").unwrap();
    assert_eq!(rec.plugin, Some(b"P".to_vec()));
    assert_eq!(rec.schedule, Some(b"S".to_vec()));
}

#[test]
fn comma_inside_call_does_not_split() {
    let rec = parse_args(b"run_if = cond(a, b)").unwrap();
    assert_eq!(rec.transforms, vec![(b"run_if".to_vec(), b"cond(a, b)".to_vec())]);
}

#[test]
fn unbalanced_bracket_is_a_syntax_error() {
    assert_eq!(parse_args(b"run_if = cond(a").unwrap_err(), ParseError::Syntax);
    assert_eq!(parse_args(b"run_if = a)").unwrap_err(), ParseError::Syntax);
}

#[test]
fn merge_concatenates_transforms_outer_first() {
    let outer = parse_args(b"run_if = a, after = b").unwrap();
    let inner = parse_args(b"before = c").unwrap();
    let merged = outer.splat(&inner);
    assert_eq!(
        merged.transforms,
        vec![
            (b"run_if".to_vec(), b"a".to_vec()),
            (b"after".to_vec(), b"b".to_vec()),
            (b"before".to_vec(), b"c".to_vec()),
        ]
    );
}

#[test]
fn merge_inner_scalar_wins_when_set() {
    let outer = parse_args(b"plugin = Outer").unwrap();
    let inner = parse_args(b"plugin = Inner").unwrap();
    let merged = outer.splat(&inner);
    assert_eq!(merged.plugin, Some(b"Inner".to_vec()));
}

#[test]
fn merge_falls_back_to_outer_scalar_when_inner_unset() {
    let outer = parse_args(b"plugin = Outer").unwrap();
    let inner = parse_args(b"schedule = Update").unwrap();
    let merged = outer.splat(&inner);
    assert_eq!(merged.plugin, Some(b"Outer".to_vec()));
    assert_eq!(merged.schedule, Some(b"Update".to_vec()));
}

#[test]
fn group_defaults_fill_inner_record() {
    let outer = parse_args(b"plugin = PluginA").unwrap();
    let inner = parse_args(b"schedule = Update").unwrap();
    let merged = outer.splat(&inner);
    assert_eq!(merged.plugin, Some(b"PluginA".to_vec()));
    assert_eq!(merged.schedule, Some(b"Update".to_vec()));
    assert!(merged.transforms.is_empty());
}

#[test]
fn inner_overrides_scalar_outer_transform_kept() {
    let outer = parse_args(b"plugin = PluginA, run_if = always_true").unwrap();
    let inner = parse_args(b"plugin = PluginB, schedule = Startup").unwrap();
    let merged = outer.splat(&inner);
    assert_eq!(merged.plugin, Some(b"PluginB".to_vec()));
    assert_eq!(merged.schedule, Some(b"Startup".to_vec()));
    assert_eq!(merged.transforms, vec![(b"run_if".to_vec(), b"always_true".to_vec())]);
}

#[test]
fn merge_is_associative_pairwise() {
    let a = parse_args(b"plugin = A, run_if = x").unwrap();
    let b = parse_args(b"schedule = S, after = y").unwrap();
    let c = parse_args(b"plugin = C, before = z").unwrap();
    let left = a.splat(&b).splat(&c);
    let right = a.splat(&b.splat(&c));
    assert_eq!(left.plugin, right.plugin);
    assert_eq!(left.schedule, right.schedule);
    assert_eq!(left.transforms, right.transforms);
}

#[test]
fn render_writes_scalars_then_transforms() {
    let rec = parse_args(b"run_if = c, plugin = A, schedule = B").unwrap();
    let out = render_args(&rec);
    assert_eq!(out, b"plugin = A, schedule = B, run_if = c, ".to_vec());
}

#[test]
fn render_of_empty_record_is_empty() {
    let rec = ConfigRecord::new();
    assert_eq!(render_args(&rec), Vec::<u8>::new());
}

#[test]
fn rendered_arguments_parse_back() {
    let rec = parse_args(b"plugin = A, schedule = B, run_if = always_true").unwrap();
    let again = parse_args(&render_args(&rec)).unwrap();
    assert_eq!(again.plugin, rec.plugin);
    assert_eq!(again.schedule, rec.schedule);
    assert_eq!(again.transforms, rec.transforms);
}
