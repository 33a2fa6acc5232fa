use westonite::numeric::parse_usize;
use westonite::overrides::{apply_override, apply_overrides, override_value, parse_config_text, parse_override, PathStep, TomlValue};
use westonite::resolve::ConfigError;
use westonite::tracking::Tracker;

#[test]
fn acquisitions_and_releases_balance() {
    let mut t = Tracker::new();
    let (id, fresh) = t.track(0x100);
    assert!(fresh);
    let (again, fresh2) = t.track(0x100);
    assert_eq!(again, id);
    assert!(!fresh2);
    assert_eq!(t.untrack(id), None);
    assert_eq!(t.resolve(id), Some(0x100));
    assert_eq!(t.untrack(id), Some(0x100));
    assert_eq!(t.resolve(id), None);
    assert_eq!(t.untrack(id), None);
    let (next, fresh3) = t.track(0x100);
    assert!(fresh3);
    assert_ne!(next, id);
}

#[test]
fn destruction_unregisters_whatever_held_it() {
    let mut t = Tracker::new();
    let (a, _) = t.track(0x10);
    let _ = t.track(0x10);
    let (b, _) = t.track(0x20);
    assert_eq!(t.destroyed(0x10), Some(a));
    assert_eq!(t.resolve(a), None);
    assert_eq!(t.resolve(b), Some(0x20));
    assert_eq!(t.destroyed(0x10), None);
    assert_eq!(t.untrack(a), None);
}

#[test]
fn override_keys_under_a_section() {
    let o = parse_override("core.xwayland=true").unwrap();
    assert_eq!(o.root, "core");
    assert_eq!(o.steps, vec![PathStep::Key("xwayland".into())]);
    assert_eq!(o.value, "true");
    let o = parse_override("keyboard.repeat-rate=40").unwrap();
    assert_eq!(o.steps, vec![PathStep::Key("repeat-rate".into())]);
    assert_eq!(o.value, "40");
    let o = parse_override("shell.background-color=0xff336699").unwrap();
    assert_eq!(o.value, "0xff336699");
}

fn entry<'a>(t: &'a [(String, TomlValue)], k: &str) -> &'a TomlValue {
    &t.iter().find(|(name, _)| name == k).unwrap().1
}

fn table(v: &TomlValue) -> &[(String, TomlValue)] {
    match v {
        TomlValue::Table(t) => t,
        other => panic!("not a table: {other:?}"),
    }
}

#[test]
fn scalar_and_typed_values() {
    let mut root = Vec::new();
    apply_override(&mut root, "core.xwayland=true").unwrap();
    apply_override(&mut root, "core.backend=headless").unwrap();
    apply_override(&mut root, "keyboard.repeat-rate=40").unwrap();
    let core = table(entry(&root, "core"));
    assert_eq!(entry(core, "xwayland"), &TomlValue::Boolean(true));
    assert_eq!(entry(core, "backend"), &TomlValue::String("headless".into()));
    assert_eq!(entry(table(entry(&root, "keyboard")), "repeat-rate"), &TomlValue::Integer(40));
}

#[test]
fn array_of_tables_index() {
    let mut root = Vec::new();
    apply_override(&mut root, "output.0.mode=off").unwrap();
    apply_override(&mut root, "output.1.name=HDMI-A-1").unwrap();
    let outs = match entry(&root, "output") {
        TomlValue::Array(a) => a,
        other => panic!("not an array: {other:?}"),
    };
    assert_eq!(entry(table(&outs[0]), "mode"), &TomlValue::String("off".into()));
    assert_eq!(entry(table(&outs[1]), "name"), &TomlValue::String("HDMI-A-1".into()));
}

#[test]
fn malformed_specs_are_errors() {
    let mut root = Vec::new();
    assert!(apply_override(&mut root, "no-equals").is_err());
    assert!(apply_override(&mut root, "onlyroot=1").is_err());
    assert!(apply_override(&mut root, "a..b=1").is_err());
}

#[test]
fn override_values_are_typed_as_toml() {
    assert_eq!(override_value("40"), TomlValue::Integer(40));
    assert_eq!(override_value("true"), TomlValue::Boolean(true));
    assert_eq!(override_value("1.5"), TomlValue::Float(1.5f64.to_bits()));
    assert_eq!(override_value("\"quoted\""), TomlValue::String("quoted".into()));
    assert_eq!(
        override_value("[1, 2]"),
        TomlValue::Array(vec![TomlValue::Integer(1), TomlValue::Integer(2)])
    );
    assert_eq!(override_value("0xff336699"), TomlValue::Integer(0xff336699));
    assert_eq!(override_value("HDMI-A-1"), TomlValue::String("HDMI-A-1".into()));
    assert_eq!(
        override_value("1979-05-27T07:32:00Z"),
        TomlValue::Datetime("1979-05-27T07:32:00Z".into())
    );
}

#[test]
fn overrides_rewrite_pad_and_replace() {
    let mut root = Vec::new();
    apply_override(&mut root, "output.2.mode=off").unwrap();
    let outs = match entry(&root, "output") {
        TomlValue::Array(a) => a,
        other => panic!("not an array: {other:?}"),
    };
    assert_eq!(outs.len(), 3);
    assert_eq!(outs[0], TomlValue::Table(vec![]));
    assert_eq!(outs[1], TomlValue::Table(vec![]));
    apply_override(&mut root, "core.xwayland=true").unwrap();
    apply_override(&mut root, "core.xwayland=false").unwrap();
    assert_eq!(table(entry(&root, "core")).len(), 1);
    assert_eq!(entry(table(entry(&root, "core")), "xwayland"), &TomlValue::Boolean(false));
    apply_override(&mut root, "core.xwayland.deep=1").unwrap();
    assert_eq!(
        entry(table(entry(&root, "core")), "xwayland"),
        &TomlValue::Table(vec![("deep".to_string(), TomlValue::Integer(1))])
    );
    let mut root = Vec::new();
    assert!(apply_override(&mut root, "onlyroot=1").is_err());
    assert_eq!(root, vec![("onlyroot".to_string(), TomlValue::Table(vec![]))]);
    let mut root = Vec::new();
    assert!(apply_override(&mut root, "a..b=1").is_err());
    assert!(root.is_empty());
}

#[test]
fn config_text_parses_to_a_tree() {
    let t = parse_config_text("w.toml", "[core]\nbackend = 'headless'\n").unwrap();
    assert_eq!(
        t,
        vec![("core".to_string(), TomlValue::Table(vec![("backend".to_string(), TomlValue::String("headless".into()))]))]
    );
    match parse_config_text("w.toml", "[core\n") {
        Err(ConfigError::Invalid(m)) => assert!(m.starts_with("config file 'w.toml': "), "{m}"),
        other => panic!("expected an error: {other:?}"),
    }
}

#[test]
fn override_paths_split_into_steps() {
    let o = parse_override("output.0.mode=off").unwrap();
    assert_eq!(o.root, "output");
    assert_eq!(o.steps, vec![PathStep::Index(0), PathStep::Key("mode".into())]);
    assert_eq!(o.value, "off");
    let o = parse_override("output.1.name=HDMI-A-1").unwrap();
    assert_eq!(o.root, "output");
    assert_eq!(o.steps, vec![PathStep::Index(1), PathStep::Key("name".into())]);
    assert_eq!(o.value, "HDMI-A-1");
    let o = parse_override("output.1.name=HDMI-A-1=x").unwrap();
    assert_eq!(o.value, "HDMI-A-1=x");
}

#[test]
fn malformed_override_messages() {
    assert_eq!(
        parse_override("no-equals"),
        Err("override 'no-equals': expected KEY.PATH=VALUE".to_string())
    );
    assert_eq!(
        parse_override("onlyroot=1"),
        Err("override 'onlyroot=1': path must have at least two segments".to_string())
    );
    assert_eq!(
        parse_override("a..b=1"),
        Err("override 'a..b=1': empty key path segment".to_string())
    );
    assert!(parse_override("=1").is_err());
}

#[test]
fn indices_read_as_usize() {
    assert_eq!(parse_usize("0"), Some(0));
    assert_eq!(parse_usize("+7"), Some(7));
    assert_eq!(parse_usize("-7"), None);
    assert_eq!(parse_usize("18446744073709551615"), Some(usize::MAX));
    assert_eq!(parse_usize("18446744073709551616"), None);
    assert_eq!(parse_usize("1x"), None);
    assert_eq!(parse_usize(""), None);
}

#[test]
fn overrides_apply_in_order_and_stop_at_the_first_bad_one() {
    let mut root = Vec::new();
    let specs = vec!["core.renderer=pixman".to_string(), "core.renderer=noop".to_string()];
    assert_eq!(apply_overrides(&mut root, &specs), Ok(()));
    assert_eq!(entry(table(entry(&root, "core")), "renderer"), &TomlValue::String("noop".into()));
    let mut root = Vec::new();
    let specs = vec!["core.xwayland=true".to_string(), "bad".to_string(), "core.backend=vnc".to_string()];
    assert_eq!(
        apply_overrides(&mut root, &specs),
        Err(ConfigError::Invalid("override 'bad': expected KEY.PATH=VALUE".to_string()))
    );
    assert_eq!(
        root,
        vec![("core".to_string(), TomlValue::Table(vec![("xwayland".to_string(), TomlValue::Boolean(true))]))]
    );
}

#[test]
fn file_value_is_overridden_in_place() {
    let mut root = parse_config_text("w.toml", "[core]\nbackend = 'headless'\nrenderer = 'pixman'\n").unwrap();
    apply_override(&mut root, "core.renderer=noop").unwrap();
    let core = table(entry(&root, "core"));
    assert_eq!(core.len(), 2);
    assert_eq!(entry(core, "renderer"), &TomlValue::String("noop".into()));
    assert_eq!(entry(core, "backend"), &TomlValue::String("headless".into()));
}
