use westonite::spawn::{split_whitespace, Command, EnvVar};

fn env(k: &str, v: &str) -> EnvVar {
    EnvVar {
        key: k.to_string(),
        value: v.to_string(),
    }
}

#[test]
fn exec_string_parses_env_prefix() {
    let c = Command::from_exec_string("FOO=1 BAR=two /bin/echo hi there").unwrap();
    assert_eq!(c.program, "/bin/echo");
    assert_eq!(c.args, vec!["hi".to_string(), "there".to_string()]);
    assert_eq!(c.env, vec![env("FOO", "1"), env("BAR", "two")]);
}

#[test]
fn exec_string_path_with_equals_is_not_env() {
    let c = Command::from_exec_string("/opt/w=x/app --flag").unwrap();
    assert_eq!(c.program, "/opt/w=x/app");
    assert!(c.env.is_empty());
}

#[test]
fn empty_inputs() {
    assert!(Command::from_argv(&vec![]).is_none());
    assert!(Command::from_exec_string("   ").is_none());
    assert!(Command::from_exec_string("FOO=1").is_none());
}

#[test]
fn argv_and_builders() {
    let c = Command::from_argv(&vec!["/bin/app".to_string(), "-x".to_string()]).unwrap();
    assert_eq!(c.program, "/bin/app");
    assert_eq!(c.args, vec!["-x".to_string()]);
    let c = Command::new("/bin/sh").arg("-c").arg("true").env("MARK", "yes");
    assert_eq!(c.program, "/bin/sh");
    assert_eq!(c.args, vec!["-c".to_string(), "true".to_string()]);
    assert_eq!(c.env, vec![env("MARK", "yes")]);
}

#[test]
fn words_split_on_any_white_space() {
    assert_eq!(
        split_whitespace(" a\tb \n c  "),
        vec!["a".to_string(), "b".to_string(), "c".to_string()]
    );
    assert!(split_whitespace("").is_empty());
}

#[test]
fn assignment_needs_a_key_without_slash() {
    let c = Command::from_exec_string("=x /bin/a").unwrap();
    assert_eq!(c.program, "=x");
    assert_eq!(c.args, vec!["/bin/a".to_string()]);
    let c = Command::from_exec_string("A= /bin/a").unwrap();
    assert_eq!(c.env, vec![env("A", "")]);
}
