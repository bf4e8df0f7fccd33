use std::collections::HashMap;
use urocket_http_stage::procenv::{placeholder_text, CmdDefinition, ProcEnv};

#[test]
fn execute_cmd() {
    let cmd = CmdDefinition::from(vec!["bin/sh", "echo hello world {{string}}"]);
    let mut placeholders = HashMap::new();
    placeholders.insert("string", "hello");
    let v = cmd.cmd_to_arr_replacements(&placeholders);
    assert_eq!("echo hello world hello", &v[1]);
    assert_eq!("bin/sh", &v[0]);
}

#[test]
fn proc_env() {
    let penv = ProcEnv::new("", vec![], "cmd {{jsonpayload}}", "");
    let mut placeholders = HashMap::new();
    placeholders.insert("jsonpayload", "123");
    let v = penv.cmd_to_arr_replacements(&placeholders);
    let str = v.join(" ");
    assert_eq!("cmd 123", &str);
}

#[test]
fn proc_env_var() {
    let env = vec!["TTASK={{jsonpayload}}".to_string()];
    let penv = ProcEnv::new("", env, "cmd {{jsonpayload}}", "");
    let mut placeholders = HashMap::new();
    placeholders.insert("jsonpayload", "123");
    let cmdv = penv.cmd_to_arr_replacements(&placeholders);
    assert_eq!(cmdv, vec!["cmd".to_string(), "123".to_string()]);
    let v = penv.get_env_replacements(&placeholders);
    let v0 = &v[0];
    assert_eq!(v0.0, "TTASK");
    assert_eq!(v0.1, "123");
}

#[test]
fn render_echo_payload() {
    let penv = ProcEnv::new("", vec!["X={{payload}}".to_string()], "echo {{payload}}", "");
    let mut placeholders = HashMap::new();
    placeholders.insert("payload", "123");
    assert_eq!(
        penv.cmd_to_arr_replacements(&placeholders),
        vec!["echo".to_string(), "123".to_string()]
    );
    let env = penv.get_env_replacements(&placeholders);
    assert_eq!(env.len(), 1);
    assert_eq!(env[0].0, "X");
    assert_eq!(env[0].1, "123".to_string());
}

#[test]
fn render_repeated_and_missing_placeholders() {
    let cmd = CmdDefinition::from(vec!["{{a}}-{{a}}", "{{b}}", "plain"]);
    let mut placeholders = HashMap::new();
    placeholders.insert("a", "x");
    let v = cmd.cmd_to_arr_replacements(&placeholders);
    assert_eq!(v, vec!["x-x".to_string(), "{{b}}".to_string(), "plain".to_string()]);
}

#[test]
fn split_keeps_empty_pieces() {
    let cmd = CmdDefinition::from("a  b\tc");
    let v = cmd.cmd_to_arr_replacements(&HashMap::new());
    assert_eq!(v, vec!["a".to_string(), "".to_string(), "b".to_string(), "c".to_string()]);
}

#[test]
fn split_empty_line_gives_one_empty_token() {
    let cmd = CmdDefinition::default();
    let v = cmd.cmd_to_arr_replacements(&HashMap::new());
    assert_eq!(v, vec!["".to_string()]);
}

#[test]
fn new_v_keeps_arguments_whole() {
    let penv = ProcEnv::new_v("/tmp", vec!["MYENV=provolone"], &["/bin/sh", "-c", "echo {{jsonpayload}} $REQUEST_ID"], "utf8");
    assert_eq!(penv.wd, "/tmp");
    assert_eq!(penv.timeout, Some(1000));
    assert_eq!(penv.channel, "cmdline");
    let mut placeholders = HashMap::new();
    placeholders.insert("jsonpayload", "{\"a\":1}");
    let v = penv.cmd_to_arr_replacements(&placeholders);
    assert_eq!(v, vec!["/bin/sh".to_string(), "-c".to_string(), "echo {\"a\":1} $REQUEST_ID".to_string()]);
    assert_eq!(penv.get_env(), vec![("MYENV", "provolone")]);
}

#[test]
fn get_env_splits_at_first_equals() {
    let penv = ProcEnv::new("", vec!["A=b=c".to_string(), "NOEQ".to_string(), "".to_string(), "E=".to_string()], "x", "");
    assert_eq!(penv.get_env(), vec![("A", "b=c"), ("", "OEQ"), ("", ""), ("E", "")]);
}

#[test]
fn default_template_is_empty() {
    let penv = ProcEnv::default();
    assert_eq!(penv.timeout, None);
    assert!(penv.env.is_empty());
    assert!(matches!(penv.cmd, CmdDefinition::ToSplit(ref s) if s.is_empty()));
}

#[test]
fn placeholder_without_value_is_written_back() {
    assert_eq!(placeholder_text(Some("v"), "name"), "v");
    assert_eq!(placeholder_text(None, "name"), "{{name}}");
    assert_eq!(placeholder_text(Some(""), "name"), "");
}
