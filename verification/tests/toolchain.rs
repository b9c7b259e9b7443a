use paths::toolchain::{
    binary_candidates, cargo_home_path, cargo_proxy_path, command_env, env_var_name, invoke_next,
    search_path_candidates, EnvChange, InvokeStep,
};
use paths::{AbsPathBuf, Lookup, Tool};

#[test]
fn tool_names() {
    assert_eq!(Tool::Cargo.name(), "cargo");
    assert_eq!(Tool::Rustc.name(), "rustc");
    assert_eq!(Tool::Rustup.name(), "rustup");
    assert_eq!(Tool::Rustfmt.name(), "rustfmt");
}

#[test]
fn lookup_orders() {
    assert_eq!(
        Tool::prefer_proxy_lookups(),
        vec![Lookup::CargoProxy, Lookup::EnvVar, Lookup::SearchPath]
    );
    assert_eq!(Tool::path_lookups(), vec![Lookup::EnvVar, Lookup::SearchPath, Lookup::CargoProxy]);
}

#[test]
fn env_var_names_are_upper_case() {
    assert_eq!(env_var_name("cargo"), "CARGO");
    assert_eq!(env_var_name("rustfmt"), "RUSTFMT");
    assert_eq!(env_var_name("a-b_9é"), "A-B_9é");
}

#[test]
fn cargo_proxy_is_bin_under_cargo_home() {
    let home = AbsPathBuf::try_from("/home/u/.cargo".to_string()).unwrap();
    assert_eq!(cargo_proxy_path(home, "cargo").as_str(), "/home/u/.cargo/bin/cargo");
}

#[test]
fn cargo_home_prefers_the_variable() {
    assert_eq!(
        cargo_home_path(Some("/opt/cargo".to_string()), Some("/home/u".to_string())),
        Some("/opt/cargo".to_string())
    );
    assert_eq!(cargo_home_path(None, Some("/home/u".to_string())), Some("/home/u/.cargo".to_string()));
    assert_eq!(cargo_home_path(None, None), None);
}

#[test]
fn binary_candidates_with_and_without_extension() {
    let p = AbsPathBuf::try_from("/usr/bin/cargo".to_string()).unwrap();
    let c = binary_candidates(p, "");
    assert_eq!(c.len(), 1);
    assert_eq!(c[0].as_str(), "/usr/bin/cargo");

    let p = AbsPathBuf::try_from("/usr/bin/cargo".to_string()).unwrap();
    let c = binary_candidates(p, "exe");
    assert_eq!(c.len(), 2);
    assert_eq!(c[0].as_str(), "/usr/bin/cargo");
    assert_eq!(c[1].as_str(), "/usr/bin/cargo.exe");
}

#[test]
fn invoke_stops_at_the_first_find() {
    let order = Tool::path_lookups();
    assert!(matches!(invoke_next(&order, 0, None), InvokeStep::Try(Lookup::EnvVar)));
    assert!(matches!(invoke_next(&order, 2, None), InvokeStep::Try(Lookup::CargoProxy)));
    assert!(matches!(invoke_next(&order, 3, None), InvokeStep::BareName));
    let found = AbsPathBuf::try_from("/bin/cargo".to_string()).unwrap();
    match invoke_next(&order, 1, Some(found)) {
        InvokeStep::Found(p) => assert_eq!(p.as_str(), "/bin/cargo"),
        _ => panic!("expected the path that was found"),
    }
}

#[test]
fn command_env_sets_rustup_first_then_the_extra_env() {
    let extra = vec![("A".to_string(), Some("1".to_string())), ("B".to_string(), None)];
    let changes = command_env(&extra);
    assert_eq!(changes.len(), 3);
    assert!(matches!(&changes[0], EnvChange::SetVar(k, v) if k == "RUSTUP_AUTO_INSTALL" && v == "0"));
    assert!(matches!(&changes[1], EnvChange::SetVar(k, v) if k == "A" && v == "1"));
    assert!(matches!(&changes[2], EnvChange::RemoveVar(k) if k == "B"));
    assert_eq!(command_env(&Vec::new()).len(), 1);
}

#[test]
fn search_path_candidates_join_each_directory() {
    let dirs = vec![
        AbsPathBuf::try_from("/usr/bin".to_string()).unwrap(),
        AbsPathBuf::try_from("/opt/x/../bin/".to_string()).unwrap(),
    ];
    let c = search_path_candidates(&dirs, "cargo");
    assert_eq!(c.len(), 2);
    assert_eq!(c[0].as_str(), "/usr/bin/cargo");
    assert_eq!(c[1].as_str(), "/opt/bin/cargo");
    assert!(search_path_candidates(&Vec::new(), "cargo").is_empty());
}
