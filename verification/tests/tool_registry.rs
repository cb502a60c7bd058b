use harness_infra::tools::{
    escape_json, expand_home, json_object_value, parse_stored_tool_args, register_needs_command, scan_plan,
    scan_tool_status, tool_args_json, tool_matches_filters, ScanProbe, ToolArgSpec, ToolCheckResult,
};

fn arg(name: &str, arg_type: &str, required: bool, help: Option<&str>) -> ToolArgSpec {
    ToolArgSpec { name: name.to_owned(), arg_type: arg_type.to_owned(), required, help: help.map(str::to_owned) }
}

#[test]
fn json_strings_escape_quotes_backslashes_and_newlines() {
    assert_eq!(escape_json("a\"b\\c\nd"), "a\\\"b\\\\c\\nd");
    assert_eq!(escape_json("plain"), "plain");
}

#[test]
fn tool_arguments_are_stored_as_json() {
    assert_eq!(tool_args_json(&[]), None);
    let args = vec![arg("path", "string", true, Some("where")), arg("n", "int", false, None)];
    assert_eq!(
        tool_args_json(&args),
        Some(r#"[{"name":"path","type":"string","required":true,"help":"where"},{"name":"n","type":"int","required":false,"help":""}]"#.to_owned())
    );
}

#[test]
fn object_values_are_read_from_flat_json() {
    let raw = r#""name":"path","type":"string","required":true,"help":"where""#;
    assert_eq!(json_object_value(raw, "name"), Some("path".to_owned()));
    assert_eq!(json_object_value(raw, "required"), Some("true".to_owned()));
    assert_eq!(json_object_value(raw, "missing"), None);
    assert_eq!(json_object_value(r#""n": 12 ,"x":1"#, "n"), Some("12".to_owned()));
    assert_eq!(json_object_value(r#""n":"open"#, "n"), None);
}

#[test]
fn stored_arguments_read_back() {
    let args = vec![arg("path", "string", true, Some("where")), arg("n", "int", false, None)];
    let stored = tool_args_json(&args).unwrap();
    assert_eq!(parse_stored_tool_args(Some(&stored)), args);
    assert_eq!(parse_stored_tool_args(None), Vec::new());
    assert_eq!(parse_stored_tool_args(Some("[]")), Vec::new());
    assert_eq!(
        parse_stored_tool_args(Some(r#"[{"name":"x"}]"#)),
        vec![arg("x", "string", false, None)]
    );
}

#[test]
fn scans_probe_by_kind() {
    assert_eq!(scan_plan("cli", "git status", None), ScanProbe::Command("git status".to_owned()));
    assert_eq!(scan_plan("mcp", "x", Some("  ~/mcp.json ")), ScanProbe::Target("~/mcp.json".to_owned()));
    assert_eq!(
        scan_plan("skill", "x", Some("  ")),
        ScanProbe::Unknown("no scan target; agent confirms availability".to_owned())
    );
    assert_eq!(scan_plan("http", "x", Some("https://a")), ScanProbe::HttpTarget("https://a".to_owned()));
    assert_eq!(scan_plan("http", "x", None), ScanProbe::Unknown("no scan target".to_owned()));
    assert_eq!(scan_plan("other", "x", None), ScanProbe::Unknown(String::new()));
    assert_eq!(scan_tool_status(ScanProbe::Command("git".to_owned()), true), ("present".to_owned(), "git".to_owned()));
    assert_eq!(scan_tool_status(ScanProbe::Target("t".to_owned()), false), ("missing".to_owned(), "t".to_owned()));
    assert_eq!(scan_tool_status(ScanProbe::Unknown("d".to_owned()), true), ("unknown".to_owned(), "d".to_owned()));
    let r = ToolCheckResult { name: "n".into(), kind: "cli".into(), capability: None, status: "present".into(), detail: "git".into() };
    assert_eq!(r.clone(), r);
}

#[test]
fn home_is_expanded_only_for_tilde_paths() {
    assert_eq!(expand_home("~/x/y", Some("/home/me")), "/home/me/x/y");
    assert_eq!(expand_home("~x", Some("/home/me")), "~x");
    assert_eq!(expand_home("~/x", None), "~/x");
}

#[test]
fn registry_filters_compare_tokens() {
    assert!(register_needs_command("cli", false));
    assert!(!register_needs_command("cli", true));
    assert!(!register_needs_command("mcp", false));
    assert!(tool_matches_filters("Code Review", Some("lint"), Some("code-review"), None));
    assert!(!tool_matches_filters("Code Review", None, None, Some("lint")));
    assert!(tool_matches_filters("x", Some("Static Lint"), None, Some("static_lint")));
}

#[test]
fn plain_arguments_survive_storage() {
    let args = vec![
        arg("path", "string", true, Some("where to look: {a}, [b]")),
        arg("type", "name", false, None),
        arg("required", "bool", true, Some("help, with commas")),
    ];
    let stored = tool_args_json(&args);
    assert_eq!(parse_stored_tool_args(stored.as_deref()), args);
    assert_eq!(parse_stored_tool_args(tool_args_json(&[]).as_deref()), Vec::new());
}
