use oneway::cli::{
    cargo_toml, combine_source, contains_text, format_error, is_up_to_date, location_header, looks_like_version_tag,
    normalize_tag, parse_command, parse_upgrade_args, release_tag_from_effective_url, release_tag_from_response,
    sanitize_crate_name, shell_escape, strip_ow_extension, tag_from_url, upgrade_check_message, upgrade_pipeline,
    Command, UpgradeAction,
};
use oneway::error::{OnewayError, Span};
use oneway::loader::CargoDep;

fn strings(v: &[&str]) -> Vec<String> {
    v.iter().map(|s| s.to_string()).collect()
}

#[test]
fn commands_by_name() {
    assert_eq!(parse_command("run"), Some(Command::Run));
    assert_eq!(parse_command("update"), Some(Command::Upgrade));
    assert_eq!(parse_command("-V"), Some(Command::Version));
    assert_eq!(parse_command("--help"), Some(Command::Help));
    assert_eq!(parse_command("frobnicate"), None);
}

#[test]
fn combines_preludes_before_body() {
    assert_eq!(combine_source(&Vec::new(), "fn main() {}"), "fn main() {}");
    let preludes = strings(&["use a;", "use b;\n"]);
    assert_eq!(combine_source(&preludes, "BODY"), "use a;\n\nuse b;\n\nBODY");
}

#[test]
fn strips_ow_extension() {
    assert_eq!(strip_ow_extension("examples/hello.ow"), "examples/hello");
    assert_eq!(strip_ow_extension("hello.rs"), "hello.rs");
    assert_eq!(strip_ow_extension(".ow"), "");
}

#[test]
fn sanitizes_crate_names() {
    assert_eq!(sanitize_crate_name("my-app.v2"), "my_app_v2");
    assert_eq!(sanitize_crate_name("9lives"), "_9lives");
    assert_eq!(sanitize_crate_name(""), "oneway_build");
    assert_eq!(sanitize_crate_name("héllo"), "héllo");
}

#[test]
fn version_tags() {
    assert_eq!(normalize_tag("v0.2.0"), "0.2.0");
    assert_eq!(normalize_tag("0.2.0"), "0.2.0");
    assert!(looks_like_version_tag("v0.2.0"));
    assert!(looks_like_version_tag("1.0.0-beta1"));
    assert!(!looks_like_version_tag("latest"));
    assert!(!looks_like_version_tag("v"));
    assert!(!looks_like_version_tag("v1.0 "));
    assert!(is_up_to_date("v0.2.0", "0.2.0"));
    assert!(!is_up_to_date("v0.3.0", "v0.2.0"));
}

#[test]
fn tags_from_urls() {
    assert_eq!(tag_from_url("https://github.com/almaju/oneway/releases/tag/v0.3.1"), "v0.3.1");
    assert_eq!(tag_from_url("no-slash"), "no-slash");
    assert_eq!(tag_from_url("ends/"), "");
}

#[test]
fn quotes_shell_words() {
    assert_eq!(shell_escape("v0.2.0"), "v0.2.0");
    assert_eq!(shell_escape("a b"), "'a b'");
    assert_eq!(shell_escape("it's"), "'it'\\''s'");
}

#[test]
fn reads_upgrade_arguments() {
    assert!(matches!(parse_upgrade_args(&Vec::new()), UpgradeAction::Install(None)));
    assert!(matches!(parse_upgrade_args(&strings(&["v0.2.0"])), UpgradeAction::Install(Some(v)) if v == "v0.2.0"));
    assert!(matches!(parse_upgrade_args(&strings(&["v0.2.0", "-c"])), UpgradeAction::Check));
    assert!(matches!(parse_upgrade_args(&strings(&["-x", "--help"])), UpgradeAction::UnknownFlag(f) if f == "-x"));
    assert!(matches!(parse_upgrade_args(&strings(&["--check", "-h"])), UpgradeAction::Help));
    assert!(matches!(parse_upgrade_args(&strings(&["a", "b"])), UpgradeAction::TooManyVersions));
}

#[test]
fn builds_install_pipeline() {
    assert_eq!(
        upgrade_pipeline(true, None),
        "curl -fsSL https://raw.githubusercontent.com/almaju/oneway/main/install.sh | sh"
    );
    assert_eq!(
        upgrade_pipeline(false, Some("v 1")),
        "wget -qO- https://raw.githubusercontent.com/almaju/oneway/main/install.sh | sh -s -- 'v 1'"
    );
}

#[test]
fn reports_check_results() {
    assert_eq!(upgrade_check_message("v0.2.0", "v0.2.0"), "oneway is up to date (v0.2.0)");
    assert_eq!(
        upgrade_check_message("v0.3.0", "v0.2.0"),
        "A new version is available: v0.3.0 (current: v0.2.0)\nRun `oneway upgrade` to update."
    );
}

#[test]
fn finds_release_tags() {
    assert_eq!(
        release_tag_from_effective_url("  https://github.com/almaju/oneway/releases/tag/v0.4.0\n").unwrap(),
        "v0.4.0"
    );
    assert_eq!(
        release_tag_from_effective_url("https://github.com/almaju/oneway/releases").unwrap_err(),
        "no published releases found"
    );
    let response = "HTTP/1.1 302 Found\r\n  Location: https://x/releases/tag/v0.1.0 [following]\r\nLocation: https://x/releases/tag/v0.2.0\nHTTP/1.1 200 OK\n";
    assert_eq!(location_header(response).unwrap(), "https://x/releases/tag/v0.2.0");
    assert_eq!(release_tag_from_response(response).unwrap(), "v0.2.0");
    assert_eq!(release_tag_from_response("HTTP/1.1 404\n").unwrap_err(), "no published releases found");
}

#[test]
fn writes_cargo_manifest() {
    let deps = vec![
        CargoDep { name: "reqwest".to_string(), version: "0.12".to_string(), features: Vec::new() },
        CargoDep { name: "serde".to_string(), version: "1".to_string(), features: strings(&["derive", "rc"]) },
        CargoDep { name: "reqwest".to_string(), version: "0.11".to_string(), features: Vec::new() },
    ];
    assert_eq!(
        cargo_toml("my-app", &deps, "#[tokio::main]\nasync fn main() {}"),
        "[package]\nname = \"my_app\"\nedition = \"2021\"\nversion = \"0.0.0\"\n\n[dependencies]\n\
         reqwest = { version = \"0.12\" }\n\
         serde = { version = \"1\", features = [\"derive\", \"rc\"] }\n\
         tokio = { version = \"1\", features = [\"full\"] }\n"
    );
    assert_eq!(
        cargo_toml("x", &Vec::new(), "fn main() {}"),
        "[package]\nname = \"x\"\nedition = \"2021\"\nversion = \"0.0.0\"\n\n[dependencies]\n"
    );
    assert!(contains_text("abc", "bc"));
    assert!(!contains_text("abc", "cd"));
}

#[test]
fn formats_errors_for_files() {
    let e = OnewayError::CheckError { message: "unknown name `x`".to_string(), span: Span::new(3, 4, 2, 7) };
    assert_eq!(format_error("main.ow", &e), "error[main.ow:2:7]: unknown name `x`");
}

#[test]
fn crate_names_are_fixed_points() {
    for name in ["my-app.v2", "1st", "", "ok_name", "naïve app"] {
        let once = sanitize_crate_name(name);
        assert_eq!(sanitize_crate_name(&once), once);
    }
    assert_eq!(sanitize_crate_name(""), "oneway_build");
    assert_eq!(sanitize_crate_name("1st"), "_1st");
}
