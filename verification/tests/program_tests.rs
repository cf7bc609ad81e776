use gromrik::cli::{cli_input, cli_wrap, CliInput};
use gromrik::help::help_text;
use gromrik::keyed::Keyed;
use gromrik::logger::{log_level, log_line, redaction_pattern, regex_escape, LogLevel, Redactor};
use gromrik::mode::{first_index_exec, Mode};
use gromrik::splash::{raw_splash, splash, version, BuildInfo};

fn args(v: &[&str]) -> Vec<String> {
    v.iter().map(|s| s.to_string()).collect()
}

#[test]
fn program_name_selects_the_default_mode() {
    assert_eq!(Mode::from_bin_name("gromrik"), Mode::GUI);
    assert_eq!(Mode::from_bin_name("gromrik-cli"), Mode::CLI);
    assert_eq!(Mode::from_bin_name("gromrik-tui"), Mode::TUI);
    assert_eq!(Mode::from_bin_name("gromrik-gui.exe"), Mode::GUI);
    assert_eq!(Mode::from_bin_name("gromrik-web"), Mode::WEB);
    assert_eq!(Mode::from_bin_name("gromrik-other"), Mode::GUI);
    assert_eq!(Mode::from_bin_name("my-gromrik-tui"), Mode::GUI);
    assert_eq!(Mode::from_bin_name("a.b-tui"), Mode::GUI);
}

#[test]
fn mode_names_and_options() {
    assert_eq!(Mode::named("tui"), Some(Mode::TUI));
    assert_eq!(Mode::named("TUI"), None);
    assert_eq!(Mode::from_str("web", "gromrik"), Mode::WEB);
    assert_eq!(Mode::from_str("x", "gromrik-gui"), Mode::GUI);
    assert_eq!(Mode::mode(&args(&["g", "--tui", "--gui"]), "gromrik"), Mode::TUI);
    assert_eq!(Mode::mode(&args(&["g", "--mode", "web"]), "gromrik"), Mode::WEB);
    assert_eq!(Mode::mode(&args(&["g", "--mode"]), "gromrik-gui"), Mode::GUI);
    assert_eq!(Mode::mode(&args(&["g"]), "gromrik-tui"), Mode::TUI);
    for m in [Mode::CLI, Mode::TUI, Mode::GUI, Mode::WEB] {
        assert_eq!(Mode::named(&m.name()), Some(m));
    }
    assert_eq!(Mode::Help.name(), "help");
    assert_eq!(first_index_exec("a-b-c", '-'), Some(1));
    assert_eq!(first_index_exec("abc", '-'), None);
}

#[test]
fn version_text() {
    let b = BuildInfo {
        version: "1.1.4".to_string(),
        build_id: "42".to_string(),
        build_time: "2026-01-01".to_string(),
        authors: "Someone".to_string(),
        license: "MIT".to_string(),
    };
    assert_eq!(version(&b), "\nGromrik 1.1.4.42 (2026-01-01)\nCopyright (C) 2026 Someone\nLicensed under the MIT License\n  ");
}

#[test]
fn splash_is_painted_bronze() {
    assert_eq!(raw_splash("ART"), "\nART\n");
    assert_eq!(splash("ART"), "\n\u{1b}[1;38;2;130;108;72m\nART\n\u{1b}[0m\n");
}

#[test]
fn redaction_list_becomes_one_pattern() {
    assert_eq!(redaction_pattern("# secrets\n  a.b  \n\nc+d\r\n"), Some("(a\\.b|c\\+d)".to_string()));
    assert_eq!(redaction_pattern("# only comments\n\n"), None);
    let r = Redactor::from_list("hunter2\nswordfish\n").unwrap();
    assert_eq!(r.redact("password is hunter2!"), "password is [REDACTED]!");
    assert_eq!(r.redact("nothing here"), "nothing here");
    let r = Redactor::from_list("a.b").unwrap();
    assert_eq!(r.redact("a.b axb"), "[REDACTED] axb");
    assert!(Redactor::from_list("").is_none());
}

#[test]
fn log_lines_have_their_details_in_brackets() {
    assert_eq!(log_line(&args(&["2026-01-01T00:00:00Z", "INFO", "gromrik"]), "hello"), "[2026-01-01T00:00:00Z INFO gromrik] hello");
    assert_eq!(log_line(&vec![], "hello"), "[] hello");
}

#[test]
fn typed_lines_in_the_command_line() {
    assert_eq!(cli_input("  ExIt \n"), (CliInput::Exit, "ExIt".to_string()));
    assert_eq!(cli_input("   \n"), (CliInput::Skip, String::new()));
    assert_eq!(cli_input(" hello \n"), (CliInput::Send, "hello".to_string()));
}

#[test]
fn answers_wrap_at_the_last_column() {
    assert_eq!(cli_wrap("ab\ncd", 2), ("ab\n  cd".to_string(), 4));
    assert_eq!(cli_wrap("x y", 79), ("x\n  y".to_string(), 3));
    assert_eq!(cli_wrap("x y", 70), ("x y".to_string(), 73));
    assert_eq!(cli_wrap(" y", 80), ("\n  y".to_string(), 3));
    assert_eq!(cli_wrap("", 7), (String::new(), 7));
}

#[test]
fn help_fills_the_template() {
    let h = help_text("{{RUNAS}}: {{DESCRIPTION}} ({{COPYRIGHT}}, {{AUTHORS}})\n{{DETAILS}}", "gromrik", "A dwarf.", "Me");
    assert!(h.starts_with("gromrik: A dwarf. (2026, Me)\n  --config <CONFIG FILE PATH>"));
    assert!(h.ends_with("--help                               Display this help message"));
}

#[test]
fn keyed_table_keeps_first_order_and_last_value() {
    let mut k: Keyed<u32> = Keyed::new();
    assert_eq!(k.len(), 0);
    k.insert("b".to_string(), 1);
    k.insert("a".to_string(), 2);
    k.insert("b".to_string(), 3);
    assert_eq!(k.len(), 2);
    assert_eq!(k.get("b"), Some(&3));
    assert_eq!(k.find("a"), Some(1));
    assert!(!k.contains_key("c"));
    assert_eq!(k.key_list(), vec!["b".to_string(), "a".to_string()]);
}

#[test]
fn printing_keeps_what_shows() {
    let token = "Bah!  You\tdare\nask me, of all dwarves, about the weather?";
    for column in [0usize, 40, 78, 80, 200] {
        let (shown, _) = cli_wrap(token, column);
        let got: String = shown.chars().filter(|c| !c.is_whitespace()).collect();
        let want: String = token.chars().filter(|c| !c.is_whitespace()).collect();
        assert_eq!(got, want);
    }
}

#[test]
fn log_level_comes_from_its_setting() {
    assert_eq!(log_level(None), LogLevel::Debug);
    assert_eq!(log_level(Some("WaRn")), LogLevel::Warn);
    assert_eq!(log_level(Some("trace")), LogLevel::Trace);
    assert_eq!(log_level(Some("off")), LogLevel::Debug);
    assert_eq!(log_level(Some("loud")), LogLevel::Debug);
}

#[test]
fn escaping_matches_the_regex_crate() {
    for text in ["a.b", "\\.+*?()|[]{}^$#&-~", "plain text", "caf\u{e9} 1+1=2", ""] {
        assert_eq!(regex_escape(text), regex::escape(text));
    }
}
