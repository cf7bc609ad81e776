use gromrik::text::{
    eq_ignore_ascii_case, find_char, join, lines, replace, split, split_whitespace, starts_with, text_byte_len,
    trim, trim_end, trim_start,
};
use gromrik::util::{build_path_parts, prompt_answer, render};

fn strings(v: &[&str]) -> Vec<String> {
    v.iter().map(|s| s.to_string()).collect()
}

#[test]
fn trims_unicode_white_space() {
    assert_eq!(trim("  \t hello \u{3000}\n"), "hello");
    assert_eq!(trim_start("  a b "), "a b ");
    assert_eq!(trim_end("  a b \r\n"), "  a b");
    assert_eq!(trim("   "), "");
}

#[test]
fn splits_like_str_split() {
    assert_eq!(split("a::b::c", "::"), strings(&["a", "b", "c"]));
    assert_eq!(split("a:::b", "::"), strings(&["a", ":b"]));
    assert_eq!(split("", ","), strings(&[""]));
    assert_eq!(split("x,", ","), strings(&["x", ""]));
    let s = "http://host:8080/api";
    let expected: Vec<String> = s.split(":").map(String::from).collect();
    assert_eq!(split(s, ":"), expected);
}

#[test]
fn joins_and_replaces() {
    assert_eq!(join(&strings(&["a", "b", "c"]), ", "), "a, b, c");
    assert_eq!(join(&strings(&[]), ","), "");
    assert_eq!(replace("aXbXXc", "X", "--"), "a--b----c");
    assert_eq!(replace("aaa", "aa", "b"), "ba");
    assert_eq!(replace("NAME: Bob", "NAME:", ""), " Bob");
}

#[test]
fn lines_like_str_lines() {
    for text in ["", "a", "a\n", "a\n\nb", "a\r\nb\r\n", "x\r", "\n", "one\ntwo\n\n"] {
        let expected: Vec<String> = text.lines().map(String::from).collect();
        assert_eq!(lines(text), expected, "text {:?}", text);
    }
}

#[test]
fn words_like_split_whitespace() {
    for text in ["", "  ", "a b", "  /persona   Lyranis  ", "x\ty\nz"] {
        let expected: Vec<String> = text.split_whitespace().map(String::from).collect();
        assert_eq!(split_whitespace(text), expected, "text {:?}", text);
    }
}

#[test]
fn small_scans() {
    assert!(starts_with("/persona x", "/persona "));
    assert!(!starts_with("/per", "/persona "));
    assert_eq!(find_char("gromrik-tui.exe", '.'), Some(11));
    assert_eq!(find_char("abc", 'z'), None);
    assert!(eq_ignore_ascii_case("ExIt", "exit"));
    assert!(!eq_ignore_ascii_case("exits", "exit"));
    assert_eq!(text_byte_len("a\u{e9}\u{1F914}"), 1 + 2 + 4);
}

#[test]
fn case_conversion_uses_std() {
    assert_eq!(gromrik::persona::kind_of("GroMRIK"), gromrik::persona::PersonaKind::Gromrik);
    assert_eq!(render("{{BACKSTORY}}!", &[("backstory".to_string(), "told".to_string())]), "told!");
    assert_eq!(render("{{STRASSE}}", &[("stra\u{df}e".to_string(), "x".to_string())]), "x");
    let labels = vec!["\u{130}stanbul".to_string()];
    assert_eq!(gromrik::console::next_label(&labels, "\u{130}".to_lowercase().as_str()), Some("\u{130}stanbul".to_string()));
}

#[test]
fn render_fills_fields_in_order() {
    let fields = vec![("name".to_string(), "Bob".to_string()), ("TRAIT".to_string(), "curious".to_string())];
    assert_eq!(render("Hi {{NAME}}, you are {{TRAIT}} ({{NAME}}).", &fields), "Hi Bob, you are curious (Bob).");
    assert_eq!(render("no fields {{X}}", &[]), "no fields {{X}}");
}

#[test]
fn render_replaces_in_sequence() {
    let fields = vec![("A".to_string(), "{{B}}".to_string()), ("B".to_string(), "b".to_string())];
    assert_eq!(render("{{A}}", &fields), "b");
}

#[test]
fn build_path_parts_splits_directory_and_file() {
    assert_eq!(build_path_parts("gromrik.cfg", "config"), ("config".to_string(), "gromrik.cfg".to_string()));
    assert_eq!(build_path_parts("a/b/c.cfg", "config/"), ("config/a/b".to_string(), "c.cfg".to_string()));
    assert_eq!(build_path_parts("c.cfg", ""), ("".to_string(), "c.cfg".to_string()));
    assert_eq!(build_path_parts("x/c.cfg", ""), ("x".to_string(), "c.cfg".to_string()));
}

#[test]
fn prompt_answer_falls_back_to_default() {
    assert_eq!(prompt_answer("  \n", "cli"), "cli");
    assert_eq!(prompt_answer("tui\n", "cli"), "tui");
    assert_eq!(prompt_answer("  gui  \n", "cli"), "  gui");
}
