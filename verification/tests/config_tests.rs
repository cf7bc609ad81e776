use gromrik::config::Config;
use gromrik::mode::Mode;
use gromrik::persona::{Assets, PersonaAssets};

fn assets() -> Assets {
    let pa = |name: &str| PersonaAssets {
        prompt: format!("You are {}.", name),
        scene: String::new(),
        location: String::new(),
        locations: vec![],
        text_image: String::new(),
        full_image: vec![],
    };
    Assets {
        location_list: vec!["market".to_string()],
        gromrik: pa("Gromrik"),
        lyranis: pa("Lyranis"),
        commoner_prompt: "You are a commoner.".to_string(),
        commoner_location: "market".to_string(),
    }
}

fn args(v: &[&str]) -> Vec<String> {
    v.iter().map(|s| s.to_string()).collect()
}

#[test]
fn defaults_come_from_the_program_name() {
    let a = assets();
    let c = Config::defaults("gromrik-tui", &args(&["gromrik-tui"]), &a);
    assert_eq!(c.ranas, "gromrik-tui");
    assert_eq!(c.mode, Mode::TUI);
    assert_eq!(c.persona.name, "Gromrik");
    assert_eq!(c.llm_server_url, "http://localhost:11434/api/chat");
    assert_eq!(c.model, "qwen2.5:7b");
    assert_eq!(c.history_file, "history/history.json");
    let c = Config::defaults("gromrik", &args(&["gromrik", "--gui"]), &a);
    assert_eq!(c.mode, Mode::GUI);
}

#[test]
fn config_path_is_taken_from_the_command_line() {
    let d = "config/gromrik.cfg".to_string();
    assert_eq!(Config::path_from_args(&d, &args(&["g", "--config", " my.cfg "])), "my.cfg");
    assert_eq!(Config::path_from_args(&d, &args(&["g", "--config"])), d);
    assert_eq!(Config::path_from_args(&d, &args(&["g", "--mode", "tui"])), d);
}

#[test]
fn command_line_options_set_the_config() {
    let a = assets();
    let c = Config::defaults("gromrik", &args(&["gromrik"]), &a);
    let c = Config::from_args(
        c,
        &args(&[
            "gromrik", "--persona", " Lyranis ", "--model", "llama", "--llm-server-url", "http://h/api", "--history-file",
            "h.json", "--tui", "--unknown", "--config", "x.cfg",
        ]),
        "gromrik",
        &a,
    );
    assert_eq!(c.persona.name, "Lyranis");
    assert_eq!(c.model, "llama");
    assert_eq!(c.llm_server_url, "http://h/api");
    assert_eq!(c.history_file, "h.json");
    assert_eq!(c.mode, Mode::TUI);
    let c = Config::from_args(c, &args(&["g", "--mode", "nonsense"]), "gromrik-web", &a);
    assert_eq!(c.mode, Mode::WEB);
    let c = Config::from_args(c, &args(&["g", "--help", "--model"]), "gromrik", &a);
    assert_eq!(c.mode, Mode::Help);
    assert_eq!(c.model, "llama");
}

#[test]
fn config_file_lines_set_the_config() {
    let a = assets();
    let c = Config::defaults("gromrik", &args(&["gromrik"]), &a);
    let text = "# comment\n  mode: tui  \r\npersona: commoner\nllm_server_url: http://host:1/api/chat\nmodel:llama3\n\nunknown: 1\nhistory_file: a:b.json\nnot a setting\n";
    let c = Config::apply_file(c, text, "gromrik", &a);
    assert_eq!(c.mode, Mode::TUI);
    assert_eq!(c.persona.name, "Commoner");
    assert_eq!(c.llm_server_url, "http://host:1/api/chat");
    assert_eq!(c.model, "llama3");
    assert_eq!(c.history_file, "a:b.json");
    let c = Config::apply_file(c, "mode: other", "gromrik-gui.exe", &a);
    assert_eq!(c.mode, Mode::GUI);
}

#[test]
fn written_config_reads_back() {
    let a = assets();
    let c = Config::defaults("gromrik", &args(&["gromrik", "--web"]), &a);
    let c = Config::from_args(c, &args(&["g", "--persona", "lyranis", "--model", "m:1"]), "gromrik", &a);
    let text = c.file_text();
    assert_eq!(
        text,
        "mode: web\npersona: lyranis\nllm_server_url: http://localhost:11434/api/chat\nmodel: m:1\nhistory_file: history/history.json"
    );
    let fresh = Config::defaults("gromrik", &args(&["gromrik"]), &a);
    let back = Config::apply_file(fresh, &text, "gromrik", &a);
    assert_eq!(back.mode, c.mode);
    assert_eq!(back.persona.name, c.persona.name);
    assert_eq!(back.llm_server_url, c.llm_server_url);
    assert_eq!(back.model, c.model);
    assert_eq!(back.history_file, c.history_file);
}

#[test]
fn settings_are_described() {
    let a = assets();
    let c = Config::defaults("gromrik", &args(&["gromrik"]), &a);
    assert_eq!(
        c.describe(),
        "\n  -----------------------------------\n             Configuration \n  -----------------------------------\n\n    Mode:           gui\n    Persona:        Gromrik\n    LLM Server URL: http://localhost:11434/api/chat\n    Model:          qwen2.5:7b\n    History File:   history/history.json\n\n  -----------------------------------\n"
    );
}

#[test]
fn setup_answers_make_the_config() {
    let a = assets();
    let c = Config::defaults("gromrik", &args(&["gromrik"]), &a);
    let c = Config::from_answers(c, "gui", "commoner", "http://x/api/chat", "m", "h.json", "gromrik", &a);
    assert_eq!(c.mode, Mode::GUI);
    assert_eq!(c.persona.name, "Commoner");
    assert_eq!(c.llm_server_url, "http://x/api/chat");
    assert_eq!(c.model, "m");
    assert_eq!(c.history_file, "h.json");
    let c = Config::from_answers(c, "bogus", "x", "u", "m", "h", "gromrik-tui", &a);
    assert_eq!(c.mode, Mode::TUI);
    assert_eq!(c.persona.name, "Gromrik");
}

#[test]
fn only_true_is_yes() {
    assert!(gromrik::config::answer_is_true("true"));
    assert!(!gromrik::config::answer_is_true("false"));
    assert!(!gromrik::config::answer_is_true("yes"));
    assert!(!gromrik::config::answer_is_true("True"));
}

#[test]
fn command_line_wins_over_the_file() {
    let a = assets();
    let c = Config::defaults("gromrik", &args(&["gromrik"]), &a);
    let c = Config::apply_file(c, "mode: tui\nmodel: from-file\npersona: lyranis", "gromrik", &a);
    let c = Config::from_args(c, &args(&["g", "--gui", "--model", "from-args"]), "gromrik", &a);
    assert_eq!(c.mode, Mode::GUI);
    assert_eq!(c.model, "from-args");
    assert_eq!(c.persona.name, "Lyranis");
    assert_eq!(c.llm_server_url, "http://localhost:11434/api/chat");
}

#[test]
fn written_persona_is_lower_cased() {
    let a = assets();
    let mut c = Config::defaults("gromrik", &args(&["gromrik"]), &a);
    c.persona.name = "\u{130}LF".to_string();
    let text = c.file_text();
    assert!(text.contains(&format!("\npersona: {}\n", "\u{130}LF".to_lowercase())), "{}", text);
}

#[test]
fn program_name_only_sets_the_default_mode() {
    let a = assets();
    let argv = args(&["gromrik-tui", "--model", "m"]);
    let c = Config::defaults("gromrik-tui", &argv, &a);
    let c = Config::apply_file(c, "model: x", "gromrik-tui", &a);
    let c = Config::from_args(c, &argv, "gromrik-tui", &a);
    assert_eq!(c.mode, Mode::TUI);
    let c = Config::defaults("gromrik-tui", &argv, &a);
    let c = Config::apply_file(c, "mode: gui", "gromrik-tui", &a);
    let c = Config::from_args(c, &argv, "gromrik-tui", &a);
    assert_eq!(c.mode, Mode::GUI);
}

#[test]
fn persona_file_is_taken_from_the_command_line() {
    let a = assets();
    let c = Config::defaults("gromrik", &args(&["gromrik"]), &a);
    assert_eq!(c.persona_file, "");
    let c = Config::from_args(c, &args(&["g", "--persona-file", " bundles/elf.grom ", "--tui"]), "gromrik", &a);
    assert_eq!(c.persona_file, "bundles/elf.grom");
    assert_eq!(c.mode, Mode::TUI);
    let c = Config::from_args(c, &args(&["g", "--persona-file"]), "gromrik", &a);
    assert_eq!(c.persona_file, "bundles/elf.grom");
    let elf = gromrik::persona::Persona::new("lyranis", &a);
    let c = Config::with_persona(c, elf);
    assert_eq!(c.persona.name, "Lyranis");
    assert_eq!(c.model, "qwen2.5:7b");
}
