//! The program's settings: their defaults, the config file, and the command
//! line, each later source overriding the earlier.
use vstd::prelude::*;

use crate::defaults::{DEFAULT_HISTORY_FILE, DEFAULT_LLM_SERVER_URL, DEFAULT_MODEL, DEFAULT_PERSONA};
use crate::mode::{law_mode_name_round_trip, mode_from_args_spec, mode_from_str_spec, mode_name, mode_named, mode_of_bin, Mode};
use crate::persona::{builtin_spec, persona_kind, Assets, Persona, PersonaView};
use crate::text::{
    concat, concat3, is_white, join, join_spec, lemma_join_split, lemma_lines_join, lemma_split_char_first, lemma_split_char_none,
    lemma_split_nonempty, lines, lines_spec, lowercase_of, split, split_spec, starts_with, starts_with_spec, strip_cr,
    text_eq, texts, to_lowercase, trim, trim_end_spec, trim_spec, trim_start, trim_start_spec,
};

verus! {

/// The settings of a run.
#[derive(Clone)]
pub struct Config {
    /// The program's file name.
    pub ranas: String,
    pub mode: Mode,
    pub persona: Persona,
    pub llm_server_url: String,
    pub model: String,
    pub history_file: String,
    /// The persona bundle that the command line names (empty: none).
    pub persona_file: String,
}

/// The settings by their texts.
pub struct ConfigView {
    pub ranas: Seq<char>,
    pub mode: Mode,
    pub persona: PersonaView,
    pub llm_server_url: Seq<char>,
    pub model: Seq<char>,
    pub history_file: Seq<char>,
    pub persona_file: Seq<char>,
}

impl View for Config {
    type V = ConfigView;

    open spec fn view(&self) -> ConfigView {
        ConfigView {
            ranas: self.ranas@,
            mode: self.mode,
            persona: self.persona@,
            llm_server_url: self.llm_server_url@,
            model: self.model@,
            history_file: self.history_file@,
            persona_file: self.persona_file@,
        }
    }
}

/// What a source of settings sets (`None`: leaves as it was); a persona is
/// given by the label that selects it.
pub struct Settings {
    pub mode: Option<Mode>,
    pub persona: Option<Seq<char>>,
    pub llm_server_url: Option<Seq<char>>,
    pub model: Option<Seq<char>>,
    pub history_file: Option<Seq<char>>,
    pub persona_file: Option<Seq<char>>,
}

/// Nothing set.
pub open spec fn no_settings() -> Settings {
    Settings { mode: None, persona: None, llm_server_url: None, model: None, history_file: None, persona_file: None }
}

/// `c` with what `s` sets.
pub open spec fn apply_settings(c: ConfigView, s: Settings, a: &Assets) -> ConfigView {
    ConfigView {
        ranas: c.ranas,
        mode: match s.mode {
            Some(m) => m,
            None => c.mode,
        },
        persona: match s.persona {
            Some(l) => builtin_spec(persona_kind(l), a),
            None => c.persona,
        },
        llm_server_url: match s.llm_server_url {
            Some(u) => u,
            None => c.llm_server_url,
        },
        model: match s.model {
            Some(m) => m,
            None => c.model,
        },
        history_file: match s.history_file {
            Some(h) => h,
            None => c.history_file,
        },
        persona_file: match s.persona_file {
            Some(f) => f,
            None => c.persona_file,
        },
    }
}

pub const OPT_CONFIG: &'static str = "--config";
pub const OPT_PERSONA: &'static str = "--persona";
pub const OPT_URL: &'static str = "--llm-server-url";
pub const OPT_MODEL: &'static str = "--model";
pub const OPT_HISTORY: &'static str = "--history-file";
pub const OPT_MODE: &'static str = "--mode";
pub const OPT_PERSONA_FILE: &'static str = "--persona-file";
pub const OPT_CLI: &'static str = "--cli";
pub const OPT_TUI: &'static str = "--tui";
pub const OPT_GUI: &'static str = "--gui";
pub const OPT_WEB: &'static str = "--web";
pub const OPT_HELP: &'static str = "--help";

pub const KEY_MODE: &'static str = "mode";
pub const KEY_PERSONA: &'static str = "persona";
pub const KEY_URL: &'static str = "llm_server_url";
pub const KEY_MODEL: &'static str = "model";
pub const KEY_HISTORY: &'static str = "history_file";

/// What the command line sets, reading from argument `i` on (each argument
/// trimmed): an option that takes a value (`--persona`, `--llm-server-url`,
/// `--model`, `--history-file`, `--persona-file`, `--mode`) takes the next
/// argument, trimmed
/// (a mode name as it stands); an option without its value ends the reading;
/// `--cli`, `--tui`, `--gui`, `--web` and `--help` set the mode; anything
/// else is passed over. A later setting overrides an earlier one.
pub open spec fn args_settings(args: Seq<Seq<char>>, i: int, bin: Seq<char>, acc: Settings) -> Settings
    decreases args.len() - i,
{
    if i < 0 || i >= args.len() {
        acc
    } else {
        let a = trim_spec(args[i]);
        let has_next = i + 1 < args.len();
        if a == OPT_CONFIG@ {
            args_settings(args, i + 1, bin, acc)
        } else if a == OPT_PERSONA@ {
            if has_next {
                args_settings(args, i + 2, bin, Settings { persona: Some(trim_spec(args[i + 1])), ..acc })
            } else {
                acc
            }
        } else if a == OPT_URL@ {
            if has_next {
                args_settings(args, i + 2, bin, Settings { llm_server_url: Some(trim_spec(args[i + 1])), ..acc })
            } else {
                acc
            }
        } else if a == OPT_MODEL@ {
            if has_next {
                args_settings(args, i + 2, bin, Settings { model: Some(trim_spec(args[i + 1])), ..acc })
            } else {
                acc
            }
        } else if a == OPT_HISTORY@ {
            if has_next {
                args_settings(args, i + 2, bin, Settings { history_file: Some(trim_spec(args[i + 1])), ..acc })
            } else {
                acc
            }
        } else if a == OPT_PERSONA_FILE@ {
            if has_next {
                args_settings(args, i + 2, bin, Settings { persona_file: Some(trim_spec(args[i + 1])), ..acc })
            } else {
                acc
            }
        } else if a == OPT_MODE@ {
            if has_next {
                args_settings(args, i + 2, bin, Settings { mode: Some(mode_from_str_spec(args[i + 1], bin)), ..acc })
            } else {
                acc
            }
        } else if a == OPT_CLI@ {
            args_settings(args, i + 1, bin, Settings { mode: Some(Mode::CLI), ..acc })
        } else if a == OPT_TUI@ {
            args_settings(args, i + 1, bin, Settings { mode: Some(Mode::TUI), ..acc })
        } else if a == OPT_GUI@ {
            args_settings(args, i + 1, bin, Settings { mode: Some(Mode::GUI), ..acc })
        } else if a == OPT_WEB@ {
            args_settings(args, i + 1, bin, Settings { mode: Some(Mode::WEB), ..acc })
        } else if a == OPT_HELP@ {
            args_settings(args, i + 1, bin, Settings { mode: Some(Mode::Help), ..acc })
        } else {
            args_settings(args, i + 1, bin, acc)
        }
    }
}

/// The config file that the command line names after `--config` (trimmed),
/// reading from argument `i` on; the default where none is named.
pub open spec fn config_path_spec(args: Seq<Seq<char>>, i: int, default: Seq<char>) -> Seq<char>
    decreases args.len() - i,
{
    if i < 0 || i >= args.len() {
        default
    } else if trim_spec(args[i]) == OPT_CONFIG@ {
        if i + 1 < args.len() {
            trim_spec(args[i + 1])
        } else {
            default
        }
    } else {
        config_path_spec(args, i + 1, default)
    }
}

/// What one line of a config file sets: a trimmed line that is neither empty
/// nor a `#` comment and holds a `:` sets the setting named before its first
/// `:` to what follows it, without leading white space.
pub open spec fn file_line_settings(acc: Settings, raw: Seq<char>, bin: Seq<char>) -> Settings {
    let line = trim_spec(raw);
    if line.len() == 0 || starts_with_spec(line, seq!['#']) {
        acc
    } else {
        let parts = split_spec(line, seq![':']);
        if parts.len() <= 1 {
            acc
        } else {
            let value = trim_start_spec(join_spec(parts.skip(1), seq![':']));
            let key = parts[0];
            if key == KEY_MODE@ {
                Settings { mode: Some(mode_from_str_spec(value, bin)), ..acc }
            } else if key == KEY_PERSONA@ {
                Settings { persona: Some(value), ..acc }
            } else if key == KEY_URL@ {
                Settings { llm_server_url: Some(value), ..acc }
            } else if key == KEY_MODEL@ {
                Settings { model: Some(value), ..acc }
            } else if key == KEY_HISTORY@ {
                Settings { history_file: Some(value), ..acc }
            } else {
                acc
            }
        }
    }
}

/// What the lines of a config file set, the later overriding the earlier.
pub open spec fn file_settings(ls: Seq<Seq<char>>, bin: Seq<char>) -> Settings
    decreases ls.len(),
{
    if ls.len() == 0 {
        no_settings()
    } else {
        file_line_settings(file_settings(ls.drop_last(), bin), ls.last(), bin)
    }
}

/// The line of the config file that sets `key` to `v`: `key: v`.
pub open spec fn setting_line(key: Seq<char>, v: Seq<char>) -> Seq<char> {
    key + seq![':', ' '] + v
}

/// The lines of the config file for `c`, one per setting.
pub open spec fn config_lines(c: ConfigView) -> Seq<Seq<char>> {
    seq![
        setting_line(KEY_MODE@, mode_name(c.mode)),
        setting_line(KEY_PERSONA@, lowercase_of(c.persona.name)),
        setting_line(KEY_URL@, c.llm_server_url),
        setting_line(KEY_MODEL@, c.model),
        setting_line(KEY_HISTORY@, c.history_file),
    ]
}

/// The text of the config file written for `c`: its lines joined by line breaks.
pub open spec fn file_text_spec(c: ConfigView) -> Seq<char> {
    join_spec(config_lines(c), seq!['\n'])
}

pub const SETTING_MARK: &'static str = ": ";

pub const SHOW_HEAD: &'static str = "\n  -----------------------------------\n             Configuration \n  -----------------------------------\n\n    Mode:           ";
pub const SHOW_PERSONA: &'static str = "\n    Persona:        ";
pub const SHOW_URL: &'static str = "\n    LLM Server URL: ";
pub const SHOW_MODEL: &'static str = "\n    Model:          ";
pub const SHOW_HISTORY: &'static str = "\n    History File:   ";
pub const SHOW_TAIL: &'static str = "\n\n  -----------------------------------\n";

/// The settings as they are shown.
pub open spec fn describe_spec(c: ConfigView) -> Seq<char> {
    SHOW_HEAD@ + mode_name(c.mode) + SHOW_PERSONA@ + c.persona.name + SHOW_URL@ + c.llm_server_url + SHOW_MODEL@
        + c.model + SHOW_HISTORY@ + c.history_file + SHOW_TAIL@
}

/// Whether `s` is `lit`.
fn is(s: &str, lit: &str) -> (res: bool)
    ensures
        res == (s@ == lit@),
{
    text_eq(s, lit)
}

impl Config {
    /// Whether the persona's places are a proper table.
    pub open spec fn inv(&self) -> bool {
        self.persona.locations.wf()
    }

    /// The default settings: the mode from the command line (or the
    /// program's file name), the default persona, server, model and history
    /// file.
    pub fn defaults(bin_name: &str, args: &[String], assets: &Assets) -> (res: Config)
        ensures
            res.inv(),
            res@.ranas == bin_name@,
            res@.mode == mode_from_args_spec(texts(args@), 0, bin_name@),
            res@.persona == builtin_spec(persona_kind(DEFAULT_PERSONA@), assets),
            res@.llm_server_url == DEFAULT_LLM_SERVER_URL@,
            res@.model == DEFAULT_MODEL@,
            res@.history_file == DEFAULT_HISTORY_FILE@,
            res@.persona_file == Seq::<char>::empty(),
    {
        Config {
            ranas: String::from_str(bin_name),
            mode: Mode::mode(args, bin_name),
            persona: Persona::new(DEFAULT_PERSONA, assets),
            llm_server_url: String::from_str(DEFAULT_LLM_SERVER_URL),
            model: String::from_str(DEFAULT_MODEL),
            history_file: String::from_str(DEFAULT_HISTORY_FILE),
            persona_file: String::new(),
        }
    }

    /// The config file that the command line names, else `default_path`.
    pub fn path_from_args(default_path: &String, args: &[String]) -> (res: String)
        ensures
            res@ == config_path_spec(texts(args@), 0, default_path@),
    {
        let ghost a = texts(args@);
        let mut i: usize = 0;
        while i < args.len()
            invariant
                a == texts(args@),
                i <= a.len(),
                config_path_spec(a, 0, default_path@) == config_path_spec(a, i as int, default_path@),
            decreases a.len() - i,
        {
            let arg = trim(args[i].as_str());
            assert(a[i as int] == args@[i as int]@);
            if is(arg.as_str(), OPT_CONFIG) {
                if i + 1 < args.len() {
                    assert(a[i + 1] == args@[i + 1]@);
                    return trim(args[i + 1].as_str());
                } else {
                    return default_path.clone();
                }
            }
            i = i + 1;
        }
        default_path.clone()
    }

    /// `config` with what the command line sets.
    pub fn from_args(config: Config, args: &[String], bin_name: &str, assets: &Assets) -> (res: Config)
        requires
            config.inv(),
        ensures
            res.inv(),
            res@ == apply_settings(config@, args_settings(texts(args@), 0, bin_name@, no_settings()), assets),
    {
        let ghost a = texts(args@);
        let ghost start = config@;
        let mut current = config;
        let ghost mut acc = no_settings();
        let mut i: usize = 0;
        while i < args.len()
            invariant
                a == texts(args@),
                i <= a.len(),
                current.inv(),
                current@ == apply_settings(start, acc, assets),
                start == config@,
                args_settings(a, 0, bin_name@, no_settings()) == args_settings(a, i as int, bin_name@, acc),
            decreases a.len() - i,
        {
            let arg = trim(args[i].as_str());
            assert(a[i as int] == args@[i as int]@);
            let s = arg.as_str();
            let has_next = i + 1 < args.len();
            if has_next {
                assert(a[i + 1] == args@[i + 1]@);
            }
            if is(s, OPT_CONFIG) {
                i = i + 1;
            } else if is(s, OPT_PERSONA) {
                if !has_next {
                    assert(args_settings(a, i as int, bin_name@, acc) == acc);
                    return current;
                }
                let value = trim(args[i + 1].as_str());
                current.persona = Persona::new(value.as_str(), assets);
                proof {
                    acc = Settings { persona: Some(value@), ..acc };
                }
                i = i + 2;
            } else if is(s, OPT_URL) {
                if !has_next {
                    assert(args_settings(a, i as int, bin_name@, acc) == acc);
                    return current;
                }
                current.llm_server_url = trim(args[i + 1].as_str());
                proof {
                    acc = Settings { llm_server_url: Some(current.llm_server_url@), ..acc };
                }
                i = i + 2;
            } else if is(s, OPT_MODEL) {
                if !has_next {
                    assert(args_settings(a, i as int, bin_name@, acc) == acc);
                    return current;
                }
                current.model = trim(args[i + 1].as_str());
                proof {
                    acc = Settings { model: Some(current.model@), ..acc };
                }
                i = i + 2;
            } else if is(s, OPT_HISTORY) {
                if !has_next {
                    assert(args_settings(a, i as int, bin_name@, acc) == acc);
                    return current;
                }
                current.history_file = trim(args[i + 1].as_str());
                proof {
                    acc = Settings { history_file: Some(current.history_file@), ..acc };
                }
                i = i + 2;
            } else if is(s, OPT_PERSONA_FILE) {
                if !has_next {
                    assert(args_settings(a, i as int, bin_name@, acc) == acc);
                    return current;
                }
                current.persona_file = trim(args[i + 1].as_str());
                proof {
                    acc = Settings { persona_file: Some(current.persona_file@), ..acc };
                }
                i = i + 2;
            } else if is(s, OPT_MODE) {
                if !has_next {
                    assert(args_settings(a, i as int, bin_name@, acc) == acc);
                    return current;
                }
                current.mode = Mode::from_str(args[i + 1].as_str(), bin_name);
                proof {
                    acc = Settings { mode: Some(current.mode), ..acc };
                }
                i = i + 2;
            } else if is(s, OPT_CLI) {
                current.mode = Mode::CLI;
                proof {
                    acc = Settings { mode: Some(Mode::CLI), ..acc };
                }
                i = i + 1;
            } else if is(s, OPT_TUI) {
                current.mode = Mode::TUI;
                proof {
                    acc = Settings { mode: Some(Mode::TUI), ..acc };
                }
                i = i + 1;
            } else if is(s, OPT_GUI) {
                current.mode = Mode::GUI;
                proof {
                    acc = Settings { mode: Some(Mode::GUI), ..acc };
                }
                i = i + 1;
            } else if is(s, OPT_WEB) {
                current.mode = Mode::WEB;
                proof {
                    acc = Settings { mode: Some(Mode::WEB), ..acc };
                }
                i = i + 1;
            } else if is(s, OPT_HELP) {
                current.mode = Mode::Help;
                proof {
                    acc = Settings { mode: Some(Mode::Help), ..acc };
                }
                i = i + 1;
            } else {
                i = i + 1;
            }
        }
        current
    }

    /// `config` with what the lines of a config file's text set.
    pub fn apply_file(config: Config, contents: &str, bin_name: &str, assets: &Assets) -> (res: Config)
        requires
            config.inv(),
        ensures
            res.inv(),
            res@ == apply_settings(config@, file_settings(lines_spec(contents@), bin_name@), assets),
    {
        let ls = lines(contents);
        let ghost lv = texts(ls@);
        let ghost start = config@;
        let mut current = config;
        let mut i: usize = 0;
        proof {
            reveal_strlit("#");
            assert("#"@ =~= seq!['#']);
            reveal_strlit(":");
            assert(":"@ =~= seq![':']);
        }
        assert(lv.take(0) =~= Seq::<Seq<char>>::empty());
        while i < ls.len()
            invariant
                lv == texts(ls@),
                i <= lv.len(),
                current.inv(),
                "#"@ == seq!['#'],
                ":"@ == seq![':'],
                current@ == apply_settings(start, file_settings(lv.take(i as int), bin_name@), assets),
                start == config@,
            decreases lv.len() - i,
        {
            let ghost acc = file_settings(lv.take(i as int), bin_name@);
            assert(lv.take(i + 1).drop_last() =~= lv.take(i as int));
            assert(lv.take(i + 1).last() == ls@[i as int]@);
            let line = trim(ls[i].as_str());
            if line.unicode_len() > 0 && !starts_with(line.as_str(), "#") {
                proof {
                    lemma_split_nonempty(line@, seq![':'], 0);
                }
                let parts = split(line.as_str(), ":");
                if parts.len() > 1 {
                    let mut rest: Vec<String> = Vec::new();
                    let mut k: usize = 1;
                    let ghost ps = texts(parts@);
                    while k < parts.len()
                        invariant
                            ps == texts(parts@),
                            1 <= k <= ps.len(),
                            texts(rest@) == ps.skip(1).take(k - 1),
                        decreases ps.len() - k,
                    {
                        let ghost before = texts(rest@);
                        rest.push(parts[k].clone());
                        assert(ps.skip(1).take(k as int) =~= ps.skip(1).take(k - 1).push(ps[k as int]));
                        assert(texts(rest@) =~= before.push(parts@[k as int]@));
                        k = k + 1;
                    }
                    assert(ps.skip(1).take(k - 1) =~= ps.skip(1));
                    let joined = join(rest.as_slice(), ":");
                    let value = trim_start(joined.as_str());
                    let key = parts[0].as_str();
                    assert(ps[0] == key@);
                    if is(key, KEY_MODE) {
                        current.mode = Mode::from_str(value.as_str(), bin_name);
                    } else if is(key, KEY_PERSONA) {
                        current.persona = Persona::new(value.as_str(), assets);
                    } else if is(key, KEY_URL) {
                        current.llm_server_url = value;
                    } else if is(key, KEY_MODEL) {
                        current.model = value;
                    } else if is(key, KEY_HISTORY) {
                        current.history_file = value;
                    }
                }
            }
            i = i + 1;
        }
        assert(lv.take(lv.len() as int) =~= lv);
        current
    }

    /// The settings that the answers to the setup prompts give, each answer
    /// already standing in for its default where it was blank: the mode that
    /// the first names (else the program file's), the persona that the
    /// second selects, and the server, model and history file as answered.
    pub fn from_answers(
        config: Config,
        mode: &str,
        persona: &str,
        url: &str,
        model: &str,
        history_file: &str,
        bin_name: &str,
        assets: &Assets,
    ) -> (res: Config)
        requires
            config.inv(),
        ensures
            res.inv(),
            res@ == apply_settings(
                config@,
                Settings {
                    mode: Some(mode_from_str_spec(mode@, bin_name@)),
                    persona: Some(persona@),
                    llm_server_url: Some(url@),
                    model: Some(model@),
                    history_file: Some(history_file@),
                    persona_file: None,
                },
                assets,
            ),
    {
        let mut c = config;
        c.mode = Mode::from_str(mode, bin_name);
        c.persona = Persona::new(persona, assets);
        c.llm_server_url = String::from_str(url);
        c.model = String::from_str(model);
        c.history_file = String::from_str(history_file);
        c
    }

    /// The settings with `persona` as the persona spoken to (the persona of
    /// a bundle that the command line names).
    pub fn with_persona(config: Config, persona: Persona) -> (res: Config)
        requires
            persona.locations.wf(),
        ensures
            res.inv(),
            res@ == (ConfigView { persona: persona@, ..config@ }),
    {
        let mut c = config;
        c.persona = persona;
        c
    }

    /// The text of the config file for these settings.
    pub fn file_text(&self) -> (res: String)
        ensures
            res@ == file_text_spec(self@),
    {
        proof {
            reveal_strlit(": ");
            assert(SETTING_MARK@ =~= seq![':', ' ']);
            reveal_strlit("\n");
            assert("\n"@ =~= seq!['\n']);
        }
        let mode = self.mode.name();
        let persona = to_lowercase(self.persona.name.as_str());
        let lines = vec![
            concat3(KEY_MODE, SETTING_MARK, mode.as_str()),
            concat3(KEY_PERSONA, SETTING_MARK, persona.as_str()),
            concat3(KEY_URL, SETTING_MARK, self.llm_server_url.as_str()),
            concat3(KEY_MODEL, SETTING_MARK, self.model.as_str()),
            concat3(KEY_HISTORY, SETTING_MARK, self.history_file.as_str()),
        ];
        assert(texts(lines@) =~= config_lines(self@));
        join(lines.as_slice(), "\n")
    }

    /// The settings as they are shown.
    pub fn describe(&self) -> (res: String)
        ensures
            res@ == describe_spec(self@),
    {
        let mut t = String::from_str(SHOW_HEAD);
        t.append(self.mode.name().as_str());
        t.append(SHOW_PERSONA);
        t.append(self.persona.name.as_str());
        t.append(SHOW_URL);
        t.append(self.llm_server_url.as_str());
        t.append(SHOW_MODEL);
        t.append(self.model.as_str());
        t.append(SHOW_HISTORY);
        t.append(self.history_file.as_str());
        t.append(SHOW_TAIL);
        t
    }
}

/// Whether the answer to a yes-or-no prompt is yes: only `true` is (as
/// `bool`'s parsing reads it, anything else counting as no).
pub fn answer_is_true(answer: &str) -> (res: bool)
    ensures
        res == (answer@ == seq!['t', 'r', 'u', 'e']),
{
    proof {
        reveal_strlit("true");
        assert("true"@ =~= seq!['t', 'r', 'u', 'e']);
    }
    text_eq(answer, "true")
}

// ---------------------------------------------------------------------------
// Laws
// ---------------------------------------------------------------------------

/// A config file names no persona bundle.
proof fn lemma_file_sets_no_bundle(ls: Seq<Seq<char>>, bin: Seq<char>)
    ensures
        file_settings(ls, bin).persona_file is None,
    decreases ls.len(),
{
    if ls.len() > 0 {
        lemma_file_sets_no_bundle(ls.drop_last(), bin);
    }
}

/// A setting that the command line gives wins over the config file, and one
/// that the config file gives wins over what was there before (the defaults).
pub proof fn law_command_line_wins(c: ConfigView, file: Seq<char>, args: Seq<Seq<char>>, bin: Seq<char>, a: &Assets)
    ensures
        ({
            let f = file_settings(lines_spec(file), bin);
            let g = args_settings(args, 0, bin, no_settings());
            let r = apply_settings(apply_settings(c, f, a), g, a);
            &&& r.ranas == c.ranas
            &&& r.mode == match g.mode {
                Some(m) => m,
                None => match f.mode {
                    Some(m) => m,
                    None => c.mode,
                },
            }
            &&& r.persona == match g.persona {
                Some(l) => builtin_spec(persona_kind(l), a),
                None => match f.persona {
                    Some(l) => builtin_spec(persona_kind(l), a),
                    None => c.persona,
                },
            }
            &&& r.llm_server_url == match g.llm_server_url {
                Some(u) => u,
                None => match f.llm_server_url {
                    Some(u) => u,
                    None => c.llm_server_url,
                },
            }
            &&& r.model == match g.model {
                Some(m) => m,
                None => match f.model {
                    Some(m) => m,
                    None => c.model,
                },
            }
            &&& r.history_file == match g.history_file {
                Some(h) => h,
                None => match f.history_file {
                    Some(h) => h,
                    None => c.history_file,
                },
            }
            &&& r.persona_file == match g.persona_file {
                Some(p) => p,
                None => c.persona_file,
            }
        }),
{
    lemma_file_sets_no_bundle(lines_spec(file), bin);
}

/// Whether an argument, trimmed, is one of the options that set the mode.
pub open spec fn is_mode_option(arg: Seq<char>) -> bool {
    let a = trim_spec(arg);
    a == OPT_MODE@ || a == OPT_CLI@ || a == OPT_TUI@ || a == OPT_GUI@ || a == OPT_WEB@ || a == OPT_HELP@
}

/// An option is its own trimmed text.
proof fn lemma_option_trimmed(o: Seq<char>)
    requires
        o.len() > 0,
        o[0] == '-',
        !is_white(o.last()),
    ensures
        trim_spec(o) == o,
{
    assert(trim_start_spec(o) == o);
}

/// The options that set the mode, as the mode's own reading compares them.
proof fn lemma_mode_options()
    ensures
        OPT_MODE@ == seq!['-', '-', 'm', 'o', 'd', 'e'],
        OPT_CLI@ == seq!['-', '-', 'c', 'l', 'i'],
        OPT_TUI@ == seq!['-', '-', 't', 'u', 'i'],
        OPT_GUI@ == seq!['-', '-', 'g', 'u', 'i'],
        OPT_WEB@ == seq!['-', '-', 'w', 'e', 'b'],
        trim_spec(OPT_MODE@) == OPT_MODE@,
        trim_spec(OPT_CLI@) == OPT_CLI@,
        trim_spec(OPT_TUI@) == OPT_TUI@,
        trim_spec(OPT_GUI@) == OPT_GUI@,
        trim_spec(OPT_WEB@) == OPT_WEB@,
{
    reveal_strlit("--mode");
    reveal_strlit("--cli");
    reveal_strlit("--tui");
    reveal_strlit("--gui");
    reveal_strlit("--web");
    assert(OPT_MODE@ =~= seq!['-', '-', 'm', 'o', 'd', 'e']);
    assert(OPT_CLI@ =~= seq!['-', '-', 'c', 'l', 'i']);
    assert(OPT_TUI@ =~= seq!['-', '-', 't', 'u', 'i']);
    assert(OPT_GUI@ =~= seq!['-', '-', 'g', 'u', 'i']);
    assert(OPT_WEB@ =~= seq!['-', '-', 'w', 'e', 'b']);
    lemma_option_trimmed(OPT_MODE@);
    lemma_option_trimmed(OPT_CLI@);
    lemma_option_trimmed(OPT_TUI@);
    lemma_option_trimmed(OPT_GUI@);
    lemma_option_trimmed(OPT_WEB@);
}

/// Without an option that sets the mode, the command line leaves the mode
/// as it was.
proof fn lemma_args_keep_mode(args: Seq<Seq<char>>, i: int, bin: Seq<char>, acc: Settings)
    requires
        forall|k: int| i <= k < args.len() ==> !is_mode_option(#[trigger] args[k]),
    ensures
        args_settings(args, i, bin, acc).mode == acc.mode,
    decreases args.len() - i,
{
    if 0 <= i < args.len() {
        assert(!is_mode_option(args[i]));
        let a = trim_spec(args[i]);
        if a == OPT_CONFIG@ {
            lemma_args_keep_mode(args, i + 1, bin, acc);
        } else if a == OPT_PERSONA@ {
            if i + 1 < args.len() {
                lemma_args_keep_mode(args, i + 2, bin, Settings { persona: Some(trim_spec(args[i + 1])), ..acc });
            }
        } else if a == OPT_URL@ {
            if i + 1 < args.len() {
                lemma_args_keep_mode(args, i + 2, bin, Settings { llm_server_url: Some(trim_spec(args[i + 1])), ..acc });
            }
        } else if a == OPT_MODEL@ {
            if i + 1 < args.len() {
                lemma_args_keep_mode(args, i + 2, bin, Settings { model: Some(trim_spec(args[i + 1])), ..acc });
            }
        } else if a == OPT_HISTORY@ {
            if i + 1 < args.len() {
                lemma_args_keep_mode(args, i + 2, bin, Settings { history_file: Some(trim_spec(args[i + 1])), ..acc });
            }
        } else if a == OPT_PERSONA_FILE@ {
            if i + 1 < args.len() {
                lemma_args_keep_mode(args, i + 2, bin, Settings { persona_file: Some(trim_spec(args[i + 1])), ..acc });
            }
        } else {
            lemma_args_keep_mode(args, i + 1, bin, acc);
        }
    }
}

/// Without an option that sets the mode, the mode read from the command line
/// is the program file's.
proof fn lemma_args_default_mode(args: Seq<Seq<char>>, i: int, bin: Seq<char>)
    requires
        forall|k: int| 0 <= k < args.len() ==> !is_mode_option(#[trigger] args[k]),
    ensures
        mode_from_args_spec(args, i, bin) == mode_of_bin(bin),
    decreases args.len() - i,
{
    lemma_mode_options();
    if 0 <= i < args.len() {
        assert(!is_mode_option(args[i]));
        lemma_args_default_mode(args, i + 1, bin);
    }
}

/// Whether an argument, trimmed, is one of the options that the command line
/// reads.
pub open spec fn is_option(arg: Seq<char>) -> bool {
    let a = trim_spec(arg);
    ||| a == OPT_CONFIG@
    ||| a == OPT_PERSONA@
    ||| a == OPT_URL@
    ||| a == OPT_MODEL@
    ||| a == OPT_HISTORY@
    ||| a == OPT_PERSONA_FILE@
    ||| is_mode_option(arg)
}

/// Words that are no options are passed over.
proof fn lemma_args_skip_words(args: Seq<Seq<char>>, j: int, i: int, bin: Seq<char>, acc: Settings)
    requires
        0 <= j <= i <= args.len(),
        forall|k: int| j <= k < i ==> !is_option(#[trigger] args[k]),
    ensures
        args_settings(args, j, bin, acc) == args_settings(args, i, bin, acc),
    decreases i - j,
{
    if j < i {
        assert(!is_option(args[j]));
        lemma_args_skip_words(args, j + 1, i, bin, acc);
    }
}

/// `--mode` differs from the options that take a value before it is looked at.
proof fn lemma_mode_option_apart()
    ensures
        OPT_MODE@ != OPT_CONFIG@,
        OPT_MODE@ != OPT_PERSONA@,
        OPT_MODE@ != OPT_URL@,
        OPT_MODE@ != OPT_MODEL@,
        OPT_MODE@ != OPT_HISTORY@,
        OPT_MODE@ != OPT_PERSONA_FILE@,
{
    reveal_strlit("--mode");
    reveal_strlit("--config");
    reveal_strlit("--persona");
    reveal_strlit("--llm-server-url");
    reveal_strlit("--model");
    reveal_strlit("--history-file");
    reveal_strlit("--persona-file");
    assert(OPT_MODE@.len() == 6);
    assert(OPT_CONFIG@.len() == 8);
    assert(OPT_PERSONA@.len() == 9);
    assert(OPT_URL@.len() == 16);
    assert(OPT_MODEL@.len() == 7);
    assert(OPT_HISTORY@.len() == 14);
    assert(OPT_PERSONA_FILE@.len() == 14);
}

/// `--mode m`, after words that are no options and with no option that sets
/// the mode after it, sets the mode that `m` names, whatever the mode was
/// and whatever the program's name.
pub proof fn law_mode_option_sets_mode(c: ConfigView, args: Seq<Seq<char>>, i: int, bin: Seq<char>, a: &Assets, m: Mode)
    requires
        0 <= i,
        i + 1 < args.len(),
        forall|k: int| 0 <= k < i ==> !is_option(#[trigger] args[k]),
        trim_spec(args[i]) == OPT_MODE@,
        mode_named(args[i + 1]) == Some(m),
        forall|k: int| i + 1 < k < args.len() ==> !is_mode_option(#[trigger] args[k]),
    ensures
        apply_settings(c, args_settings(args, 0, bin, no_settings()), a).mode == m,
{
    lemma_args_skip_words(args, 0, i, bin, no_settings());
    law_last_mode_option_wins(c, args, i, bin, no_settings(), a, m);
}

/// Wherever the reading of the command line stands at `--mode m`, whatever
/// the options before it set, the mode is the one that `m` names when no
/// option after it sets the mode.
pub proof fn law_last_mode_option_wins(
    c: ConfigView,
    args: Seq<Seq<char>>,
    i: int,
    bin: Seq<char>,
    before: Settings,
    a: &Assets,
    m: Mode,
)
    requires
        0 <= i,
        i + 1 < args.len(),
        trim_spec(args[i]) == OPT_MODE@,
        mode_named(args[i + 1]) == Some(m),
        forall|k: int| i + 1 < k < args.len() ==> !is_mode_option(#[trigger] args[k]),
    ensures
        apply_settings(c, args_settings(args, i, bin, before), a).mode == m,
{
    lemma_mode_option_apart();
    let acc = Settings { mode: Some(mode_from_str_spec(args[i + 1], bin)), ..before };
    assert(args_settings(args, i, bin, before) == args_settings(args, i + 2, bin, acc));
    lemma_args_keep_mode(args, i + 2, bin, acc);
}

/// The program file's name decides the mode only where neither the config
/// file nor the command line sets one: with no option that sets the mode,
/// the mode is the config file's where it names one, else the program
/// file's.
pub proof fn law_program_name_sets_default_mode(file: Seq<char>, args: Seq<Seq<char>>, bin: Seq<char>, a: &Assets, c: ConfigView)
    requires
        c.mode == mode_from_args_spec(args, 0, bin),
        forall|k: int| 0 <= k < args.len() ==> !is_mode_option(#[trigger] args[k]),
    ensures
        apply_settings(
            apply_settings(c, file_settings(lines_spec(file), bin), a),
            args_settings(args, 0, bin, no_settings()),
            a,
        ).mode == match file_settings(lines_spec(file), bin).mode {
            Some(m) => m,
            None => mode_of_bin(bin),
        },
{
    lemma_args_keep_mode(args, 0, bin, no_settings());
    lemma_args_default_mode(args, 0, bin);
}

/// A value that a line of the config file reads back as written: it holds
/// no line break and has no white space at either end.
pub open spec fn keeps_value(v: Seq<char>) -> bool {
    &&& forall|k: int| 0 <= k < v.len() ==> v[k] != '\n'
    &&& v.len() > 0 ==> !is_white(v[0]) && !is_white(v.last())
}

/// A key that a line of the config file can name: it begins with neither
/// white space nor `#`, and holds no `:` and no line break.
spec fn plain_key(key: Seq<char>) -> bool {
    &&& key.len() > 0
    &&& !is_white(key[0])
    &&& key[0] != '#'
    &&& forall|k: int| 0 <= k < key.len() ==> key[k] != ':' && key[k] != '\n'
}

/// The line that sets a plain key holds no line break and does not end in `\r`.
proof fn lemma_setting_line_plain(key: Seq<char>, v: Seq<char>)
    requires
        plain_key(key),
        keeps_value(v),
    ensures
        setting_line(key, v).len() > 0,
        strip_cr(setting_line(key, v)) == setting_line(key, v),
        forall|k: int| 0 <= k < setting_line(key, v).len() ==> setting_line(key, v)[k] != '\n',
{
    let line = setting_line(key, v);
    assert forall|k: int| 0 <= k < line.len() implies line[k] != '\n' by {
        if k < key.len() {
            assert(line[k] == key[k]);
        } else if k >= key.len() + 2 {
            assert(line[k] == v[k - key.len() - 2]);
        }
    }
    if v.len() > 0 {
        assert(line.last() == v.last());
    }
}

/// The line `key: value` of the config file reads as that key and value.
proof fn lemma_setting_line(key: Seq<char>, v: Seq<char>)
    requires
        plain_key(key),
        keeps_value(v),
    ensures
        ({
            let line = setting_line(key, v);
            let t = trim_spec(line);
            let parts = split_spec(t, seq![':']);
            &&& t.len() > 0
            &&& !starts_with_spec(t, seq!['#'])
            &&& parts.len() > 1
            &&& parts[0] == key
            &&& trim_start_spec(join_spec(parts.skip(1), seq![':'])) == v
        }),
{
    let line = setting_line(key, v);
    assert(line[0] == key[0]);
    assert(trim_start_spec(line) == line);
    if v.len() > 0 {
        assert(line.last() == v.last());
        assert(trim_end_spec(line) == line);
        let rest = seq![' '] + v;
        assert(line =~= key + seq![':'] + rest);
        lemma_split_char_first(key, ':', rest);
        let parts = split_spec(line, seq![':']);
        lemma_split_nonempty(rest, seq![':'], 0);
        assert(parts.skip(1) =~= split_spec(rest, seq![':']));
        lemma_join_split(rest, seq![':'], 0);
        assert(rest.subrange(0, rest.len() as int) =~= rest);
        assert(rest.drop_first() =~= v);
        assert(trim_start_spec(rest) == trim_start_spec(v));
        assert(trim_start_spec(v) == v);
        assert(line.subrange(0, 1)[0] == key[0]);
    } else {
        let t = key + seq![':'];
        assert(line.drop_last() =~= t);
        assert(trim_end_spec(line) == trim_end_spec(t));
        assert(trim_end_spec(t) == t);
        assert(t =~= key + seq![':'] + Seq::<char>::empty());
        lemma_split_char_first(key, ':', Seq::<char>::empty());
        lemma_split_char_none(Seq::<char>::empty(), ':');
        let parts = split_spec(t, seq![':']);
        assert(parts.skip(1) =~= seq![Seq::<char>::empty()]);
        assert(join_spec(parts.skip(1), seq![':']) == Seq::<char>::empty());
        assert(trim_start_spec(v) == v);
        assert(t.subrange(0, 1)[0] == key[0]);
    }
}

/// What the line that sets one of the keys sets.
proof fn lemma_setting_line_sets(acc: Settings, key: Seq<char>, v: Seq<char>, bin: Seq<char>)
    requires
        key == KEY_MODE@ || key == KEY_PERSONA@ || key == KEY_URL@ || key == KEY_MODEL@ || key == KEY_HISTORY@,
        keeps_value(v),
    ensures
        key == KEY_MODE@ ==> file_line_settings(acc, setting_line(key, v), bin) == (Settings {
            mode: Some(mode_from_str_spec(v, bin)),
            ..acc
        }),
        key == KEY_PERSONA@ ==> file_line_settings(acc, setting_line(key, v), bin) == (Settings {
            persona: Some(v),
            ..acc
        }),
        key == KEY_URL@ ==> file_line_settings(acc, setting_line(key, v), bin) == (Settings {
            llm_server_url: Some(v),
            ..acc
        }),
        key == KEY_MODEL@ ==> file_line_settings(acc, setting_line(key, v), bin) == (Settings {
            model: Some(v),
            ..acc
        }),
        key == KEY_HISTORY@ ==> file_line_settings(acc, setting_line(key, v), bin) == (Settings {
            history_file: Some(v),
            ..acc
        }),
{
    lemma_keys();
    lemma_setting_line(key, v);
}

/// The keys of the config file are plain, and differ from one another.
proof fn lemma_keys()
    ensures
        plain_key(KEY_MODE@),
        plain_key(KEY_PERSONA@),
        plain_key(KEY_URL@),
        plain_key(KEY_MODEL@),
        plain_key(KEY_HISTORY@),
        KEY_MODE@ != KEY_PERSONA@,
        KEY_MODE@ != KEY_URL@,
        KEY_MODE@ != KEY_MODEL@,
        KEY_MODE@ != KEY_HISTORY@,
        KEY_PERSONA@ != KEY_URL@,
        KEY_PERSONA@ != KEY_MODEL@,
        KEY_PERSONA@ != KEY_HISTORY@,
        KEY_URL@ != KEY_MODEL@,
        KEY_URL@ != KEY_HISTORY@,
        KEY_MODEL@ != KEY_HISTORY@,
{
    reveal_strlit("mode");
    reveal_strlit("persona");
    reveal_strlit("llm_server_url");
    reveal_strlit("model");
    reveal_strlit("history_file");
}

/// The lines of the config file written for some settings read back as
/// those lines.
proof fn lemma_config_lines(c: ConfigView)
    requires
        c.mode != Mode::Help,
        keeps_value(lowercase_of(c.persona.name)),
        keeps_value(c.llm_server_url),
        keeps_value(c.model),
        keeps_value(c.history_file),
    ensures
        lines_spec(file_text_spec(c)) == config_lines(c),
{
    lemma_keys();
    let ls = config_lines(c);
    assert(keeps_value(mode_name(c.mode)));
    lemma_setting_line_plain(KEY_MODE@, mode_name(c.mode));
    lemma_setting_line_plain(KEY_PERSONA@, lowercase_of(c.persona.name));
    lemma_setting_line_plain(KEY_URL@, c.llm_server_url);
    lemma_setting_line_plain(KEY_MODEL@, c.model);
    lemma_setting_line_plain(KEY_HISTORY@, c.history_file);
    assert forall|i: int, k: int| 0 <= i < ls.len() && 0 <= k < ls[i].len() implies ls[i][k] != '\n' by {
        if i == 0 {
        } else if i == 1 {
        } else if i == 2 {
        } else if i == 3 {
        } else {
        }
    }
    lemma_lines_join(ls);
}

/// What the lines of the config file written for some settings set.
proof fn lemma_config_settings(c: ConfigView, bin: Seq<char>)
    requires
        keeps_value(mode_name(c.mode)),
        keeps_value(lowercase_of(c.persona.name)),
        keeps_value(c.llm_server_url),
        keeps_value(c.model),
        keeps_value(c.history_file),
    ensures
        file_settings(config_lines(c), bin) == (Settings {
            mode: Some(mode_from_str_spec(mode_name(c.mode), bin)),
            persona: Some(lowercase_of(c.persona.name)),
            llm_server_url: Some(c.llm_server_url),
            model: Some(c.model),
            history_file: Some(c.history_file),
            persona_file: None,
        }),
{
    let n = mode_name(c.mode);
    let p = lowercase_of(c.persona.name);
    let lines = config_lines(c);
    let s0 = no_settings();
    let s1 = file_line_settings(s0, lines[0], bin);
    let s2 = file_line_settings(s1, lines[1], bin);
    let s3 = file_line_settings(s2, lines[2], bin);
    let s4 = file_line_settings(s3, lines[3], bin);
    let s5 = file_line_settings(s4, lines[4], bin);
    lemma_setting_line_sets(s0, KEY_MODE@, n, bin);
    lemma_setting_line_sets(s1, KEY_PERSONA@, p, bin);
    lemma_setting_line_sets(s2, KEY_URL@, c.llm_server_url, bin);
    lemma_setting_line_sets(s3, KEY_MODEL@, c.model, bin);
    lemma_setting_line_sets(s4, KEY_HISTORY@, c.history_file, bin);
    assert(lines.drop_last() =~= seq![lines[0], lines[1], lines[2], lines[3]]);
    assert(lines.drop_last().drop_last() =~= seq![lines[0], lines[1], lines[2]]);
    assert(lines.drop_last().drop_last().drop_last() =~= seq![lines[0], lines[1]]);
    assert(lines.drop_last().drop_last().drop_last().drop_last() =~= seq![lines[0]]);
    assert(seq![lines[0]].drop_last() =~= Seq::<Seq<char>>::empty());
    assert(file_settings(Seq::<Seq<char>>::empty(), bin) == s0);
    assert(seq![lines[0]].last() == lines[0]);
    assert(file_settings(seq![lines[0]], bin) == s1);
    assert(file_settings(seq![lines[0], lines[1]], bin) == s2);
    assert(file_settings(seq![lines[0], lines[1], lines[2]], bin) == s3);
    assert(file_settings(seq![lines[0], lines[1], lines[2], lines[3]], bin) == s4);
    assert(file_settings(lines, bin) == s5);
}

/// A config file written for some settings reads back as those settings:
/// its mode, server, model and history file, and the persona that the
/// lower-cased name selects. The mode `help` has no name that reads back,
/// and a value with a line break or white space at either end does not
/// read back as written.
pub proof fn law_written_config_reads_back(c: ConfigView, d: ConfigView, bin: Seq<char>, a: &Assets)
    requires
        c.mode != Mode::Help,
        keeps_value(lowercase_of(c.persona.name)),
        keeps_value(c.llm_server_url),
        keeps_value(c.model),
        keeps_value(c.history_file),
    ensures
        ({
            let r = apply_settings(d, file_settings(lines_spec(file_text_spec(c)), bin), a);
            &&& r.ranas == d.ranas
            &&& r.mode == c.mode
            &&& r.persona == builtin_spec(persona_kind(lowercase_of(c.persona.name)), a)
            &&& r.llm_server_url == c.llm_server_url
            &&& r.model == c.model
            &&& r.history_file == c.history_file
        }),
{
    law_mode_name_round_trip(c.mode);
    assert(keeps_value(mode_name(c.mode)));
    lemma_config_lines(c);
    lemma_config_settings(c, bin);
}

} // verus!
