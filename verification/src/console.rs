//! What the terminal and the window interfaces share: completing a command
//! with the Tab key, walking through earlier inputs, and the texts of the
//! messages that answer a command.
use vstd::prelude::*;

use crate::text::{
    chars_of, concat, concat3, is_blank, is_white, join, join_spec, lowercase_of, skip_chars, split_whitespace,
    starts_with, starts_with_spec, text_eq, texts, to_lowercase, trim_spec, words_spec,
};

verus! {

/// What the interface must do after an event, beyond what the state shows.
#[derive(Debug, Clone, Copy, PartialEq, Eq, Structural)]
pub enum ActionKind {
    /// Nothing more.
    Nothing,
    /// Leave the program.
    Exit,
    /// Start the conversation with the current persona anew.
    Reset,
    /// Start a conversation with the persona whose label is the argument.
    SwitchPersona,
    /// Save the history to the file named by the argument.
    Save,
    /// Load the history from the file named by the argument.
    Load,
    /// Send the argument to the persona.
    Chat,
    /// Set the scene of the conversation to the argument.
    SetScene,
}

/// An action and its text argument (empty where it takes none).
pub struct Action {
    pub kind: ActionKind,
    pub arg: String,
}

/// What the handlers read of the surroundings.
pub struct ConsoleContext {
    /// The name of the persona spoken to.
    pub persona_name: String,
    /// What the persona says where no answer came.
    pub dismissal: String,
    /// The file for saving and loading, where a command names none.
    pub history_file: String,
    /// The labels of the personas that can be switched to.
    pub personas: Vec<String>,
}

/// The sender name of lines from the program.
pub const SYSTEM: &'static str = "System";
/// The sender name of lines typed by the user.
pub const YOU: &'static str = "You";

pub const CMD_CLEAR: &'static str = "/clear";
pub const CMD_RESET: &'static str = "/reset";
pub const CMD_PERSONA: &'static str = "/persona";
pub const CMD_SCENE: &'static str = "/scene";
pub const CMD_SAVE: &'static str = "/save";
pub const CMD_LOAD: &'static str = "/load";
pub const CMD_EXIT: &'static str = "/exit";
pub const CMD_QUIT: &'static str = "/quit";
pub const CMD_HELP: &'static str = "/help";

pub const PERSONA_PREFIX: &'static str = "/persona ";
pub const LOAD_PREFIX: &'static str = "/load ";
pub const SAVE_PREFIX: &'static str = "/save ";

pub const WORD_EXIT: &'static str = "exit";
pub const WORD_QUIT: &'static str = "quit";

pub const MSG_VALID_PERSONA: &'static str = "Please provide a valid persona: ";
pub const MSG_SAVED_HEAD: &'static str = "History successfully saved to ";
pub const MSG_SAVED_TAIL: &'static str = ".";
pub const MSG_SAVE_ERROR: &'static str = "Save error: ";
pub const MSG_LOADED_HEAD: &'static str = "History loaded from ";
pub const MSG_LOADED_TAIL: &'static str = " successfully.";
pub const MSG_LOAD_ERROR: &'static str = "Load error: ";
pub const MSG_UNKNOWN_HEAD: &'static str = "Unknown command: '";
pub const MSG_UNKNOWN_TAIL: &'static str = "'. Type /help for available commands.";
pub const MSG_SCENE_SET: &'static str = "Scene has been set to: ";
pub const MSG_NO_SCENE: &'static str = "Please provide a scene.";

/// The help text before the list of personas.
pub const HELP_HEAD: &'static str = "Available Commands:\n\n/help  - Display this utility command list.\n/clear  - Clear the dispayed chat logs completely.\n/reset  - Resets the current persona.\n/persona [persona]  - Switches the active persona, 'persona' must be one of ";
/// The terminal's help text after the list of personas.
pub const TUI_HELP_TAIL: &'static str = ".\n/exit  - Safely close and exit the application.\n/quit  - Also safely closes and exits the application.\n/save [filename]  - Save session to a file (or configuration default).\n/load [filename]  - Restore session and model context from a file.\n";
/// The window's help text after the list of personas.
pub const GUI_HELP_TAIL: &'static str = ".\n/scene  - Sets the scene for the conversation, argument should be a single sentence.\n/exit  - Safely close and exit the application.\n/quit  - Also safely closes and exits the application.\n/save [filename]  - Save session to a file (or configuration default).\n/load [filename]  - Restore session and model context from a file.\n";

// ---------------------------------------------------------------------------
// Order of texts
// ---------------------------------------------------------------------------

/// `a` comes before `b` in the order of `String` (by character codes, a
/// prefix first).
pub open spec fn lex_lt(a: Seq<char>, b: Seq<char>) -> bool
    decreases a.len(),
{
    if a.len() == 0 {
        b.len() > 0
    } else if b.len() == 0 {
        false
    } else if (a[0] as int) < (b[0] as int) {
        true
    } else if (a[0] as int) > (b[0] as int) {
        false
    } else {
        lex_lt(a.drop_first(), b.drop_first())
    }
}

/// The order is strict.
pub proof fn lemma_lex_irreflexive(a: Seq<char>)
    ensures
        !lex_lt(a, a),
    decreases a.len(),
{
    if a.len() > 0 {
        lemma_lex_irreflexive(a.drop_first());
    }
}

/// The order is transitive.
pub proof fn lemma_lex_transitive(a: Seq<char>, b: Seq<char>, c: Seq<char>)
    requires
        lex_lt(a, b),
        lex_lt(b, c),
    ensures
        lex_lt(a, c),
    decreases a.len(),
{
    if a.len() > 0 && b.len() > 0 && c.len() > 0 {
        if a[0] == b[0] && b[0] == c[0] {
            lemma_lex_transitive(a.drop_first(), b.drop_first(), c.drop_first());
        }
    }
}

/// Any two different texts are ordered one way.
pub proof fn lemma_lex_total(a: Seq<char>, b: Seq<char>)
    requires
        a != b,
    ensures
        lex_lt(a, b) || lex_lt(b, a),
    decreases a.len(),
{
    if a.len() > 0 && b.len() > 0 && a[0] == b[0] {
        if a.drop_first() == b.drop_first() {
            assert(a =~= seq![a[0]] + a.drop_first());
            assert(b =~= seq![b[0]] + b.drop_first());
        }
        lemma_lex_total(a.drop_first(), b.drop_first());
    } else if a.len() > 0 && b.len() > 0 {
        assert((a[0] as int) != (b[0] as int));
    } else if a.len() == 0 && b.len() == 0 {
        assert(a =~= b);
    }
}

/// Whether `a` comes before `b` (`a < b` on `String`).
pub fn text_less(a: &str, b: &str) -> (res: bool)
    ensures
        res == lex_lt(a@, b@),
{
    let x = chars_of(a);
    let y = chars_of(b);
    let mut i: usize = 0;
    assert(x@.skip(0) =~= x@);
    assert(y@.skip(0) =~= y@);
    while i < x.len() && i < y.len() && x[i] == y[i]
        invariant
            x@ == a@,
            y@ == b@,
            i <= x@.len(),
            i <= y@.len(),
            lex_lt(a@, b@) == lex_lt(x@.skip(i as int), y@.skip(i as int)),
        decreases x@.len() - i,
    {
        assert(x@.skip(i as int).drop_first() =~= x@.skip(i + 1));
        assert(y@.skip(i as int).drop_first() =~= y@.skip(i + 1));
        i = i + 1;
    }
    if i == x.len() {
        i < y.len()
    } else if i == y.len() {
        false
    } else {
        x[i] < y[i]
    }
}

// ---------------------------------------------------------------------------
// Completing a persona label
// ---------------------------------------------------------------------------

/// A label that the typed `prefix` completes to: its lower case begins with
/// the prefix's lower case.
pub open spec fn label_matches(label: Seq<char>, prefix: Seq<char>) -> bool {
    starts_with_spec(lowercase_of(label), lowercase_of(prefix))
}

/// `x` is one of `labels` that `prefix` completes to, and comes after `above`
/// where that is given.
pub open spec fn candidate(labels: Seq<Seq<char>>, prefix: Seq<char>, above: Option<Seq<char>>, x: Seq<char>) -> bool {
    &&& labels.contains(x)
    &&& label_matches(x, prefix)
    &&& above matches Some(p) ==> lex_lt(p, x)
}

/// The first candidate in the order of texts.
pub open spec fn least_candidate(labels: Seq<Seq<char>>, prefix: Seq<char>, above: Option<Seq<char>>) -> Seq<char> {
    choose|x: Seq<char>|
        candidate(labels, prefix, above, x) && forall|y: Seq<char>| #[trigger]
            candidate(labels, prefix, above, y) ==> x == y || lex_lt(x, y)
}

/// The label that Tab puts after `/persona `: of the labels that the typed
/// text completes to, taken in order, the one after the typed text where that
/// is one of them (going round to the first), else the first; none where no
/// label matches.
pub open spec fn next_label_spec(labels: Seq<Seq<char>>, prefix: Seq<char>) -> Option<Seq<char>> {
    if !exists|x: Seq<char>| candidate(labels, prefix, None, x) {
        None
    } else if candidate(labels, prefix, None, prefix) && exists|x: Seq<char>| candidate(labels, prefix, Some(prefix), x) {
        Some(least_candidate(labels, prefix, Some(prefix)))
    } else {
        Some(least_candidate(labels, prefix, None))
    }
}

/// A least candidate is the one that `least_candidate` names.
proof fn lemma_least_unique(labels: Seq<Seq<char>>, prefix: Seq<char>, above: Option<Seq<char>>, x: Seq<char>)
    requires
        candidate(labels, prefix, above, x),
        forall|y: Seq<char>| #[trigger] candidate(labels, prefix, above, y) ==> x == y || lex_lt(x, y),
    ensures
        least_candidate(labels, prefix, above) == x,
{
    let z = least_candidate(labels, prefix, above);
    assert(candidate(labels, prefix, above, z));
    if z != x {
        assert(lex_lt(x, z));
        assert(lex_lt(z, x));
        lemma_lex_transitive(x, z, x);
        lemma_lex_irreflexive(x);
    }
}

/// Whether the label `l` is one that `prefix_lower` (a lower-cased prefix)
/// completes to.
fn matches_label(l: &str, prefix_lower: &str) -> (res: bool)
    ensures
        res == starts_with_spec(lowercase_of(l@), prefix_lower@),
{
    let ll = to_lowercase(l);
    starts_with(ll.as_str(), prefix_lower)
}

/// The label that Tab completes `prefix` to.
pub fn next_label(labels: &Vec<String>, prefix: &str) -> (res: Option<String>)
    ensures
        match res {
            Some(s) => next_label_spec(texts(labels@), prefix@) == Some(s@),
            None => next_label_spec(texts(labels@), prefix@) is None,
        },
        res matches Some(s) ==> texts(labels@).contains(s@) && label_matches(s@, prefix@),
{
    let ghost ls = texts(labels@);
    let prefix_lower = to_lowercase(prefix);
    let mut least: Option<usize> = None;
    let mut next: Option<usize> = None;
    let mut present = false;
    let mut i: usize = 0;
    while i < labels.len()
        invariant
            ls == texts(labels@),
            prefix_lower@ == lowercase_of(prefix@),
            i <= labels@.len(),
            present == exists|k: int| 0 <= k < i && ls[k] == prefix@ && label_matches(ls[k], prefix@),
            match least {
                Some(m) => m < i && label_matches(ls[m as int], prefix@) && forall|k: int|
                    0 <= k < i && #[trigger] label_matches(ls[k], prefix@) ==> ls[m as int] == ls[k] || lex_lt(ls[m as int], ls[k]),
                None => forall|k: int| 0 <= k < i ==> !#[trigger] label_matches(ls[k], prefix@),
            },
            match next {
                Some(m) => m < i && label_matches(ls[m as int], prefix@) && lex_lt(prefix@, ls[m as int]) && forall|k: int|
                    0 <= k < i && #[trigger] label_matches(ls[k], prefix@) && lex_lt(prefix@, ls[k]) ==> ls[m as int] == ls[k]
                        || lex_lt(ls[m as int], ls[k]),
                None => forall|k: int| 0 <= k < i && #[trigger] label_matches(ls[k], prefix@) ==> !lex_lt(prefix@, ls[k]),
            },
        decreases labels@.len() - i,
    {
        let l = labels[i].as_str();
        assert(ls[i as int] == l@);
        if matches_label(l, prefix_lower.as_str()) {
            if text_eq(l, prefix) {
                present = true;
            }
            match least {
                Some(m) => {
                    if text_less(l, labels[m].as_str()) {
                        proof {
                            assert forall|k: int| 0 <= k < i + 1 && #[trigger] label_matches(ls[k], prefix@) implies ls[i as int] == ls[k]
                                || lex_lt(ls[i as int], ls[k]) by {
                                if k < i && ls[m as int] != ls[k] {
                                    lemma_lex_transitive(ls[i as int], ls[m as int], ls[k]);
                                }
                            }
                        }
                        least = Some(i);
                    } else {
                        proof {
                            if ls[m as int] != ls[i as int] {
                                lemma_lex_total(ls[m as int], ls[i as int]);
                            }
                        }
                    }
                },
                None => {
                    least = Some(i);
                },
            }
            if text_less(prefix, l) {
                match next {
                    Some(m) => {
                        if text_less(l, labels[m].as_str()) {
                            proof {
                                assert forall|k: int| 0 <= k < i + 1 && #[trigger] label_matches(ls[k], prefix@) && lex_lt(prefix@, ls[k]) implies ls[i as int]
                                    == ls[k] || lex_lt(ls[i as int], ls[k]) by {
                                    if k < i && ls[m as int] != ls[k] {
                                        lemma_lex_transitive(ls[i as int], ls[m as int], ls[k]);
                                    }
                                }
                            }
                            next = Some(i);
                        } else {
                            proof {
                                if ls[m as int] != ls[i as int] {
                                    lemma_lex_total(ls[m as int], ls[i as int]);
                                }
                            }
                        }
                    },
                    None => {
                        next = Some(i);
                    },
                }
            }
        }
        i = i + 1;
    }
    proof {
        assert forall|x: Seq<char>| #[trigger] candidate(ls, prefix@, None, x) implies exists|k: int| 0 <= k < ls.len() && ls[k] == x && label_matches(ls[k], prefix@) by {
            let k = choose|k: int| 0 <= k < ls.len() && ls[k] == x;
        }
    }
    match least {
        None => {
            proof {
                assert(!exists|x: Seq<char>| candidate(ls, prefix@, None, x));
            }
            None
        },
        Some(m) => {
            proof {
                let lm = ls[m as int];
                assert(candidate(ls, prefix@, None, lm));
                assert forall|y: Seq<char>| #[trigger] candidate(ls, prefix@, None, y) implies lm == y || lex_lt(lm, y) by {
                    let k = choose|k: int| 0 <= k < ls.len() && ls[k] == y;
                    assert(label_matches(ls[k], prefix@));
                }
                lemma_least_unique(ls, prefix@, None, lm);
            }
            if present {
                match next {
                    Some(n) => {
                        proof {
                            let ln = ls[n as int];
                            let k0 = choose|k: int| 0 <= k < labels@.len() && ls[k] == prefix@ && label_matches(ls[k], prefix@);
                            assert(candidate(ls, prefix@, None, prefix@));
                            assert(candidate(ls, prefix@, Some(prefix@), ln));
                            assert forall|y: Seq<char>| #[trigger] candidate(ls, prefix@, Some(prefix@), y) implies ln == y || lex_lt(ln, y) by {
                                let k = choose|k: int| 0 <= k < ls.len() && ls[k] == y;
                                assert(label_matches(ls[k], prefix@));
                            }
                            lemma_least_unique(ls, prefix@, Some(prefix@), ln);
                            assert(ls.contains(ln));
                        }
                        Some(labels[n].clone())
                    },
                    None => {
                        proof {
                            let k0 = choose|k: int| 0 <= k < labels@.len() && ls[k] == prefix@ && label_matches(ls[k], prefix@);
                            assert(candidate(ls, prefix@, None, prefix@));
                            assert forall|x: Seq<char>| !candidate(ls, prefix@, Some(prefix@), x) by {
                                if candidate(ls, prefix@, Some(prefix@), x) {
                                    let k = choose|k: int| 0 <= k < ls.len() && ls[k] == x;
                                    assert(label_matches(ls[k], prefix@));
                                }
                            }
                            assert(ls.contains(ls[m as int]));
                        }
                        Some(labels[m].clone())
                    },
                }
            } else {
                proof {
                    if candidate(ls, prefix@, None, prefix@) {
                        let k = choose|k: int| 0 <= k < ls.len() && ls[k] == prefix@;
                        assert(label_matches(ls[k], prefix@));
                    }
                    assert(ls.contains(ls[m as int]));
                }
                Some(labels[m].clone())
            }
        },
    }
}

// ---------------------------------------------------------------------------
// Tab completion
// ---------------------------------------------------------------------------

/// The characters of `s` from position `n` on (none where it is shorter).
pub open spec fn drop_chars(s: Seq<char>, n: int) -> Seq<char> {
    if n <= s.len() {
        s.subrange(n, s.len() as int)
    } else {
        Seq::empty()
    }
}

/// The first command of `commands` that begins with `typed`.
pub open spec fn first_command_from(commands: Seq<Seq<char>>, typed: Seq<char>, i: int) -> Option<Seq<char>>
    decreases commands.len() - i,
{
    if i < 0 || i >= commands.len() {
        None
    } else if starts_with_spec(commands[i], typed) {
        Some(commands[i])
    } else {
        first_command_from(commands, typed, i + 1)
    }
}

/// What Tab turns the typed text into (`None`: the text stays): after
/// `/persona `, the next persona label; after `/load ` or `/save ` with
/// nothing after it, the history file; else, where the text (of more than
/// one character) is not yet a command, the first command that begins with it.
pub open spec fn tab_spec(
    input: Seq<char>,
    labels: Seq<Seq<char>>,
    history_file: Seq<char>,
    commands: Seq<Seq<char>>,
) -> Option<Seq<char>> {
    let cur = lowercase_of(input);
    if !(input.len() > 0 && input[0] == '/') {
        None
    } else if starts_with_spec(cur, PERSONA_PREFIX@) {
        match next_label_spec(labels, drop_chars(input, PERSONA_PREFIX@.len() as int)) {
            Some(n) => Some(PERSONA_PREFIX@ + n),
            None => None,
        }
    } else if starts_with_spec(cur, LOAD_PREFIX@) {
        if trim_spec(drop_chars(input, LOAD_PREFIX@.len() as int)).len() == 0 {
            Some(LOAD_PREFIX@ + history_file)
        } else {
            None
        }
    } else if starts_with_spec(cur, SAVE_PREFIX@) {
        if trim_spec(drop_chars(input, SAVE_PREFIX@.len() as int)).len() == 0 {
            Some(SAVE_PREFIX@ + history_file)
        } else {
            None
        }
    } else if input.len() > 1 {
        if exists|k: int| 0 <= k < commands.len() && starts_with_spec(cur, #[trigger] commands[k]) {
            None
        } else {
            first_command_from(commands, cur, 0)
        }
    } else {
        None
    }
}

/// The commands that the terminal completes to.
pub open spec fn tui_commands_spec() -> Seq<Seq<char>> {
    seq![CMD_CLEAR@, CMD_RESET@, PERSONA_PREFIX@, SAVE_PREFIX@, LOAD_PREFIX@, CMD_EXIT@, CMD_QUIT@, CMD_HELP@]
}

/// The commands that the window completes to.
pub open spec fn gui_commands_spec() -> Seq<Seq<char>> {
    seq![CMD_CLEAR@, CMD_RESET@, PERSONA_PREFIX@, SCENE_PREFIX@, SAVE_PREFIX@, LOAD_PREFIX@, CMD_EXIT@, CMD_QUIT@, CMD_HELP@]
}

/// The commands that the terminal completes to.
pub fn tui_commands() -> (res: Vec<String>)
    ensures
        texts(res@) == tui_commands_spec(),
{
    let res = vec![
        String::from_str(CMD_CLEAR),
        String::from_str(CMD_RESET),
        String::from_str(PERSONA_PREFIX),
        String::from_str(SAVE_PREFIX),
        String::from_str(LOAD_PREFIX),
        String::from_str(CMD_EXIT),
        String::from_str(CMD_QUIT),
        String::from_str(CMD_HELP),
    ];
    assert(texts(res@) =~= seq![CMD_CLEAR@, CMD_RESET@, PERSONA_PREFIX@, SAVE_PREFIX@, LOAD_PREFIX@, CMD_EXIT@, CMD_QUIT@, CMD_HELP@]);
    res
}

/// The commands that the window completes to.
pub fn gui_commands() -> (res: Vec<String>)
    ensures
        texts(res@) == gui_commands_spec(),
{
    let res = vec![
        String::from_str(CMD_CLEAR),
        String::from_str(CMD_RESET),
        String::from_str(PERSONA_PREFIX),
        String::from_str(SCENE_PREFIX),
        String::from_str(SAVE_PREFIX),
        String::from_str(LOAD_PREFIX),
        String::from_str(CMD_EXIT),
        String::from_str(CMD_QUIT),
        String::from_str(CMD_HELP),
    ];
    assert(texts(res@) =~= seq![CMD_CLEAR@, CMD_RESET@, PERSONA_PREFIX@, SCENE_PREFIX@, SAVE_PREFIX@, LOAD_PREFIX@, CMD_EXIT@, CMD_QUIT@, CMD_HELP@]);
    res
}

pub const SCENE_PREFIX: &'static str = "/scene ";

/// What Tab turns the typed text into (`None`: it stays as it is).
#[verifier::loop_isolation(false)]
pub fn tab_completion(input: &str, labels: &Vec<String>, history_file: &str, commands: &Vec<String>) -> (res: Option<String>)
    ensures
        match res {
            Some(s) => tab_spec(input@, texts(labels@), history_file@, texts(commands@)) == Some(s@),
            None => tab_spec(input@, texts(labels@), history_file@, texts(commands@)) is None,
        },
{
    let v = chars_of(input);
    if !(v.len() > 0 && v[0] == '/') {
        return None;
    }
    let cur = to_lowercase(input);
    let cur = cur.as_str();
    if starts_with(cur, PERSONA_PREFIX) {
        let n = PERSONA_PREFIX.unicode_len();
        let prefix = skip_chars(input, n);
        match next_label(labels, prefix.as_str()) {
            Some(label) => Some(concat(PERSONA_PREFIX, label.as_str())),
            None => None,
        }
    } else if starts_with(cur, LOAD_PREFIX) {
        let n = LOAD_PREFIX.unicode_len();
        let arg = skip_chars(input, n);
        if is_blank(arg.as_str()) {
            Some(concat(LOAD_PREFIX, history_file))
        } else {
            None
        }
    } else if starts_with(cur, SAVE_PREFIX) {
        let n = SAVE_PREFIX.unicode_len();
        let arg = skip_chars(input, n);
        if is_blank(arg.as_str()) {
            Some(concat(SAVE_PREFIX, history_file))
        } else {
            None
        }
    } else if v.len() > 1 {
        let ghost cs = texts(commands@);
        let mut k: usize = 0;
        while k < commands.len()
            invariant
                cs == texts(commands@),
                k <= commands@.len(),
                forall|m: int| 0 <= m < k ==> !starts_with_spec(cur@, #[trigger] cs[m]),
            decreases commands@.len() - k,
        {
            assert(cs[k as int] == commands@[k as int]@);
            if starts_with(cur, commands[k].as_str()) {
                assert(starts_with_spec(cur@, cs[k as int]));
                return None;
            }
            k = k + 1;
        }
        let mut j: usize = 0;
        while j < commands.len()
            invariant
                cs == texts(commands@),
                j <= commands@.len(),
                first_command_from(cs, cur@, 0) == first_command_from(cs, cur@, j as int),
            decreases commands@.len() - j,
        {
            assert(cs[j as int] == commands@[j as int]@);
            if starts_with(commands[j].as_str(), cur) {
                return Some(commands[j].clone());
            }
            j = j + 1;
        }
        None
    } else {
        None
    }
}

// ---------------------------------------------------------------------------
// Earlier inputs
// ---------------------------------------------------------------------------

/// The Up key: the input before the one shown, where there is one.
pub open spec fn history_up_spec(inputs: Seq<Seq<char>>, index: int, input: Seq<char>) -> (int, Seq<char>) {
    if inputs.len() > 0 && index > 0 {
        (index - 1, inputs[index - 1])
    } else {
        (index, input)
    }
}

/// The Down key: the input after the one shown, or an empty line past the last.
pub open spec fn history_down_spec(inputs: Seq<Seq<char>>, index: int, input: Seq<char>) -> (int, Seq<char>) {
    if inputs.len() == 0 {
        (index, input)
    } else if index + 1 < inputs.len() {
        (index + 1, inputs[index + 1])
    } else {
        (inputs.len() as int, Seq::empty())
    }
}

/// Down after Up comes back to where Up started: the same place among the
/// earlier inputs, showing the input there (an empty line past the last).
pub proof fn law_down_undoes_up(inputs: Seq<Seq<char>>, index: int, input: Seq<char>)
    requires
        0 < index <= inputs.len(),
    ensures
        ({
            let (i1, t1) = history_up_spec(inputs, index, input);
            let (i2, t2) = history_down_spec(inputs, i1, t1);
            &&& i1 == index - 1
            &&& i2 == index
            &&& t2 == if index < inputs.len() { inputs[index] } else { Seq::<char>::empty() }
        }),
{
}

/// The Up key over the list of earlier inputs.
pub fn history_up(inputs: &Vec<String>, index: usize, input: &String) -> (res: (usize, String))
    requires
        index <= inputs@.len(),
    ensures
        (res.0 as int, res.1@) == history_up_spec(texts(inputs@), index as int, input@),
        res.0 <= inputs@.len(),
{
    if inputs.len() > 0 && index > 0 {
        (index - 1, inputs[index - 1].clone())
    } else {
        (index, input.clone())
    }
}

/// The Down key over the list of earlier inputs.
pub fn history_down(inputs: &Vec<String>, index: usize, input: &String) -> (res: (usize, String))
    requires
        index <= inputs@.len(),
    ensures
        (res.0 as int, res.1@) == history_down_spec(texts(inputs@), index as int, input@),
        res.0 <= inputs@.len(),
{
    if inputs.len() == 0 {
        (index, input.clone())
    } else if index < inputs.len() - 1 {
        (index + 1, inputs[index + 1].clone())
    } else {
        (inputs.len(), String::new())
    }
}

// ---------------------------------------------------------------------------
// Messages
// ---------------------------------------------------------------------------

/// The labels joined with `,`.
pub open spec fn label_list(labels: Seq<Seq<char>>) -> Seq<char> {
    join_spec(labels, seq![','])
}

/// The labels joined with `,`.
pub fn label_list_exec(labels: &Vec<String>) -> (res: String)
    ensures
        res@ == label_list(texts(labels@)),
{
    proof {
        reveal_strlit(",");
        assert(","@ =~= seq![',']);
    }
    join(labels.as_slice(), ",")
}

/// A line from the program.
pub fn system_line(text: String) -> (res: (String, String))
    ensures
        res.0@ == SYSTEM@,
        res.1@ == text@,
{
    (String::from_str(SYSTEM), text)
}

/// A message text made of a head, a middle and a tail.
pub fn message3(head: &str, middle: &str, tail: &str) -> (res: String)
    ensures
        res@ == head@ + middle@ + tail@,
{
    concat3(head, middle, tail)
}

/// The surroundings by their texts.
pub struct ContextView {
    pub persona_name: Seq<char>,
    pub dismissal: Seq<char>,
    pub history_file: Seq<char>,
    pub personas: Seq<Seq<char>>,
}

impl View for ConsoleContext {
    type V = ContextView;

    open spec fn view(&self) -> ContextView {
        ContextView {
            persona_name: self.persona_name@,
            dismissal: self.dismissal@,
            history_file: self.history_file@,
            personas: texts(self.personas@),
        }
    }
}

/// The command word of a typed line that starts with `/`, lower-cased.
pub open spec fn command_of(prompt: Seq<char>) -> Seq<char> {
    lowercase_of(words_spec(prompt)[0])
}

/// Whether a command line has words after the command.
pub open spec fn has_argument(prompt: Seq<char>) -> bool {
    words_spec(prompt).len() > 1
}

/// The words after the command, joined with single spaces.
pub open spec fn argument_of(prompt: Seq<char>) -> Seq<char> {
    join_spec(words_spec(prompt).skip(1), seq![' '])
}

/// The file that `/save` or `/load` names: its argument, else the history file.
pub open spec fn file_argument(prompt: Seq<char>, history_file: Seq<char>) -> Seq<char> {
    if has_argument(prompt) {
        argument_of(prompt)
    } else {
        history_file
    }
}

/// The answer to `/persona` with no valid label.
pub open spec fn persona_error(personas: Seq<Seq<char>>) -> Seq<char> {
    MSG_VALID_PERSONA@ + label_list(personas)
}

/// The answer to an unknown command.
pub open spec fn unknown_message(command: Seq<char>) -> Seq<char> {
    MSG_UNKNOWN_HEAD@ + command + MSG_UNKNOWN_TAIL@
}

/// What a save reports.
pub open spec fn saved_message(filename: Seq<char>, result: Result<(), Seq<char>>) -> Seq<char> {
    match result {
        Ok(_) => MSG_SAVED_HEAD@ + filename + MSG_SAVED_TAIL@,
        Err(e) => MSG_SAVE_ERROR@ + e,
    }
}

/// What a load reports.
pub open spec fn loaded_message(filename: Seq<char>, error: Option<Seq<char>>) -> Seq<char> {
    match error {
        None => MSG_LOADED_HEAD@ + filename + MSG_LOADED_TAIL@,
        Some(e) => MSG_LOAD_ERROR@ + e,
    }
}

/// A command line cut into its lower-cased command, whether it has an
/// argument, and the argument.
pub fn parse_command(prompt: &str) -> (res: (String, bool, String))
    requires
        prompt@.len() > 0,
        prompt@[0] == '/',
    ensures
        res.0@ == command_of(prompt@),
        res.1 == has_argument(prompt@),
        res.2@ == argument_of(prompt@),
{
    let parts = split_whitespace(prompt);
    proof {
        assert(!is_white(prompt@[0]));
        lemma_words_nonempty(prompt@);
    }
    let command = to_lowercase(parts[0].as_str());
    let has = parts.len() > 1;
    let mut rest: Vec<String> = Vec::new();
    let mut i: usize = 1;
    while i < parts.len()
        invariant
            1 <= i <= parts@.len(),
            texts(rest@) == texts(parts@).skip(1).take(i - 1),
        decreases parts@.len() - i,
    {
        let ghost before = rest@;
        rest.push(parts[i].clone());
        assert(texts(parts@).skip(1).take(i as int) =~= texts(parts@).skip(1).take(i - 1).push(parts@[i as int]@));
        assert(texts(rest@) =~= texts(before).push(parts@[i as int]@));
        i = i + 1;
    }
    assert(texts(parts@).skip(1).take(i - 1) =~= texts(parts@).skip(1));
    proof {
        reveal_strlit(" ");
        assert(" "@ =~= seq![' ']);
    }
    let arg = join(rest.as_slice(), " ");
    (command, has, arg)
}

/// `/save` and `/load` differ from each other and from the commands looked
/// at before them.
pub proof fn lemma_file_commands_apart()
    ensures
        CMD_SAVE@ != CMD_CLEAR@,
        CMD_SAVE@ != CMD_RESET@,
        CMD_SAVE@ != CMD_PERSONA@,
        CMD_SAVE@ != CMD_SCENE@,
        CMD_LOAD@ != CMD_CLEAR@,
        CMD_LOAD@ != CMD_RESET@,
        CMD_LOAD@ != CMD_PERSONA@,
        CMD_LOAD@ != CMD_SCENE@,
        CMD_LOAD@ != CMD_SAVE@,
{
    reveal_strlit("/save");
    reveal_strlit("/load");
    reveal_strlit("/clear");
    reveal_strlit("/reset");
    reveal_strlit("/persona");
    reveal_strlit("/scene");
    assert(CMD_SAVE@.len() == 5);
    assert(CMD_LOAD@.len() == 5);
    assert(CMD_CLEAR@.len() == 6);
    assert(CMD_RESET@.len() == 6);
    assert(CMD_PERSONA@.len() == 8);
    assert(CMD_SCENE@.len() == 6);
    assert(CMD_SAVE@[1] != CMD_LOAD@[1]);
}

/// A text that begins with a non-white character has at least one word.
pub proof fn lemma_words_nonempty(s: Seq<char>)
    requires
        s.len() > 0,
        !is_white(s[0]),
    ensures
        words_spec(s).len() > 0,
    decreases s.len(),
{
    if s.len() > 1 {
        lemma_words_nonempty(s.drop_last());
        assert(s.drop_last()[0] == s[0]);
    } else {
        assert(s.drop_last().len() == 0);
    }
}

} // verus!
