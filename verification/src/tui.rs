//! The decisions of the terminal interface: what each key and each piece of
//! the persona's answer does to the conversation on screen, and what the
//! program must do then.
use vstd::prelude::*;

use crate::console::{
    lemma_file_commands_apart, lemma_words_nonempty, argument_of, command_of, file_argument, has_argument, label_list, label_list_exec, loaded_message,
    parse_command, persona_error, saved_message, system_line, tab_completion, tab_spec, tui_commands,
    unknown_message, Action, ActionKind, ConsoleContext, ContextView, CMD_CLEAR, CMD_EXIT, CMD_HELP, CMD_LOAD,
    CMD_PERSONA, CMD_QUIT, CMD_RESET, CMD_SAVE, HELP_HEAD, MSG_LOADED_HEAD, MSG_LOADED_TAIL, MSG_LOAD_ERROR,
    MSG_SAVED_HEAD, MSG_SAVED_TAIL, MSG_SAVE_ERROR, MSG_UNKNOWN_HEAD, MSG_UNKNOWN_TAIL, MSG_VALID_PERSONA,
    TUI_HELP_TAIL, WORD_EXIT, WORD_QUIT, YOU, history_down, history_down_spec, history_up, history_up_spec,
    message3,
};
use crate::history::{copy_lines, line_views};
use crate::text::{
    join_spec, lowercase_of,
    is_white, byte_len, concat, eq_ignore_ascii_case, eq_ignore_ascii_case_spec, find_from, is_blank, lines, lines_spec,
    split_from, split_spec, split_whitespace, strip_cr, take_chars, text_byte_len, text_eq, texts, trim, trim_end_spec, trim_spec, trim_start_spec,
    words_spec,
};

verus! {

/// The terminal's conversation state.
pub struct TuiState {
    /// The lines shown: who spoke, and what.
    pub history_lines: Vec<(String, String)>,
    /// The line being typed.
    pub input: String,
    /// The lines sent so far.
    pub input_history: Vec<String>,
    /// Which earlier input Up and Down have reached (its length: none).
    pub input_index: usize,
    /// The answer being received.
    pub current_reply: String,
    /// Whether an answer is awaited.
    pub is_answering: bool,
    /// The first line of the conversation shown.
    pub scroll_offset: u16,
    /// Whether the user has scrolled away from the end.
    pub user_scrolled: bool,
    /// Whether a piece of the answer came since the frame began.
    pub received_tokens: bool,
}

/// The terminal's state by its texts.
pub struct TuiView {
    pub lines: Seq<(Seq<char>, Seq<char>)>,
    pub input: Seq<char>,
    pub inputs: Seq<Seq<char>>,
    pub index: int,
    pub reply: Seq<char>,
    pub answering: bool,
    pub scroll: u16,
    pub user_scrolled: bool,
    pub received: bool,
}

impl View for TuiState {
    type V = TuiView;

    open spec fn view(&self) -> TuiView {
        TuiView {
            lines: line_views(self.history_lines@),
            input: self.input@,
            inputs: texts(self.input_history@),
            index: self.input_index as int,
            reply: self.current_reply@,
            answering: self.is_answering,
            scroll: self.scroll_offset,
            user_scrolled: self.user_scrolled,
            received: self.received_tokens,
        }
    }
}

/// The help text of the terminal.
pub open spec fn tui_help(personas: Seq<Seq<char>>) -> Seq<char> {
    HELP_HEAD@ + label_list(personas) + TUI_HELP_TAIL@
}

/// The state and action that Enter leads to.
pub open spec fn tui_enter_spec(v: TuiView, c: ContextView) -> (TuiView, ActionKind, Seq<char>) {
    if v.input.len() == 0 || v.answering {
        (v, ActionKind::Nothing, Seq::empty())
    } else {
        let prompt = trim_spec(v.input);
        let v1 = TuiView { inputs: v.inputs.push(prompt), index: (v.inputs.len() + 1) as int, ..v };
        if prompt.len() > 0 && prompt[0] == '/' {
            let cmd = command_of(prompt);
            if cmd == CMD_CLEAR@ {
                (
                    TuiView {
                        lines: Seq::empty(),
                        reply: Seq::empty(),
                        answering: false,
                        scroll: 0,
                        user_scrolled: false,
                        input: Seq::empty(),
                        ..v1
                    },
                    ActionKind::Nothing,
                    Seq::empty(),
                )
            } else if cmd == CMD_RESET@ {
                (v1, ActionKind::Reset, Seq::empty())
            } else if cmd == CMD_PERSONA@ {
                if has_argument(prompt) && c.personas.contains(argument_of(prompt)) {
                    (v1, ActionKind::SwitchPersona, argument_of(prompt))
                } else {
                    (
                        TuiView { lines: v1.lines.push((crate::console::SYSTEM@, persona_error(c.personas))), ..v1 },
                        ActionKind::Nothing,
                        Seq::empty(),
                    )
                }
            } else if cmd == CMD_SAVE@ {
                (v1, ActionKind::Save, file_argument(prompt, c.history_file))
            } else if cmd == CMD_LOAD@ {
                (v1, ActionKind::Load, file_argument(prompt, c.history_file))
            } else if cmd == CMD_EXIT@ || cmd == CMD_QUIT@ {
                (v1, ActionKind::Exit, Seq::empty())
            } else if cmd == CMD_HELP@ {
                (
                    TuiView {
                        lines: v1.lines.push((crate::console::SYSTEM@, tui_help(c.personas))),
                        scroll: 0,
                        user_scrolled: false,
                        input: Seq::empty(),
                        ..v1
                    },
                    ActionKind::Nothing,
                    Seq::empty(),
                )
            } else {
                (
                    TuiView {
                        lines: v1.lines.push((crate::console::SYSTEM@, unknown_message(cmd))),
                        user_scrolled: false,
                        input: Seq::empty(),
                        ..v1
                    },
                    ActionKind::Nothing,
                    Seq::empty(),
                )
            }
        } else if eq_ignore_ascii_case_spec(prompt, WORD_EXIT@) || eq_ignore_ascii_case_spec(prompt, WORD_QUIT@) {
            (v1, ActionKind::Exit, Seq::empty())
        } else {
            (
                TuiView {
                    user_scrolled: false,
                    scroll: 0,
                    lines: v1.lines.push((YOU@, prompt)),
                    answering: true,
                    input: Seq::empty(),
                    ..v1
                },
                ActionKind::Chat,
                prompt,
            )
        }
    }
}

/// The state that the end of an answer leads to.
pub open spec fn tui_finished_spec(v: TuiView, c: ContextView) -> TuiView {
    if !v.answering {
        v
    } else {
        let said = if !v.received && trim_spec(v.reply).len() == 0 { c.dismissal } else { v.reply };
        TuiView { lines: v.lines.push((c.persona_name, said)), reply: Seq::empty(), answering: false, ..v }
    }
}

/// The scroll position that drawing `total` lines in `height` rows leads to:
/// at the end unless the user scrolled, never past the end.
pub open spec fn tui_scroll_spec(v: TuiView, total: u16, height: u16) -> TuiView {
    if total > height {
        let max = (total - height) as u16;
        if !v.user_scrolled {
            TuiView { scroll: max, ..v }
        } else if v.scroll > max {
            TuiView { scroll: max, ..v }
        } else {
            v
        }
    } else {
        TuiView { scroll: 0, user_scrolled: false, ..v }
    }
}

impl TuiState {
    /// The state keeps Up and Down within the earlier inputs.
    pub open spec fn inv(&self) -> bool {
        self.input_index <= self.input_history@.len()
    }

    /// A conversation that begins with the persona's greeting.
    pub fn new(persona_name: &String, greeting: &String) -> (res: TuiState)
        ensures
            res.inv(),
            res@.lines == seq![(persona_name@, greeting@)],
            res@.input == Seq::<char>::empty(),
            res@.inputs == Seq::<Seq<char>>::empty(),
            res@.index == 0,
            res@.reply == Seq::<char>::empty(),
            !res@.answering,
            res@.scroll == 0,
            !res@.user_scrolled,
            !res@.received,
    {
        let res = TuiState {
            history_lines: vec![(persona_name.clone(), greeting.clone())],
            input: String::new(),
            input_history: Vec::new(),
            input_index: 0,
            current_reply: String::new(),
            is_answering: false,
            scroll_offset: 0,
            user_scrolled: false,
            received_tokens: false,
        };
        assert(res@.lines =~= seq![(persona_name@, greeting@)]);
        assert(res@.inputs =~= Seq::<Seq<char>>::empty());
        res
    }

    /// A new frame: no piece of the answer has come in it yet.
    pub fn begin_frame(&mut self)
        ensures
            final(self)@ == (TuiView { received: false, ..old(self)@ }),
            final(self).inv() == old(self).inv(),
    {
        self.received_tokens = false;
    }

    /// A piece of the answer came.
    pub fn on_token(&mut self, token: &str)
        ensures
            final(self)@ == (TuiView { reply: old(self)@.reply + token@, received: true, ..old(self)@ }),
            final(self).inv() == old(self).inv(),
    {
        self.current_reply.append(token);
        self.received_tokens = true;
    }

    /// The answer ended: it is added to the conversation (the persona's
    /// dismissal where nothing came), unless no answer was awaited.
    pub fn on_finished(&mut self, ctx: &ConsoleContext)
        ensures
            final(self)@ == tui_finished_spec(old(self)@, ctx@),
            final(self).inv() == old(self).inv(),
    {
        if !self.is_answering {
            return;
        }
        let ghost pre = self@;
        if !self.received_tokens && is_blank(self.current_reply.as_str()) {
            self.history_lines.push((ctx.persona_name.clone(), ctx.dismissal.clone()));
        } else {
            self.history_lines.push((ctx.persona_name.clone(), self.current_reply.clone()));
        }
        self.current_reply = String::new();
        self.is_answering = false;
        assert(self@.lines =~= tui_finished_spec(pre, ctx@).lines);
    }

    /// Drawing `total_lines` lines in `inner_height` rows.
    pub fn clamp_scroll(&mut self, total_lines: u16, inner_height: u16)
        ensures
            final(self)@ == tui_scroll_spec(old(self)@, total_lines, inner_height),
            final(self).inv() == old(self).inv(),
    {
        if total_lines > inner_height {
            let max_scroll = total_lines - inner_height;
            if !self.user_scrolled {
                self.scroll_offset = max_scroll;
            } else {
                if self.scroll_offset > max_scroll {
                    self.scroll_offset = max_scroll;
                }
            }
        } else {
            self.scroll_offset = 0;
            self.user_scrolled = false;
        }
    }

    /// The Tab key: completes the typed command, unless an answer is awaited.
    pub fn on_tab(&mut self, ctx: &ConsoleContext)
        ensures
            final(self)@ == if old(self)@.answering {
                old(self)@
            } else {
                match tab_spec(old(self)@.input, ctx@.personas, ctx@.history_file, crate::console::tui_commands_spec()) {
                    Some(s) => TuiView { input: s, ..old(self)@ },
                    None => old(self)@,
                }
            },
            final(self).inv() == old(self).inv(),
    {
        if !self.is_answering {
            let commands = tui_commands();
            match tab_completion(self.input.as_str(), &ctx.personas, ctx.history_file.as_str(), &commands) {
                Some(s) => {
                    self.input = s;
                },
                None => {},
            }
        }
    }

    /// A typed character, unless an answer is awaited.
    pub fn on_char(&mut self, c: char)
        ensures
            final(self)@ == if old(self)@.answering {
                old(self)@
            } else {
                TuiView { input: old(self)@.input.push(c), ..old(self)@ }
            },
            final(self).inv() == old(self).inv(),
    {
        if !self.is_answering {
            crate::text::push_char(&mut self.input, c);
        }
    }

    /// The Backspace key: the last typed character goes, unless an answer is
    /// awaited.
    pub fn on_backspace(&mut self)
        ensures
            final(self)@ == if old(self)@.answering || old(self)@.input.len() == 0 {
                old(self)@
            } else {
                TuiView { input: old(self)@.input.drop_last(), ..old(self)@ }
            },
            final(self).inv() == old(self).inv(),
    {
        if !self.is_answering {
            let n = self.input.unicode_len();
            if n > 0 {
                let t = take_chars(self.input.as_str(), n - 1);
                assert(t@ =~= self.input@.drop_last());
                self.input = t;
            }
        }
    }

    /// The Page Up key: one line back, and the view no longer follows the end.
    pub fn on_page_up(&mut self)
        ensures
            final(self)@ == (TuiView {
                user_scrolled: true,
                scroll: if old(self)@.scroll > 0 { (old(self)@.scroll - 1) as u16 } else { 0 },
                ..old(self)@
            }),
            final(self).inv() == old(self).inv(),
    {
        self.user_scrolled = true;
        if self.scroll_offset > 0 {
            self.scroll_offset = self.scroll_offset - 1;
        }
    }

    /// The Page Down key: one line on, where the user has scrolled.
    pub fn on_page_down(&mut self)
        ensures
            final(self)@ == if old(self)@.user_scrolled {
                TuiView {
                    scroll: if old(self)@.scroll < u16::MAX { (old(self)@.scroll + 1) as u16 } else { u16::MAX },
                    ..old(self)@
                }
            } else {
                old(self)@
            },
            final(self).inv() == old(self).inv(),
    {
        if self.user_scrolled {
            self.scroll_offset = self.scroll_offset.saturating_add(1);
        }
    }

    /// The Up key: the earlier input before the one shown.
    pub fn on_up(&mut self)
        requires
            old(self).inv(),
        ensures
            final(self).inv(),
            final(self)@ == (TuiView {
                index: history_up_spec(old(self)@.inputs, old(self)@.index, old(self)@.input).0,
                input: history_up_spec(old(self)@.inputs, old(self)@.index, old(self)@.input).1,
                ..old(self)@
            }),
    {
        let (i, s) = history_up(&self.input_history, self.input_index, &self.input);
        self.input_index = i;
        self.input = s;
    }

    /// The Down key: the earlier input after the one shown, or an empty line.
    pub fn on_down(&mut self)
        requires
            old(self).inv(),
        ensures
            final(self).inv(),
            final(self)@ == (TuiView {
                index: history_down_spec(old(self)@.inputs, old(self)@.index, old(self)@.input).0,
                input: history_down_spec(old(self)@.inputs, old(self)@.index, old(self)@.input).1,
                ..old(self)@
            }),
    {
        let (i, s) = history_down(&self.input_history, self.input_index, &self.input);
        self.input_index = i;
        self.input = s;
    }

    /// The Enter key: the typed line is sent, or the command in it is carried
    /// out; the result says what the program must do besides.
    pub fn on_enter(&mut self, ctx: &ConsoleContext) -> (res: Action)
        requires
            old(self).inv(),
        ensures
            final(self).inv(),
            (final(self)@, res.kind, res.arg@) == tui_enter_spec(old(self)@, ctx@),
    {
        let ghost pre = self@;
        if self.input.unicode_len() == 0 || self.is_answering {
            return Action { kind: ActionKind::Nothing, arg: String::new() };
        }
        let prompt = trim(self.input.as_str());
        self.input_history.push(prompt.clone());
        self.input_index = self.input_history.len();
        let ghost v1 = self@;
        assert(v1.inputs =~= pre.inputs.push(prompt@));
        let pv = crate::text::chars_of(prompt.as_str());
        if pv.len() > 0 && pv[0] == '/' {
            let (command, has_arg, arg) = parse_command(prompt.as_str());
            let cmd = command.as_str();
            if text_eq(cmd, CMD_CLEAR) {
                self.history_lines = Vec::new();
                self.current_reply = String::new();
                self.is_answering = false;
                self.scroll_offset = 0;
                self.user_scrolled = false;
                self.input = String::new();
                assert(self@.lines =~= Seq::<(Seq<char>, Seq<char>)>::empty());
                Action { kind: ActionKind::Nothing, arg: String::new() }
            } else if text_eq(cmd, CMD_RESET) {
                Action { kind: ActionKind::Reset, arg: String::new() }
            } else if text_eq(cmd, CMD_PERSONA) {
                if has_arg && contains_text(&ctx.personas, arg.as_str()) {
                    Action { kind: ActionKind::SwitchPersona, arg }
                } else {
                    let msg = concat(MSG_VALID_PERSONA, label_list_exec(&ctx.personas).as_str());
                    self.history_lines.push(system_line(msg));
                    assert(self@.lines =~= v1.lines.push((crate::console::SYSTEM@, persona_error(ctx@.personas))));
                    Action { kind: ActionKind::Nothing, arg: String::new() }
                }
            } else if text_eq(cmd, CMD_SAVE) {
                let file = if has_arg { arg } else { ctx.history_file.clone() };
                Action { kind: ActionKind::Save, arg: file }
            } else if text_eq(cmd, CMD_LOAD) {
                let file = if has_arg { arg } else { ctx.history_file.clone() };
                Action { kind: ActionKind::Load, arg: file }
            } else if text_eq(cmd, CMD_EXIT) || text_eq(cmd, CMD_QUIT) {
                Action { kind: ActionKind::Exit, arg: String::new() }
            } else if text_eq(cmd, CMD_HELP) {
                let help = message3(HELP_HEAD, label_list_exec(&ctx.personas).as_str(), TUI_HELP_TAIL);
                self.history_lines.push(system_line(help));
                self.scroll_offset = 0;
                self.user_scrolled = false;
                self.input = String::new();
                assert(self@.lines =~= v1.lines.push((crate::console::SYSTEM@, tui_help(ctx@.personas))));
                Action { kind: ActionKind::Nothing, arg: String::new() }
            } else {
                let msg = message3(MSG_UNKNOWN_HEAD, cmd, MSG_UNKNOWN_TAIL);
                self.history_lines.push(system_line(msg));
                self.user_scrolled = false;
                self.input = String::new();
                assert(self@.lines =~= v1.lines.push((crate::console::SYSTEM@, unknown_message(command@))));
                Action { kind: ActionKind::Nothing, arg: String::new() }
            }
        } else if eq_ignore_ascii_case(prompt.as_str(), WORD_EXIT) || eq_ignore_ascii_case(prompt.as_str(), WORD_QUIT) {
            Action { kind: ActionKind::Exit, arg: String::new() }
        } else {
            self.user_scrolled = false;
            self.scroll_offset = 0;
            self.history_lines.push((String::from_str(YOU), prompt.clone()));
            self.is_answering = true;
            self.input = String::new();
            assert(self@.lines =~= v1.lines.push((YOU@, prompt@)));
            Action { kind: ActionKind::Chat, arg: prompt }
        }
    }

    /// The outcome of saving the history to `filename`.
    pub fn on_saved(&mut self, filename: &str, result: Result<(), String>)
        ensures
            final(self)@ == (TuiView {
                lines: old(self)@.lines.push(
                    (
                        crate::console::SYSTEM@,
                        saved_message(
                            filename@,
                            match result {
                                Ok(_) => Ok(()),
                                Err(e) => Err(e@),
                            },
                        ),
                    ),
                ),
                scroll: 0,
                user_scrolled: false,
                input: Seq::empty(),
                ..old(self)@
            }),
            final(self).inv() == old(self).inv(),
    {
        let ghost pre = self@;
        let msg = match result {
            Ok(_) => message3(MSG_SAVED_HEAD, filename, MSG_SAVED_TAIL),
            Err(e) => concat(MSG_SAVE_ERROR, e.as_str()),
        };
        self.history_lines.push(system_line(msg));
        self.scroll_offset = 0;
        self.user_scrolled = false;
        self.input = String::new();
        assert(self@.lines =~= pre.lines.push((crate::console::SYSTEM@, msg@)));
    }

    /// The outcome of loading the history from `filename`: the loaded lines
    /// are shown, then a line that reports the load.
    pub fn on_loaded(&mut self, filename: &str, result: Result<Vec<(String, String)>, String>)
        ensures
            final(self)@ == (TuiView {
                lines: match result {
                    Ok(l) => line_views(l@),
                    Err(_) => old(self)@.lines,
                }.push(
                    (
                        crate::console::SYSTEM@,
                        loaded_message(
                            filename@,
                            match result {
                                Ok(_) => None,
                                Err(e) => Some(e@),
                            },
                        ),
                    ),
                ),
                scroll: 0,
                user_scrolled: false,
                input: Seq::empty(),
                ..old(self)@
            }),
            final(self).inv() == old(self).inv(),
    {
        let ghost pre = self@;
        let msg = match result {
            Ok(lines) => {
                self.history_lines = lines;
                message3(MSG_LOADED_HEAD, filename, MSG_LOADED_TAIL)
            },
            Err(e) => concat(MSG_LOAD_ERROR, e.as_str()),
        };
        let ghost mid = self@.lines;
        self.history_lines.push(system_line(msg));
        self.scroll_offset = 0;
        self.user_scrolled = false;
        self.input = String::new();
        assert(self@.lines =~= mid.push((crate::console::SYSTEM@, msg@)));
    }

    /// Sending the line failed: no answer is awaited.
    pub fn on_chat_failed(&mut self)
        ensures
            final(self)@ == (TuiView { answering: false, ..old(self)@ }),
            final(self).inv() == old(self).inv(),
    {
        self.is_answering = false;
    }
}

/// Whether `v` holds the text `s`.
pub fn contains_text(v: &Vec<String>, s: &str) -> (res: bool)
    ensures
        res == texts(v@).contains(s@),
{
    let mut i: usize = 0;
    while i < v.len()
        invariant
            i <= v@.len(),
            forall|k: int| 0 <= k < i ==> v@[k]@ != s@,
        decreases v@.len() - i,
    {
        if text_eq(v[i].as_str(), s) {
            assert(texts(v@)[i as int] == s@);
            return true;
        }
        i = i + 1;
    }
    assert(!texts(v@).contains(s@)) by {
        if texts(v@).contains(s@) {
            let k = choose|k: int| 0 <= k < texts(v@).len() && texts(v@)[k] == s@;
            assert(v@[k]@ == s@);
        }
    }
    false
}

/// The first line of a paragraph, before any word: an indent of two spaces.
pub open spec fn line_indent() -> Seq<char> {
    seq![' ', ' ']
}

/// One word laid out: where it does not fit on the current line, that line
/// is finished and a new indented one begun; then the word is added, after a
/// space unless the line holds only its indent.
pub open spec fn wrap_step(state: (Seq<Seq<char>>, Seq<char>), word: Seq<char>, max_width: int) -> (Seq<Seq<char>>, Seq<char>) {
    let (out, cur) = state;
    let (out1, cur1) = if byte_len(cur) + byte_len(word) + 1 > max_width {
        (out.push(cur), line_indent())
    } else {
        (out, cur)
    };
    let cur2 = if byte_len(cur1) > 2 { cur1.push(' ') } else { cur1 };
    (out1, cur2 + word)
}

/// The words of a paragraph laid out one after the other.
pub open spec fn wrap_words(words: Seq<Seq<char>>, max_width: int) -> (Seq<Seq<char>>, Seq<char>)
    decreases words.len(),
{
    if words.len() == 0 {
        (Seq::empty(), line_indent())
    } else {
        wrap_step(wrap_words(words.drop_last(), max_width), words.last(), max_width)
    }
}

/// The screen lines of one paragraph: an empty line for a blank paragraph;
/// else its words laid out, the last line kept where it holds a word.
pub open spec fn paragraph_lines(p: Seq<char>, max_width: int) -> Seq<Seq<char>> {
    if trim_spec(p).len() == 0 {
        seq![Seq::empty()]
    } else {
        let (out, cur) = wrap_words(words_spec(p), max_width);
        if byte_len(cur) > 2 { out.push(cur) } else { out }
    }
}

/// The screen lines of the paragraphs, one after the other.
pub open spec fn wrap_paragraphs(ps: Seq<Seq<char>>, max_width: int) -> Seq<Seq<char>>
    decreases ps.len(),
{
    if ps.len() == 0 {
        Seq::empty()
    } else {
        wrap_paragraphs(ps.drop_last(), max_width) + paragraph_lines(ps.last(), max_width)
    }
}

/// A text laid out for a column `max_width` bytes wide, each line indented
/// by two spaces.
pub open spec fn wrap_spec(text: Seq<char>, max_width: int) -> Seq<Seq<char>> {
    wrap_paragraphs(lines_spec(text), max_width)
}

/// Bytes of a text are at most four per character.
proof fn lemma_byte_len_bound(s: Seq<char>)
    ensures
        byte_len(s) <= 4 * s.len(),
    decreases s.len(),
{
    if s.len() > 0 {
        lemma_byte_len_bound(s.drop_last());
    }
}

/// The bytes of two texts one after the other.
proof fn lemma_byte_len_concat(a: Seq<char>, b: Seq<char>)
    ensures
        byte_len(a + b) == byte_len(a) + byte_len(b),
    decreases b.len(),
{
    if b.len() > 0 {
        lemma_byte_len_concat(a, b.drop_last());
        assert((a + b).drop_last() =~= a + b.drop_last());
    } else {
        assert(a + b =~= a);
    }
}

/// No word is longer than its text.
proof fn lemma_words_len(s: Seq<char>)
    ensures
        forall|k: int| 0 <= k < words_spec(s).len() ==> (#[trigger] words_spec(s)[k]).len() <= s.len(),
    decreases s.len(),
{
    if s.len() > 0 {
        let w = words_spec(s.drop_last());
        let c = s.last();
        lemma_words_len(s.drop_last());
        assert forall|k: int| 0 <= k < words_spec(s).len() implies (#[trigger] words_spec(s)[k]).len() <= s.len() by {
            if is_white(c) {
                assert(words_spec(s)[k] == w[k]);
            } else if s.len() >= 2 && !is_white(s[s.len() - 2]) && w.len() > 0 {
                if k == w.len() - 1 {
                    assert(words_spec(s)[k] == w.last().push(c));
                } else {
                    assert(words_spec(s)[k] == w[k]);
                }
            } else {
                if k < w.len() {
                    assert(words_spec(s)[k] == w[k]);
                } else {
                    assert(words_spec(s)[k] == seq![c]);
                }
            }
        }
    }
}

/// One paragraph laid out for a column `max_width` bytes wide.
fn wrap_paragraph(p: &str, max_width: usize) -> (res: Vec<String>)
    requires
        p@.len() * 4 + 2 <= usize::MAX,
    ensures
        texts(res@) == paragraph_lines(p@, max_width as int),
{
    let mut lines: Vec<String> = Vec::new();
    if is_blank(p) {
        lines.push(String::new());
        assert(texts(lines@) =~= seq![Seq::<char>::empty()]);
        return lines;
    }
    let words = split_whitespace(p);
    proof {
        lemma_words_len(p@);
        reveal_strlit("  ");
        assert("  "@ =~= line_indent());
        assert(line_indent().drop_last() =~= seq![' ']);
        assert(line_indent().drop_last().drop_last() =~= Seq::<char>::empty());
        assert(byte_len(Seq::<char>::empty()) == 0);
        assert(byte_len(seq![' ']) == 1);
        assert(byte_len(line_indent()) == 2);
    }
    let ghost ws = texts(words@);
    let mut cur = String::from_str("  ");
    let mut cur_len: usize = 2;
    let mut i: usize = 0;
    assert(texts(lines@) =~= Seq::<Seq<char>>::empty());
    while i < words.len()
        invariant
            ws == texts(words@),
            ws == words_spec(p@),
            forall|k: int| 0 <= k < ws.len() ==> (#[trigger] ws[k]).len() <= p@.len(),
            p@.len() * 4 + 2 <= usize::MAX,
            i <= ws.len(),
            (texts(lines@), cur@) == wrap_words(ws.take(i as int), max_width as int),
            cur_len == byte_len(cur@),
            "  "@ == line_indent(),
            byte_len(line_indent()) == 2,
        decreases ws.len() - i,
    {
        let word = words[i].as_str();
        proof {
            assert(ws[i as int] == word@);
            lemma_byte_len_bound(word@);
        }
        let wlen = text_byte_len(word);
        assert(ws.take(i + 1).drop_last() =~= ws.take(i as int));
        assert(ws.take(i + 1).last() == word@);
        let ghost out0 = texts(lines@);
        let ghost cur0 = cur@;
        let too_long = cur_len >= max_width || wlen + 1 > max_width - cur_len;
        assert(too_long == (byte_len(cur0) + byte_len(word@) + 1 > max_width));
        if too_long {
            let done = cur;
            lines.push(done);
            assert(texts(lines@) =~= out0.push(cur0));
            cur = String::from_str("  ");
            cur_len = 2;
        }
        let ghost cur1 = cur@;
        if cur_len > 2 {
            crate::text::push_char(&mut cur, ' ');
            assert(cur@.drop_last() =~= cur1);
            cur_len = cur_len + 1;
        }
        let ghost cur2 = cur@;
        proof {
            lemma_byte_len_concat(cur2, word@);
        }
        cur.append(word);
        cur_len = cur_len + wlen;
        i = i + 1;
    }
    assert(ws.take(ws.len() as int) =~= ws);
    if cur_len > 2 {
        let ghost out0 = texts(lines@);
        let ghost cur0 = cur@;
        lines.push(cur);
        assert(texts(lines@) =~= out0.push(cur0));
    }
    lines
}

/// A text laid out for a column `max_width` bytes wide: each paragraph's
/// words on lines indented by two spaces, a blank paragraph as an empty line.
pub fn wrap_and_indent_text(text: &str, max_width: usize) -> (res: Vec<String>)
    requires
        text@.len() * 4 + 2 <= usize::MAX,
    ensures
        texts(res@) == wrap_spec(text@, max_width as int),
{
    let paragraphs = lines(text);
    proof {
        lemma_lines_len(text@);
    }
    let ghost ps = texts(paragraphs@);
    let mut out: Vec<String> = Vec::new();
    let mut i: usize = 0;
    while i < paragraphs.len()
        invariant
            ps == texts(paragraphs@),
            ps == lines_spec(text@),
            forall|k: int| 0 <= k < ps.len() ==> (#[trigger] ps[k]).len() <= text@.len(),
            text@.len() * 4 + 2 <= usize::MAX,
            i <= ps.len(),
            texts(out@) == wrap_paragraphs(ps.take(i as int), max_width as int),
        decreases ps.len() - i,
    {
        assert(ps[i as int] == paragraphs@[i as int]@);
        let mut more = wrap_paragraph(paragraphs[i].as_str(), max_width);
        let ghost before = texts(out@);
        let ghost add = texts(more@);
        out.append(&mut more);
        assert(texts(out@) =~= before + add);
        assert(ps.take(i + 1).drop_last() =~= ps.take(i as int));
        i = i + 1;
    }
    assert(ps.take(ps.len() as int) =~= ps);
    out
}

/// No line of a text is longer than the text.
proof fn lemma_lines_len(s: Seq<char>)
    ensures
        forall|k: int| 0 <= k < lines_spec(s).len() ==> (#[trigger] lines_spec(s)[k]).len() <= s.len(),
{
    let pieces = split_spec(s, seq!['\n']);
    lemma_split_len(s, seq!['\n'], 0);
    crate::text::lemma_split_nonempty(s, seq!['\n'], 0);
    assert forall|k: int| 0 <= k < lines_spec(s).len() implies (#[trigger] lines_spec(s)[k]).len() <= s.len() by {
        if k < pieces.len() - 1 {
            assert(lines_spec(s)[k] == strip_cr(pieces[k]));
        } else {
            assert(lines_spec(s)[k] == pieces.last());
        }
    }
}

/// No piece of a split is longer than the text.
proof fn lemma_split_len(s: Seq<char>, sep: Seq<char>, i: int)
    requires
        0 <= i <= s.len(),
    ensures
        forall|k: int| 0 <= k < split_from(s, sep, i).len() ==> (#[trigger] split_from(s, sep, i)[k]).len() <= s.len(),
    decreases s.len() - i,
{
    let j = find_from(s, sep, i);
    if 0 <= i <= j && sep.len() > 0 && j + sep.len() <= s.len() {
        lemma_split_len(s, sep, j + sep.len());
        assert forall|k: int| 0 <= k < split_from(s, sep, i).len() implies (#[trigger] split_from(s, sep, i)[k]).len() <= s.len() by {
            if k > 0 {
                assert(split_from(s, sep, i)[k] == split_from(s, sep, j + sep.len())[k - 1]);
            } else {
                assert(split_from(s, sep, i)[k] == s.subrange(i, j));
            }
        }
    }
}

/// The size of a text drawn as an image: the length of its longest line in
/// characters, and its number of lines, each cut to 16 bits.
pub open spec fn text_dimensions_spec(text: Seq<char>) -> (u16, u16) {
    (max_line_len(lines_spec(text)) as u16, lines_spec(text).len() as u16)
}

/// The length of the longest of `ls` (0 for none).
pub open spec fn max_line_len(ls: Seq<Seq<char>>) -> nat
    decreases ls.len(),
{
    if ls.len() == 0 {
        0
    } else {
        let m = max_line_len(ls.drop_last());
        if ls.last().len() > m { ls.last().len() } else { m }
    }
}

/// The width and height of a text drawn as an image.
pub fn get_text_dimensions(text: &str) -> (res: (u16, u16))
    ensures
        res == text_dimensions_spec(text@),
{
    let ls = lines(text);
    proof {
        lemma_lines_len(text@);
    }
    let ghost v = texts(ls@);
    let mut width: usize = 0;
    let mut i: usize = 0;
    while i < ls.len()
        invariant
            v == texts(ls@),
            i <= v.len(),
            width == max_line_len(v.take(i as int)),
        decreases v.len() - i,
    {
        let n = ls[i].unicode_len();
        assert(v.take(i + 1).drop_last() =~= v.take(i as int));
        assert(v[i as int] == ls@[i as int]@);
        if n > width {
            width = n;
        }
        i = i + 1;
    }
    assert(v.take(v.len() as int) =~= v);
    (width as u16, ls.len() as u16)
}

// ---------------------------------------------------------------------------
// Laws
// ---------------------------------------------------------------------------

/// Drawing keeps the scroll position within the text: never past the last
/// screenful, at the last screenful unless the user scrolled, and at the top
/// where everything fits.
pub proof fn law_scroll_in_range(v: TuiView, total: u16, height: u16)
    ensures
        total > height ==> tui_scroll_spec(v, total, height).scroll <= total - height,
        total > height && !v.user_scrolled ==> tui_scroll_spec(v, total, height).scroll == total - height,
        total <= height ==> tui_scroll_spec(v, total, height).scroll == 0,
        tui_scroll_spec(v, total, height).lines == v.lines,
        tui_scroll_spec(v, total, height).input == v.input,
{
}

/// A screen line that holds at most one word after its indent: no space
/// past its first two characters.
pub open spec fn single_word_line(l: Seq<char>) -> bool {
    forall|k: int| 2 <= k < l.len() ==> l[k] != ' '
}

/// A screen line that fits the column: within the width, or a single word
/// that is too long for any line.
pub open spec fn fits(l: Seq<char>, max_width: int) -> bool {
    byte_len(l) <= max_width || single_word_line(l)
}

/// No word holds white space.
proof fn lemma_words_not_white(s: Seq<char>)
    ensures
        forall|i: int, k: int|
            0 <= i < words_spec(s).len() && 0 <= k < words_spec(s)[i].len() ==> !is_white(#[trigger] words_spec(s)[i][k]),
    decreases s.len(),
{
    if s.len() > 0 {
        let w = words_spec(s.drop_last());
        let c = s.last();
        lemma_words_not_white(s.drop_last());
        assert forall|i: int, k: int| 0 <= i < words_spec(s).len() && 0 <= k < words_spec(s)[i].len() implies !is_white(
            #[trigger] words_spec(s)[i][k],
        ) by {
            if is_white(c) {
                assert(words_spec(s)[i] == w[i]);
            } else if s.len() >= 2 && !is_white(s[s.len() - 2]) && w.len() > 0 {
                if i == w.len() - 1 {
                    assert(words_spec(s)[i] == w.last().push(c));
                    if k < w.last().len() {
                        assert(words_spec(s)[i][k] == w[i][k]);
                    }
                } else {
                    assert(words_spec(s)[i] == w[i]);
                }
            } else {
                if i < w.len() {
                    assert(words_spec(s)[i] == w[i]);
                } else {
                    assert(words_spec(s)[i] == seq![c]);
                }
            }
        }
    }
}

/// Laying out words without spaces keeps every finished line and the line
/// being filled within the column, each of them starting with the indent.
proof fn lemma_wrap_words_fit(words: Seq<Seq<char>>, max_width: int)
    requires
        forall|i: int, k: int| 0 <= i < words.len() && 0 <= k < words[i].len() ==> #[trigger] words[i][k] != ' ',
    ensures
        forall|i: int| 0 <= i < wrap_words(words, max_width).0.len() ==> fits(#[trigger] wrap_words(words, max_width).0[i], max_width),
        fits(wrap_words(words, max_width).1, max_width),
        wrap_words(words, max_width).1.len() >= 2,
        wrap_words(words, max_width).1.subrange(0, 2) == line_indent(),
    decreases words.len(),
{
    assert(byte_len(line_indent().drop_last().drop_last()) == 0);
    assert(byte_len(line_indent().drop_last()) == 1);
    assert(byte_len(line_indent()) == 2);
    if words.len() == 0 {
        assert(line_indent().subrange(0, 2) =~= line_indent());
    } else {
        let before = words.drop_last();
        let word = words.last();
        assert forall|i: int, k: int| 0 <= i < before.len() && 0 <= k < before[i].len() implies #[trigger] before[i][k] != ' ' by {
            assert(before[i] == words[i]);
        }
        lemma_wrap_words_fit(before, max_width);
        let (out, cur) = wrap_words(before, max_width);
        assert forall|k: int| 0 <= k < word.len() implies word[k] != ' ' by {
            assert(words[words.len() - 1][k] != ' ');
        }
        if byte_len(cur) + byte_len(word) + 1 > max_width {
            let next = line_indent() + word;
            lemma_byte_len_concat(line_indent(), word);
            assert forall|k: int| 2 <= k < next.len() implies next[k] != ' ' by {
                assert(next[k] == word[k - 2]);
            }
            assert(next.subrange(0, 2) =~= line_indent());
            assert forall|i: int| 0 <= i < out.push(cur).len() implies fits(#[trigger] out.push(cur)[i], max_width) by {
                if i < out.len() {
                    assert(out.push(cur)[i] == out[i]);
                }
            }
        } else {
            let cur1 = if byte_len(cur) > 2 { cur.push(' ') } else { cur };
            if byte_len(cur) > 2 {
                assert(cur.push(' ').drop_last() =~= cur);
                assert(byte_len(cur1) == byte_len(cur) + 1);
            }
            lemma_byte_len_concat(cur1, word);
            assert((cur1 + word).subrange(0, 2) =~= cur.subrange(0, 2));
        }
    }
}

/// Every line of a text laid out for a column `max_width` bytes wide fits
/// the column: it is no wider, or it holds one word that is too long for
/// any line.
pub proof fn law_wrapped_lines_fit(text: Seq<char>, max_width: int)
    ensures
        forall|i: int| 0 <= i < wrap_spec(text, max_width).len() ==> fits(#[trigger] wrap_spec(text, max_width)[i], max_width),
{
    lemma_paragraphs_fit(lines_spec(text), max_width);
}

/// Every line of laid-out paragraphs fits the column.
proof fn lemma_paragraphs_fit(ps: Seq<Seq<char>>, max_width: int)
    ensures
        forall|i: int| 0 <= i < wrap_paragraphs(ps, max_width).len() ==> fits(#[trigger] wrap_paragraphs(ps, max_width)[i], max_width),
    decreases ps.len(),
{
    if ps.len() > 0 {
        lemma_paragraphs_fit(ps.drop_last(), max_width);
        let p = ps.last();
        let head = wrap_paragraphs(ps.drop_last(), max_width);
        let tail = paragraph_lines(p, max_width);
        if trim_spec(p).len() == 0 {
            assert(fits(Seq::<char>::empty(), max_width));
        } else {
            let ws = words_spec(p);
            lemma_words_not_white(p);
            assert forall|i: int, k: int| 0 <= i < ws.len() && 0 <= k < ws[i].len() implies #[trigger] ws[i][k] != ' ' by {
                assert(!is_white(ws[i][k]));
            }
            lemma_wrap_words_fit(ws, max_width);
            let (out, cur) = wrap_words(ws, max_width);
            assert forall|i: int| 0 <= i < tail.len() implies fits(#[trigger] tail[i], max_width) by {
                if i < out.len() {
                    assert(tail[i] == out[i]);
                }
            }
        }
        assert forall|i: int| 0 <= i < (head + tail).len() implies fits(#[trigger] (head + tail)[i], max_width) by {
            if i < head.len() {
                assert((head + tail)[i] == head[i]);
            } else {
                assert((head + tail)[i] == tail[i - head.len()]);
            }
        }
    }
}

/// The words of lines, one line after the other.
pub open spec fn words_of_lines(ls: Seq<Seq<char>>) -> Seq<Seq<char>>
    decreases ls.len(),
{
    if ls.len() == 0 {
        Seq::empty()
    } else {
        words_of_lines(ls.drop_last()) + words_spec(ls.last())
    }
}

/// The words of lines one after the other are those of the first lines,
/// then those of the last.
proof fn lemma_words_of_lines_concat(a: Seq<Seq<char>>, b: Seq<Seq<char>>)
    ensures
        words_of_lines(a + b) == words_of_lines(a) + words_of_lines(b),
    decreases b.len(),
{
    if b.len() == 0 {
        assert(a + b =~= a);
        assert(words_of_lines(a) + Seq::<Seq<char>>::empty() =~= words_of_lines(a));
    } else {
        lemma_words_of_lines_concat(a, b.drop_last());
        assert((a + b).drop_last() =~= a + b.drop_last());
        assert((a + b).last() == b.last());
        assert(words_of_lines(a) + words_of_lines(b.drop_last()) + words_spec(b.last()) =~= words_of_lines(a) + (
        words_of_lines(b.drop_last()) + words_spec(b.last())));
    }
}

/// A text is at least as many bytes long as it has characters.
proof fn lemma_byte_len_at_least(s: Seq<char>)
    ensures
        byte_len(s) >= s.len(),
    decreases s.len(),
{
    if s.len() > 0 {
        lemma_byte_len_at_least(s.drop_last());
    }
}

/// White space adds no word.
proof fn lemma_words_push_white(s: Seq<char>, c: char)
    requires
        is_white(c),
    ensures
        words_spec(s.push(c)) == words_spec(s),
{
    assert(s.push(c).drop_last() =~= s);
}

/// A word after white space (or at the start) adds that word.
proof fn lemma_words_push_word(s: Seq<char>, w: Seq<char>)
    requires
        s.len() == 0 || is_white(s.last()),
        w.len() > 0,
        forall|k: int| 0 <= k < w.len() ==> !is_white(#[trigger] w[k]),
    ensures
        words_spec(s + w) == words_spec(s).push(w),
    decreases w.len(),
{
    let c = w.last();
    let front = w.drop_last();
    assert((s + w).drop_last() =~= s + front);
    assert((s + w).last() == c);
    if front.len() == 0 {
        assert(s + front =~= s);
        if s.len() > 0 {
            assert((s + w)[(s + w).len() - 2] == s.last());
        }
        assert(w =~= seq![c]);
    } else {
        assert forall|k: int| 0 <= k < front.len() implies !is_white(#[trigger] front[k]) by {
            assert(front[k] == w[k]);
        }
        lemma_words_push_word(s, front);
        assert((s + w)[(s + w).len() - 2] == front.last());
        assert(words_spec(s).push(front).last().push(c) =~= w);
        assert(words_spec(s).push(front).update(words_spec(s).len() as int, w) =~= words_spec(s).push(w));
    }
}

/// The indent holds no word.
proof fn lemma_words_indent()
    ensures
        words_spec(line_indent()) == Seq::<Seq<char>>::empty(),
{
    let e = Seq::<char>::empty();
    assert(e.push(' ') =~= seq![' ']);
    lemma_words_push_white(e, ' ');
    assert(seq![' '].push(' ') =~= line_indent());
    lemma_words_push_white(seq![' '], ' ');
}

/// Laying out words keeps them all, in order: those of the finished lines,
/// then those of the line being filled.
proof fn lemma_wrap_words_keep(words: Seq<Seq<char>>, max_width: int)
    requires
        forall|i: int| 0 <= i < words.len() ==> (#[trigger] words[i]).len() > 0,
        forall|i: int, k: int| 0 <= i < words.len() && 0 <= k < words[i].len() ==> !is_white(#[trigger] words[i][k]),
    ensures
        words_of_lines(wrap_words(words, max_width).0) + words_spec(wrap_words(words, max_width).1) == words,
        wrap_words(words, max_width).1.len() >= 2,
        wrap_words(words, max_width).1.subrange(0, 2) == line_indent(),
    decreases words.len(),
{
    lemma_words_indent();
    if words.len() == 0 {
        assert(line_indent().subrange(0, 2) =~= line_indent());
        assert(Seq::<Seq<char>>::empty() + Seq::<Seq<char>>::empty() =~= words);
    } else {
        let before = words.drop_last();
        let word = words.last();
        assert forall|i: int, k: int| 0 <= i < before.len() && 0 <= k < before[i].len() implies !is_white(#[trigger] before[i][k]) by {
            assert(before[i] == words[i]);
        }
        assert forall|i: int| 0 <= i < before.len() implies (#[trigger] before[i]).len() > 0 by {
            assert(before[i] == words[i]);
        }
        lemma_wrap_words_keep(before, max_width);
        let (out, cur) = wrap_words(before, max_width);
        assert(word.len() > 0);
        assert forall|k: int| 0 <= k < word.len() implies !is_white(#[trigger] word[k]) by {
            assert(words[words.len() - 1][k] == word[k]);
        }
        assert(before.push(word) =~= words);
        if byte_len(cur) + byte_len(word) + 1 > max_width {
            let next = line_indent() + word;
            assert(byte_len(line_indent().drop_last().drop_last()) == 0);
            assert(byte_len(line_indent().drop_last()) == 1);
            assert(byte_len(line_indent()) == 2);
            lemma_words_push_word(line_indent(), word);
            assert(words_spec(next) =~= seq![word]);
            assert(next.subrange(0, 2) =~= line_indent());
            assert(out.push(cur).drop_last() =~= out);
            assert(words_of_lines(out.push(cur)) == words_of_lines(out) + words_spec(cur));
            assert(wrap_words(words, max_width) == (out.push(cur), next));
            assert(words_of_lines(out.push(cur)) + words_spec(next) =~= before.push(word));
        } else {
            if byte_len(cur) > 2 {
                let c1 = cur.push(' ');
                lemma_words_push_white(cur, ' ');
                lemma_words_push_word(c1, word);
                assert((c1 + word).subrange(0, 2) =~= cur.subrange(0, 2));
                assert(wrap_words(words, max_width) == (out, c1 + word));
                assert(words_of_lines(out) + words_spec(c1 + word) =~= before.push(word));
            } else {
                lemma_byte_len_at_least(cur);
                assert(cur =~= line_indent());
                lemma_words_push_word(cur, word);
                assert((cur + word).subrange(0, 2) =~= cur.subrange(0, 2));
                assert(wrap_words(words, max_width) == (out, cur + word));
                assert(words_of_lines(out) + words_spec(cur + word) =~= before.push(word));
            }
        }
    }
}

/// A text with nothing but white space holds no word.
proof fn lemma_words_all_white(s: Seq<char>)
    requires
        forall|k: int| 0 <= k < s.len() ==> is_white(#[trigger] s[k]),
    ensures
        words_spec(s) == Seq::<Seq<char>>::empty(),
    decreases s.len(),
{
    if s.len() > 0 {
        assert(is_white(s[s.len() - 1]));
        lemma_words_all_white(s.drop_last());
    }
}

/// A text that trims to nothing is all white space.
proof fn lemma_blank_all_white(s: Seq<char>)
    requires
        trim_spec(s).len() == 0,
    ensures
        forall|k: int| 0 <= k < s.len() ==> is_white(#[trigger] s[k]),
{
    let t = trim_start_spec(s);
    lemma_trim_start_white(s);
    lemma_trim_end_empty(t);
    let n = s.len() - t.len();
    assert forall|k: int| 0 <= k < s.len() implies is_white(#[trigger] s[k]) by {
        if k >= n {
            assert(s[k] == s.skip(n)[k - n]);
            assert(is_white(t[k - n]));
        }
    }
}

/// What `trim_start_spec` drops is white space, and it keeps the rest.
proof fn lemma_trim_start_white(s: Seq<char>)
    ensures
        trim_start_spec(s).len() <= s.len(),
        trim_start_spec(s) == s.skip(s.len() - trim_start_spec(s).len()),
        forall|k: int| 0 <= k < s.len() - trim_start_spec(s).len() ==> is_white(#[trigger] s[k]),
    decreases s.len(),
{
    if s.len() > 0 && is_white(s[0]) {
        lemma_trim_start_white(s.drop_first());
        let t = trim_start_spec(s.drop_first());
        assert(s.drop_first().skip(s.drop_first().len() - t.len()) =~= s.skip(s.len() - t.len()));
        assert forall|k: int| 0 <= k < s.len() - t.len() implies is_white(#[trigger] s[k]) by {
            if k > 0 {
                assert(s[k] == s.drop_first()[k - 1]);
            }
        }
    } else {
        assert(s.skip(0) =~= s);
    }
}

/// A text that `trim_end_spec` empties is all white space.
proof fn lemma_trim_end_empty(s: Seq<char>)
    requires
        trim_end_spec(s).len() == 0,
    ensures
        forall|k: int| 0 <= k < s.len() ==> is_white(#[trigger] s[k]),
    decreases s.len(),
{
    if s.len() > 0 {
        assert(is_white(s.last()));
        lemma_trim_end_empty(s.drop_last());
        assert forall|k: int| 0 <= k < s.len() implies is_white(#[trigger] s[k]) by {
            if k < s.len() - 1 {
                assert(s[k] == s.drop_last()[k]);
            }
        }
    }
}

/// The lines of one paragraph hold the paragraph's words, in order.
proof fn lemma_paragraph_keeps_words(p: Seq<char>, max_width: int)
    ensures
        words_of_lines(paragraph_lines(p, max_width)) == words_spec(p),
{
    if trim_spec(p).len() == 0 {
        lemma_blank_all_white(p);
        lemma_words_all_white(p);
        let e = Seq::<char>::empty();
        assert(seq![e].drop_last() =~= Seq::<Seq<char>>::empty());
        assert(words_spec(e) == Seq::<Seq<char>>::empty());
        assert(words_of_lines(seq![e]) =~= Seq::<Seq<char>>::empty());
    } else {
        let ws = words_spec(p);
        lemma_words_not_white(p);
        lemma_words_not_empty(p);
        lemma_wrap_words_keep(ws, max_width);
        let (out, cur) = wrap_words(ws, max_width);
        if byte_len(cur) > 2 {
            assert(out.push(cur).drop_last() =~= out);
        } else {
            lemma_byte_len_at_least(cur);
            assert(cur =~= line_indent());
            lemma_words_indent();
            assert(words_of_lines(out) + Seq::<Seq<char>>::empty() =~= words_of_lines(out));
        }
    }
}

/// No word is empty.
proof fn lemma_words_not_empty(s: Seq<char>)
    ensures
        forall|i: int| 0 <= i < words_spec(s).len() ==> (#[trigger] words_spec(s)[i]).len() > 0,
    decreases s.len(),
{
    if s.len() > 0 {
        let w = words_spec(s.drop_last());
        let c = s.last();
        lemma_words_not_empty(s.drop_last());
        assert forall|i: int| 0 <= i < words_spec(s).len() implies (#[trigger] words_spec(s)[i]).len() > 0 by {
            if is_white(c) {
                assert(words_spec(s)[i] == w[i]);
            } else if s.len() >= 2 && !is_white(s[s.len() - 2]) && w.len() > 0 {
                if i == w.len() - 1 {
                    assert(words_spec(s)[i] == w.last().push(c));
                } else {
                    assert(words_spec(s)[i] == w[i]);
                }
            } else {
                if i < w.len() {
                    assert(words_spec(s)[i] == w[i]);
                } else {
                    assert(words_spec(s)[i] == seq![c]);
                }
            }
        }
    }
}

/// Laying out a text keeps its words, in order: the words of the screen
/// lines are the words of the text's lines.
pub proof fn law_wrapping_keeps_words(text: Seq<char>, max_width: int)
    ensures
        words_of_lines(wrap_spec(text, max_width)) == words_of_lines(lines_spec(text)),
{
    lemma_paragraphs_keep_words(lines_spec(text), max_width);
}

/// The screen lines of paragraphs hold the paragraphs' words, in order.
proof fn lemma_paragraphs_keep_words(ps: Seq<Seq<char>>, max_width: int)
    ensures
        words_of_lines(wrap_paragraphs(ps, max_width)) == words_of_lines(ps),
    decreases ps.len(),
{
    if ps.len() > 0 {
        lemma_paragraphs_keep_words(ps.drop_last(), max_width);
        lemma_words_of_lines_concat(wrap_paragraphs(ps.drop_last(), max_width), paragraph_lines(ps.last(), max_width));
        lemma_paragraph_keeps_words(ps.last(), max_width);
    }
}

/// Enter on `/save` or `/load` (in any case) asks to save to or load from
/// the file that the words after the command name, joined by single spaces;
/// with no words after the command, the history file.
pub proof fn law_enter_names_the_file(v: TuiView, c: ContextView)
    requires
        !v.answering,
        trim_spec(v.input).len() > 0,
        trim_spec(v.input)[0] == '/',
        lowercase_of(words_spec(trim_spec(v.input))[0]) == CMD_SAVE@ || lowercase_of(words_spec(trim_spec(v.input))[0])
            == CMD_LOAD@,
    ensures
        tui_enter_spec(v, c).1 == if lowercase_of(words_spec(trim_spec(v.input))[0]) == CMD_SAVE@ {
            ActionKind::Save
        } else {
            ActionKind::Load
        },
        tui_enter_spec(v, c).2 == if words_spec(trim_spec(v.input)).len() > 1 {
            join_spec(words_spec(trim_spec(v.input)).skip(1), seq![' '])
        } else {
            c.history_file
        },
{
    lemma_file_commands_apart();
    lemma_words_nonempty(trim_spec(v.input));
    if v.input.len() == 0 {
        assert(trim_spec(v.input) == v.input);
    }
}

} // verus!
