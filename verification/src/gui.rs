//! The decisions of the window interface: what each key and each piece of the
//! persona's answer does to the conversation shown, and what the program must
//! do then.
use vstd::prelude::*;

use crate::console::{
    lemma_file_commands_apart, lemma_words_nonempty, argument_of, command_of, file_argument, gui_commands, gui_commands_spec, has_argument, history_down,
    history_down_spec, history_up, history_up_spec, label_list, label_list_exec, loaded_message, message3,
    parse_command, persona_error, saved_message, system_line, tab_completion, tab_spec, unknown_message, Action,
    ActionKind, ConsoleContext, ContextView, CMD_CLEAR, CMD_EXIT, CMD_HELP, CMD_LOAD, CMD_PERSONA, CMD_QUIT,
    CMD_RESET, CMD_SAVE, CMD_SCENE, GUI_HELP_TAIL, HELP_HEAD, MSG_LOADED_HEAD, MSG_LOADED_TAIL, MSG_LOAD_ERROR,
    MSG_NO_SCENE, MSG_SAVED_HEAD, MSG_SAVED_TAIL, MSG_SAVE_ERROR, MSG_SCENE_SET, MSG_UNKNOWN_HEAD,
    MSG_UNKNOWN_TAIL, MSG_VALID_PERSONA, SYSTEM, WORD_EXIT, WORD_QUIT, YOU,
};
use crate::history::line_views;
use crate::text::{
    words_spec,
    join_spec, lowercase_of,concat, eq_ignore_ascii_case, eq_ignore_ascii_case_spec, is_blank, text_eq, texts, trim, trim_spec};
use crate::tui::contains_text;

verus! {

/// The window's conversation state.
pub struct GuiState {
    /// The lines shown: who spoke, and what.
    pub history_lines: Vec<(String, String)>,
    /// The lines sent so far.
    pub input_history: Vec<String>,
    /// Which earlier input Up and Down have reached (its length: none).
    pub input_index: usize,
    /// The answer being received.
    pub current_reply: String,
    /// Whether an answer is awaited.
    pub is_answering: bool,
    /// Whether the input field has yet to be given the focus.
    pub is_first_frame: bool,
    /// Whether the conversation must be scrolled to its end.
    pub scroll_to_bottom: bool,
    /// The line being typed.
    pub input: String,
    /// Whether a piece of the answer came since the frame began.
    pub received_tokens: bool,
}

/// The window's state by its texts.
pub struct GuiView {
    pub lines: Seq<(Seq<char>, Seq<char>)>,
    pub inputs: Seq<Seq<char>>,
    pub index: int,
    pub reply: Seq<char>,
    pub answering: bool,
    pub first_frame: bool,
    pub to_bottom: bool,
    pub input: Seq<char>,
    pub received: bool,
}

impl View for GuiState {
    type V = GuiView;

    open spec fn view(&self) -> GuiView {
        GuiView {
            lines: line_views(self.history_lines@),
            inputs: texts(self.input_history@),
            index: self.input_index as int,
            reply: self.current_reply@,
            answering: self.is_answering,
            first_frame: self.is_first_frame,
            to_bottom: self.scroll_to_bottom,
            input: self.input@,
            received: self.received_tokens,
        }
    }
}

/// The help text of the window.
pub open spec fn gui_help(personas: Seq<Seq<char>>) -> Seq<char> {
    HELP_HEAD@ + label_list(personas) + GUI_HELP_TAIL@
}

/// The state and action that Enter leads to.
pub open spec fn gui_enter_spec(v: GuiView, c: ContextView) -> (GuiView, ActionKind, Seq<char>) {
    let prompt = trim_spec(v.input);
    if prompt.len() == 0 {
        (v, ActionKind::Nothing, Seq::empty())
    } else {
        let v1 = GuiView { inputs: v.inputs.push(prompt), index: (v.inputs.len() + 1) as int, ..v };
        if prompt[0] == '/' {
            let cmd = command_of(prompt);
            if cmd == CMD_CLEAR@ {
                (
                    GuiView {
                        lines: Seq::empty(),
                        reply: Seq::empty(),
                        answering: false,
                        to_bottom: false,
                        input: Seq::empty(),
                        ..v1
                    },
                    ActionKind::Nothing,
                    Seq::empty(),
                )
            } else if cmd == CMD_RESET@ {
                (v1, ActionKind::Reset, Seq::empty())
            } else if cmd == CMD_PERSONA@ {
                if has_argument(prompt) && c.personas.contains(argument_of(prompt)) {
                    (v1, ActionKind::SwitchPersona, argument_of(prompt))
                } else {
                    (
                        GuiView { lines: v1.lines.push((SYSTEM@, persona_error(c.personas))), ..v1 },
                        ActionKind::Nothing,
                        Seq::empty(),
                    )
                }
            } else if cmd == CMD_SCENE@ {
                if has_argument(prompt) {
                    (
                        GuiView {
                            lines: v1.lines.push((SYSTEM@, MSG_SCENE_SET@ + argument_of(prompt))),
                            input: Seq::empty(),
                            ..v1
                        },
                        ActionKind::SetScene,
                        argument_of(prompt),
                    )
                } else {
                    (
                        GuiView { lines: v1.lines.push((SYSTEM@, MSG_NO_SCENE@)), ..v1 },
                        ActionKind::Nothing,
                        Seq::empty(),
                    )
                }
            } else if cmd == CMD_SAVE@ {
                (v1, ActionKind::Save, file_argument(prompt, c.history_file))
            } else if cmd == CMD_LOAD@ {
                (v1, ActionKind::Load, file_argument(prompt, c.history_file))
            } else if cmd == CMD_EXIT@ || cmd == CMD_QUIT@ {
                (v1, ActionKind::Exit, Seq::empty())
            } else if cmd == CMD_HELP@ {
                (
                    GuiView {
                        lines: v1.lines.push((SYSTEM@, gui_help(c.personas))),
                        to_bottom: true,
                        input: Seq::empty(),
                        ..v1
                    },
                    ActionKind::Nothing,
                    Seq::empty(),
                )
            } else {
                (
                    GuiView {
                        lines: v1.lines.push((SYSTEM@, unknown_message(cmd))),
                        to_bottom: true,
                        input: Seq::empty(),
                        ..v1
                    },
                    ActionKind::Nothing,
                    Seq::empty(),
                )
            }
        } else if eq_ignore_ascii_case_spec(prompt, WORD_EXIT@) || eq_ignore_ascii_case_spec(prompt, WORD_QUIT@) {
            (v1, ActionKind::Exit, Seq::empty())
        } else {
            (
                GuiView {
                    lines: v1.lines.push((YOU@, prompt)),
                    to_bottom: true,
                    answering: true,
                    input: Seq::empty(),
                    ..v1
                },
                ActionKind::Chat,
                prompt,
            )
        }
    }
}

/// The state that the end of an answer leads to.
pub open spec fn gui_finished_spec(v: GuiView, c: ContextView) -> GuiView {
    let lines = if !v.received && trim_spec(v.reply).len() == 0 {
        v.lines.push((c.persona_name, c.dismissal))
    } else if trim_spec(v.reply).len() > 0 {
        v.lines.push((c.persona_name, v.reply))
    } else {
        v.lines
    };
    GuiView { lines: lines, reply: Seq::empty(), answering: false, to_bottom: true, ..v }
}

impl GuiState {
    /// The state keeps Up and Down within the earlier inputs.
    pub open spec fn inv(&self) -> bool {
        self.input_index <= self.input_history@.len()
    }

    /// A conversation that begins with the persona's greeting.
    pub fn new(persona_name: &String, greeting: &String) -> (res: GuiState)
        ensures
            res.inv(),
            res@.lines == seq![(persona_name@, greeting@)],
            res@.inputs == Seq::<Seq<char>>::empty(),
            res@.index == 0,
            res@.reply == Seq::<char>::empty(),
            !res@.answering,
            res@.first_frame,
            !res@.to_bottom,
            res@.input == Seq::<char>::empty(),
            !res@.received,
    {
        let res = GuiState {
            history_lines: vec![(persona_name.clone(), greeting.clone())],
            input_history: Vec::new(),
            input_index: 0,
            current_reply: String::new(),
            is_answering: false,
            is_first_frame: true,
            scroll_to_bottom: false,
            input: String::new(),
            received_tokens: false,
        };
        assert(res@.lines =~= seq![(persona_name@, greeting@)]);
        assert(res@.inputs =~= Seq::<Seq<char>>::empty());
        res
    }

    /// A new frame: no piece of the answer has come in it yet.
    pub fn begin_frame(&mut self)
        ensures
            final(self)@ == (GuiView { received: false, ..old(self)@ }),
            final(self).inv() == old(self).inv(),
    {
        self.received_tokens = false;
    }

    /// A piece of the answer came: it is shown, and the view follows it.
    pub fn on_token(&mut self, token: &str)
        ensures
            final(self)@ == (GuiView { reply: old(self)@.reply + token@, to_bottom: true, received: true, ..old(self)@ }),
            final(self).inv() == old(self).inv(),
    {
        self.current_reply.append(token);
        self.scroll_to_bottom = true;
        self.received_tokens = true;
    }

    /// The answer ended: it is added to the conversation where it holds
    /// more than white space, the persona's dismissal where nothing came.
    pub fn on_finished(&mut self, ctx: &ConsoleContext)
        ensures
            final(self)@ == gui_finished_spec(old(self)@, ctx@),
            final(self).inv() == old(self).inv(),
    {
        let ghost pre = self@;
        let blank = is_blank(self.current_reply.as_str());
        if !self.received_tokens && blank {
            self.history_lines.push((ctx.persona_name.clone(), ctx.dismissal.clone()));
        } else if !blank {
            self.history_lines.push((ctx.persona_name.clone(), self.current_reply.clone()));
        }
        self.current_reply = String::new();
        self.is_answering = false;
        self.scroll_to_bottom = true;
        assert(self@.lines =~= gui_finished_spec(pre, ctx@).lines);
    }

    /// Whether the input field is to be given the focus now: on the first
    /// frame that shows the conversation fully.
    pub fn take_first_focus(&mut self, fully_shown: bool) -> (res: bool)
        ensures
            res == (old(self)@.first_frame && fully_shown),
            final(self)@ == (GuiView { first_frame: old(self)@.first_frame && !fully_shown, ..old(self)@ }),
            final(self).inv() == old(self).inv(),
    {
        if self.is_first_frame && fully_shown {
            self.is_first_frame = false;
            true
        } else {
            false
        }
    }

    /// The user scrolled the conversation: it no longer follows the end.
    pub fn on_scrolled(&mut self)
        ensures
            final(self)@ == (GuiView { to_bottom: false, ..old(self)@ }),
            final(self).inv() == old(self).inv(),
    {
        self.scroll_to_bottom = false;
    }

    /// The conversation was scrolled to its end.
    pub fn on_scrolled_to_bottom(&mut self)
        ensures
            final(self)@ == (GuiView { to_bottom: false, ..old(self)@ }),
            final(self).inv() == old(self).inv(),
    {
        self.scroll_to_bottom = false;
    }

    /// The Tab key: completes the typed command.
    pub fn on_tab(&mut self, ctx: &ConsoleContext)
        ensures
            final(self)@ == match tab_spec(old(self)@.input, ctx@.personas, ctx@.history_file, gui_commands_spec()) {
                Some(s) => GuiView { input: s, ..old(self)@ },
                None => old(self)@,
            },
            final(self).inv() == old(self).inv(),
    {
        let commands = gui_commands();
        match tab_completion(self.input.as_str(), &ctx.personas, ctx.history_file.as_str(), &commands) {
            Some(s) => {
                self.input = s;
            },
            None => {},
        }
    }

    /// The Up key: the earlier input before the one shown.
    pub fn on_up(&mut self)
        requires
            old(self).inv(),
        ensures
            final(self).inv(),
            final(self)@ == (GuiView {
                index: history_up_spec(old(self)@.inputs, old(self)@.index, old(self)@.input).0,
                input: history_up_spec(old(self)@.inputs, old(self)@.index, old(self)@.input).1,
                ..old(self)@
            }),
    {
        let (i, s) = history_up(&self.input_history, self.input_index, &self.input);
        self.input_index = i;
        self.input = s;
    }

    /// The Down key: the earlier input after the one shown, or an empty line.
    pub fn on_down(&mut self)
        requires
            old(self).inv(),
        ensures
            final(self).inv(),
            final(self)@ == (GuiView {
                index: history_down_spec(old(self)@.inputs, old(self)@.index, old(self)@.input).0,
                input: history_down_spec(old(self)@.inputs, old(self)@.index, old(self)@.input).1,
                ..old(self)@
            }),
    {
        let (i, s) = history_down(&self.input_history, self.input_index, &self.input);
        self.input_index = i;
        self.input = s;
    }

    /// The Enter key: the typed line is sent, or the command in it is carried
    /// out; the result says what the program must do besides.
    pub fn on_enter(&mut self, ctx: &ConsoleContext) -> (res: Action)
        requires
            old(self).inv(),
        ensures
            final(self).inv(),
            (final(self)@, res.kind, res.arg@) == gui_enter_spec(old(self)@, ctx@),
    {
        let ghost pre = self@;
        let prompt = trim(self.input.as_str());
        if prompt.unicode_len() == 0 {
            return Action { kind: ActionKind::Nothing, arg: String::new() };
        }
        self.input_history.push(prompt.clone());
        self.input_index = self.input_history.len();
        let ghost v1 = self@;
        assert(v1.inputs =~= pre.inputs.push(prompt@));
        let pv = crate::text::chars_of(prompt.as_str());
        if pv[0] == '/' {
            let (command, has_arg, arg) = parse_command(prompt.as_str());
            let cmd = command.as_str();
            if text_eq(cmd, CMD_CLEAR) {
                self.history_lines = Vec::new();
                self.current_reply = String::new();
                self.is_answering = false;
                self.scroll_to_bottom = false;
                self.input = String::new();
                assert(self@.lines =~= Seq::<(Seq<char>, Seq<char>)>::empty());
                Action { kind: ActionKind::Nothing, arg: String::new() }
            } else if text_eq(cmd, CMD_RESET) {
                Action { kind: ActionKind::Reset, arg: String::new() }
            } else if text_eq(cmd, CMD_PERSONA) {
                if has_arg && contains_text(&ctx.personas, arg.as_str()) {
                    Action { kind: ActionKind::SwitchPersona, arg }
                } else {
                    let msg = concat(MSG_VALID_PERSONA, label_list_exec(&ctx.personas).as_str());
                    self.history_lines.push(system_line(msg));
                    assert(self@.lines =~= v1.lines.push((SYSTEM@, persona_error(ctx@.personas))));
                    Action { kind: ActionKind::Nothing, arg: String::new() }
                }
            } else if text_eq(cmd, CMD_SCENE) {
                if has_arg {
                    let msg = concat(MSG_SCENE_SET, arg.as_str());
                    self.history_lines.push(system_line(msg));
                    self.input = String::new();
                    assert(self@.lines =~= v1.lines.push((SYSTEM@, MSG_SCENE_SET@ + arg@)));
                    Action { kind: ActionKind::SetScene, arg }
                } else {
                    self.history_lines.push(system_line(String::from_str(MSG_NO_SCENE)));
                    assert(self@.lines =~= v1.lines.push((SYSTEM@, MSG_NO_SCENE@)));
                    Action { kind: ActionKind::Nothing, arg: String::new() }
                }
            } else if text_eq(cmd, CMD_SAVE) {
                let file = if has_arg { arg } else { ctx.history_file.clone() };
                Action { kind: ActionKind::Save, arg: file }
            } else if text_eq(cmd, CMD_LOAD) {
                let file = if has_arg { arg } else { ctx.history_file.clone() };
                Action { kind: ActionKind::Load, arg: file }
            } else if text_eq(cmd, CMD_EXIT) || text_eq(cmd, CMD_QUIT) {
                Action { kind: ActionKind::Exit, arg: String::new() }
            } else if text_eq(cmd, CMD_HELP) {
                let help = message3(HELP_HEAD, label_list_exec(&ctx.personas).as_str(), GUI_HELP_TAIL);
                self.history_lines.push(system_line(help));
                self.scroll_to_bottom = true;
                self.input = String::new();
                assert(self@.lines =~= v1.lines.push((SYSTEM@, gui_help(ctx@.personas))));
                Action { kind: ActionKind::Nothing, arg: String::new() }
            } else {
                let msg = message3(MSG_UNKNOWN_HEAD, cmd, MSG_UNKNOWN_TAIL);
                self.history_lines.push(system_line(msg));
                self.scroll_to_bottom = true;
                self.input = String::new();
                assert(self@.lines =~= v1.lines.push((SYSTEM@, unknown_message(command@))));
                Action { kind: ActionKind::Nothing, arg: String::new() }
            }
        } else if eq_ignore_ascii_case(prompt.as_str(), WORD_EXIT) || eq_ignore_ascii_case(prompt.as_str(), WORD_QUIT) {
            Action { kind: ActionKind::Exit, arg: String::new() }
        } else {
            self.history_lines.push((String::from_str(YOU), prompt.clone()));
            self.scroll_to_bottom = true;
            self.is_answering = true;
            self.input = String::new();
            assert(self@.lines =~= v1.lines.push((YOU@, prompt@)));
            Action { kind: ActionKind::Chat, arg: prompt }
        }
    }

    /// The outcome of saving the history to `filename`.
    pub fn on_saved(&mut self, filename: &str, result: Result<(), String>)
        ensures
            final(self)@ == (GuiView {
                lines: old(self)@.lines.push(
                    (
                        SYSTEM@,
                        saved_message(
                            filename@,
                            match result {
                                Ok(_) => Ok(()),
                                Err(e) => Err(e@),
                            },
                        ),
                    ),
                ),
                to_bottom: true,
                input: Seq::empty(),
                ..old(self)@
            }),
            final(self).inv() == old(self).inv(),
    {
        let ghost pre = self@;
        let msg = match result {
            Ok(_) => message3(MSG_SAVED_HEAD, filename, MSG_SAVED_TAIL),
            Err(e) => concat(MSG_SAVE_ERROR, e.as_str()),
        };
        self.history_lines.push(system_line(msg));
        self.scroll_to_bottom = true;
        self.input = String::new();
        assert(self@.lines =~= pre.lines.push((SYSTEM@, msg@)));
    }

    /// The outcome of loading the history from `filename`: the loaded lines
    /// are shown, then a line that reports the load.
    pub fn on_loaded(&mut self, filename: &str, result: Result<Vec<(String, String)>, String>)
        ensures
            final(self)@ == (GuiView {
                lines: match result {
                    Ok(l) => line_views(l@),
                    Err(_) => old(self)@.lines,
                }.push(
                    (
                        SYSTEM@,
                        loaded_message(
                            filename@,
                            match result {
                                Ok(_) => None,
                                Err(e) => Some(e@),
                            },
                        ),
                    ),
                ),
                to_bottom: true,
                input: Seq::empty(),
                ..old(self)@
            }),
            final(self).inv() == old(self).inv(),
    {
        let msg = match result {
            Ok(lines) => {
                self.history_lines = lines;
                message3(MSG_LOADED_HEAD, filename, MSG_LOADED_TAIL)
            },
            Err(e) => concat(MSG_LOAD_ERROR, e.as_str()),
        };
        let ghost mid = self@.lines;
        self.history_lines.push(system_line(msg));
        self.scroll_to_bottom = true;
        self.input = String::new();
        assert(self@.lines =~= mid.push((SYSTEM@, msg@)));
    }

    /// Sending the line failed: no answer is awaited.
    pub fn on_chat_failed(&mut self)
        ensures
            final(self)@ == (GuiView { answering: false, ..old(self)@ }),
            final(self).inv() == old(self).inv(),
    {
        self.is_answering = false;
    }
}

/// Enter on `/save` or `/load` (in any case) asks to save to or load from
/// the file that the words after the command name, joined by single spaces;
/// with no words after the command, the history file.
pub proof fn law_enter_names_the_file(v: GuiView, c: ContextView)
    requires
        trim_spec(v.input).len() > 0,
        trim_spec(v.input)[0] == '/',
        lowercase_of(words_spec(trim_spec(v.input))[0]) == CMD_SAVE@ || lowercase_of(words_spec(trim_spec(v.input))[0])
            == CMD_LOAD@,
    ensures
        gui_enter_spec(v, c).1 == if lowercase_of(words_spec(trim_spec(v.input))[0]) == CMD_SAVE@ {
            ActionKind::Save
        } else {
            ActionKind::Load
        },
        gui_enter_spec(v, c).2 == if words_spec(trim_spec(v.input)).len() > 1 {
            join_spec(words_spec(trim_spec(v.input)).skip(1), seq![' '])
        } else {
            c.history_file
        },
{
    lemma_file_commands_apart();
    lemma_words_nonempty(trim_spec(v.input));
    if v.input.len() == 0 {
        assert(trim_spec(v.input) == v.input);
    }
}

} // verus!
