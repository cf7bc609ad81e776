//! The conversation with the language model: the system prompt, the messages
//! sent, the history kept, and the history saved as JSON.
use vstd::prelude::*;

use crate::text::{
    concat, concat3, join, join_spec, lemma_split_nonempty, replace, replace_spec, split, split_spec, text_eq,
    texts, trim, trim_spec,
};
use crate::util::{field_views, render, render_spec};

verus! {

/// One message of the conversation: who sent it (`system`, `user` or
/// `assistant`) and what it says.
pub struct Message {
    pub role: String,
    pub content: String,
}

/// A list of messages by their texts.
pub open spec fn message_views(v: Seq<Message>) -> Seq<(Seq<char>, Seq<char>)> {
    v.map_values(|m: Message| (m.role@, m.content@))
}

pub const ROLE_SYSTEM: &'static str = "system";
pub const ROLE_USER: &'static str = "user";
pub const ROLE_ASSISTANT: &'static str = "assistant";

/// What comes before the earlier messages in the reminder sent with each line.
pub const MEMORY_HEAD: &'static str = "[OLD MEMORY LOG - ONLY reference this if the user uses pronouns like 'instead' or 'that'\n";

/// The system prompt of a commoner whose details could not be made.
pub const GENERIC_COMMONER: &'static str = "You are generic fantasy human commoner.";

/// What an empty answer stream reports.
pub const NO_CONTENT: &'static str = "No message content returned from the stream.";

/// The traits a commoner is given, one by the clock.
pub const COMMONER_TRAITS: [&'static str; 8] = ["rustic", "weathered", "cheerful", "anxious", "rebellious", "humble", "curious", "shrewd"];

/// The state of a conversation.
pub struct Chat {
    /// The persona's instructions.
    pub system: Message,
    /// The messages so far.
    pub history: Vec<Message>,
    /// The scene set for the conversation (empty: none).
    pub scene: String,
}

/// A message from its two texts.
pub fn message(role: &str, content: &str) -> (res: Message)
    ensures
        res.role@ == role@,
        res.content@ == content@,
{
    Message { role: String::from_str(role), content: String::from_str(content) }
}

/// A copy of a message.
pub fn copy_message(m: &Message) -> (res: Message)
    ensures
        res.role@ == m.role@,
        res.content@ == m.content@,
{
    Message { role: m.role.clone(), content: m.content.clone() }
}

/// A message as a line of the reminder: `role: content`.
pub open spec fn memory_line(m: (Seq<char>, Seq<char>)) -> Seq<char> {
    m.0 + seq![':', ' '] + m.1
}

/// The reminder of the conversation so far that goes with each line sent.
pub open spec fn memory_log(history: Seq<(Seq<char>, Seq<char>)>) -> Seq<char> {
    MEMORY_HEAD@ + join_spec(history.map_values(|m: (Seq<char>, Seq<char>)| memory_line(m)), seq!['\n'])
}

/// The messages of a saved history: the user's lines (those of `You`) as
/// `user` messages, the program's lines (those of `System`) left out, all
/// others as `assistant` messages.
pub open spec fn restored_messages(lines: Seq<(Seq<char>, Seq<char>)>) -> Seq<(Seq<char>, Seq<char>)>
    decreases lines.len(),
{
    if lines.len() == 0 {
        Seq::empty()
    } else {
        let rest = restored_messages(lines.drop_last());
        let (sender, content) = lines.last();
        if sender == crate::console::YOU@ {
            rest.push((ROLE_USER@, content))
        } else if sender == crate::console::SYSTEM@ {
            rest
        } else {
            rest.push((ROLE_ASSISTANT@, content))
        }
    }
}

/// The name and the backstory in a commoner's description
/// `NAME: ... | BACKSTORY: ...`: the text before and after the first `|`,
/// with the markers taken out and the ends trimmed; none without a `|`.
pub open spec fn commoner_details(response: Seq<char>) -> Option<(Seq<char>, Seq<char>)> {
    let parts = split_spec(response, seq!['|']);
    if parts.len() < 2 {
        None
    } else {
        let rest = join_spec(parts.skip(1), seq!['|']);
        Some(
            (
                trim_spec(replace_spec(parts[0], NAME_MARK@, Seq::empty())),
                trim_spec(replace_spec(rest, BACKSTORY_MARK@, Seq::empty())),
            ),
        )
    }
}

pub const NAME_MARK: &'static str = "NAME:";
pub const BACKSTORY_MARK: &'static str = "BACKSTORY:";

/// What `serde_json::from_str::<Vec<(String, String)>>` gives for a text: the
/// pairs, or the text of the error.
pub uninterp spec fn parsed_pairs(text: Seq<char>) -> Result<Seq<(Seq<char>, Seq<char>)>, Seq<char>>;

/// What `serde_json::to_string_pretty` gives for a list of pairs of texts:
/// the JSON text, or the text of the error.
pub uninterp spec fn pretty_pairs(lines: Seq<(Seq<char>, Seq<char>)>) -> Result<Seq<char>, Seq<char>>;

/// Pairs of texts by their texts.
pub open spec fn pair_views(v: Seq<(String, String)>) -> Seq<(Seq<char>, Seq<char>)> {
    v.map_values(|p: (String, String)| (p.0@, p.1@))
}

/// Reads a list of pairs of texts from JSON with `serde_json::from_str`. The
/// result is named `parsed_pairs`, a function of the text alone.
#[verifier::external_body]
fn json_to_pairs(text: &str) -> (res: Result<Vec<(String, String)>, String>)
    ensures
        match res {
            Ok(v) => parsed_pairs(text@) == Ok::<Seq<(Seq<char>, Seq<char>)>, Seq<char>>(pair_views(v@)),
            Err(e) => parsed_pairs(text@) == Err::<Seq<(Seq<char>, Seq<char>)>, Seq<char>>(e@),
        },
{
    match serde_json::from_str::<Vec<(String, String)>>(text) {
        Ok(v) => Ok(v),
        Err(err) => Err(err.to_string()),
    }
}

/// Writes a list of pairs of texts as indented JSON with
/// `serde_json::to_string_pretty`. The result is named `pretty_pairs`, a
/// function of the pairs alone; JSON strings keep every character, so reading
/// the text back with `serde_json::from_str` gives the same pairs.
#[verifier::external_body]
fn pairs_to_json(lines: &Vec<(String, String)>) -> (res: Result<String, String>)
    ensures
        match res {
            Ok(s) => pretty_pairs(pair_views(lines@)) == Ok::<Seq<char>, Seq<char>>(s@) && parsed_pairs(s@) == Ok::<
                Seq<(Seq<char>, Seq<char>)>,
                Seq<char>,
            >(pair_views(lines@)),
            Err(e) => pretty_pairs(pair_views(lines@)) == Err::<Seq<char>, Seq<char>>(e@),
        },
{
    match serde_json::to_string_pretty(lines) {
        Ok(s) => Ok(s),
        Err(err) => Err(err.to_string()),
    }
}

/// The JSON text under which a history is saved, or why it cannot be made.
pub fn history_json(lines: &Vec<(String, String)>) -> (res: Result<String, String>)
    ensures
        match res {
            Ok(s) => pretty_pairs(pair_views(lines@)) == Ok::<Seq<char>, Seq<char>>(s@),
            Err(e) => pretty_pairs(pair_views(lines@)) is Err && e@ == JSON_FAILED@ + pretty_pairs(
                pair_views(lines@),
            )->Err_0,
        },
        (res matches Ok(s)) ==> parsed_pairs(res->Ok_0@) == Ok::<Seq<(Seq<char>, Seq<char>)>, Seq<char>>(pair_views(lines@)),
{
    match pairs_to_json(lines) {
        Ok(s) => Ok(s),
        Err(e) => Err(concat(JSON_FAILED, e.as_str())),
    }
}

pub const JSON_FAILED: &'static str = "Failed to convert history to JSON: ";
pub const CORRUPTED_HEAD: &'static str = "Saved history file ";
pub const CORRUPTED_MID: &'static str = " is corrupted: ";

/// The message sent for a line the user typed.
pub fn user_message(content: &str) -> (res: Message)
    ensures
        res.role@ == ROLE_USER@,
        res.content@ == content@,
{
    message(ROLE_USER, content)
}

/// The messages that go to the model for one line: the history given, then
/// the line as a `user` message.
pub fn request_messages(history: &Vec<Message>, user_text: &str) -> (res: Vec<Message>)
    ensures
        message_views(res@) == message_views(history@).push((ROLE_USER@, user_text@)),
{
    let mut messages: Vec<Message> = Vec::new();
    let mut i: usize = 0;
    while i < history.len()
        invariant
            i <= history@.len(),
            message_views(messages@) == message_views(history@.take(i as int)),
        decreases history@.len() - i,
    {
        let ghost before = messages@;
        messages.push(copy_message(&history[i]));
        assert(history@.take(i + 1) =~= history@.take(i as int).push(history@[i as int]));
        assert(message_views(messages@) =~= message_views(before).push((history@[i as int].role@, history@[i as int].content@)));
        assert(message_views(messages@) =~= message_views(history@.take(i + 1)));
        i = i + 1;
    }
    assert(history@.take(history@.len() as int) =~= history@);
    let ghost before = messages@;
    messages.push(user_message(user_text));
    assert(message_views(messages@) =~= message_views(before).push((ROLE_USER@, user_text@)));
    messages
}

/// The clock picks the commoner's trait: the seconds modulo the number of traits.
pub open spec fn commoner_trait_index(seconds: u64) -> int {
    (seconds % 8) as int
}

/// The trait that the clock picks for a commoner.
pub fn commoner_trait(seconds: u64) -> (res: &'static str)
    ensures
        res@ == COMMONER_TRAITS@[commoner_trait_index(seconds)]@,
{
    let i = (seconds % 8) as usize;
    COMMONER_TRAITS[i]
}

impl Chat {
    /// The messages by their texts.
    pub open spec fn history_views(&self) -> Seq<(Seq<char>, Seq<char>)> {
        message_views(self.history@)
    }

    /// A conversation with a persona: its prompt as the system message, and
    /// its greeting as the first message.
    pub fn new(prompt: &str, greeting: &str) -> (res: Chat)
        ensures
            res.system.role@ == ROLE_SYSTEM@,
            res.system.content@ == render_spec(prompt@, Seq::empty()),
            res.history_views() == seq![(ROLE_ASSISTANT@, greeting@)],
            res.scene@ == Seq::<char>::empty(),
    {
        let fields: Vec<(String, String)> = Vec::new();
        let content = render(prompt, fields.as_slice());
        assert(field_views(fields@) =~= Seq::empty());
        let res = Chat {
            system: Message { role: String::from_str(ROLE_SYSTEM), content },
            history: vec![message(ROLE_ASSISTANT, greeting)],
            scene: String::new(),
        };
        assert(res.history_views() =~= seq![(ROLE_ASSISTANT@, greeting@)]);
        res
    }

    /// A commoner's conversation, from the model's description of the
    /// commoner: with a name and a backstory, the prompt filled with them
    /// (the name is returned too); without, a generic commoner's prompt.
    pub fn from_commoner_reply(prompt: &str, greeting: &str, response: &str) -> (res: (Chat, Option<String>))
        ensures
            res.0.system.role@ == ROLE_SYSTEM@,
            res.0.history_views() == seq![(ROLE_ASSISTANT@, greeting@)],
            res.0.scene@ == Seq::<char>::empty(),
            match commoner_details(response@) {
                Some((name, bio)) => res.1 matches Some(n) && n@ == name && res.0.system.content@ == render_spec(
                    prompt@,
                    seq![(NAME_FIELD@, name), (BACKSTORY_FIELD@, bio)],
                ),
                None => res.1 is None && res.0.system.content@ == GENERIC_COMMONER@,
            },
    {
        let details = parse_commoner(response);
        let history = vec![message(ROLE_ASSISTANT, greeting)];
        assert(message_views(history@) =~= seq![(ROLE_ASSISTANT@, greeting@)]);
        match details {
            Some((name, bio)) => {
                let fields = vec![
                    (String::from_str(NAME_FIELD), name.clone()),
                    (String::from_str(BACKSTORY_FIELD), bio),
                ];
                assert(field_views(fields@) =~= seq![(NAME_FIELD@, name@), (BACKSTORY_FIELD@, fields@[1].1@)]);
                let content = render(prompt, fields.as_slice());
                let chat = Chat { system: Message { role: String::from_str(ROLE_SYSTEM), content }, history, scene: String::new() };
                (chat, Some(name))
            },
            None => {
                let chat = Chat { system: message(ROLE_SYSTEM, GENERIC_COMMONER), history, scene: String::new() };
                (chat, None)
            },
        }
    }

    /// Sets the scene of the conversation.
    pub fn set_scene(&mut self, scene: &str)
        ensures
            final(self).scene@ == scene@,
            final(self).system == old(self).system,
            final(self).history == old(self).history,
    {
        self.scene = String::from_str(scene);
    }

    /// Sets the scene that a persona comes with, where it has one.
    pub fn open_scene(&mut self, scene: &str)
        ensures
            final(self).scene@ == if scene@.len() > 0 { scene@ } else { old(self).scene@ },
            final(self).system == old(self).system,
            final(self).history == old(self).history,
    {
        if scene.unicode_len() > 0 {
            self.set_scene(scene);
        }
    }

    /// Records a line the user typed, and gives the messages that go with it
    /// to the model: the system message and a reminder of the conversation
    /// before the line.
    pub fn chat(&mut self, input: &str) -> (res: Vec<Message>)
        ensures
            message_views(res@) == seq![
                (old(self).system.role@, old(self).system.content@),
                (ROLE_SYSTEM@, memory_log(old(self).history_views())),
            ],
            final(self).history_views() == old(self).history_views().push((ROLE_USER@, input@)),
            final(self).system == old(self).system,
            final(self).scene == old(self).scene,
    {
        let log = self.memory();
        let messages = vec![copy_message(&self.system), Message { role: String::from_str(ROLE_SYSTEM), content: log }];
        let ghost pre = self.history_views();
        self.history.push(user_message(input));
        assert(self.history_views() =~= pre.push((ROLE_USER@, input@)));
        assert(message_views(messages@) =~= seq![
            (self.system.role@, self.system.content@),
            (ROLE_SYSTEM@, memory_log(pre)),
        ]);
        messages
    }

    /// The reminder of the conversation so far.
    pub fn memory(&self) -> (res: String)
        ensures
            res@ == memory_log(self.history_views()),
    {
        let ghost hv = self.history_views();
        let ghost ml = hv.map_values(|m: (Seq<char>, Seq<char>)| memory_line(m));
        let mut lines: Vec<String> = Vec::new();
        let mut i: usize = 0;
        proof {
            reveal_strlit(": ");
            assert(": "@ =~= seq![':', ' ']);
            reveal_strlit("\n");
            assert("\n"@ =~= seq!['\n']);
        }
        while i < self.history.len()
            invariant
                hv == self.history_views(),
                ml == hv.map_values(|m: (Seq<char>, Seq<char>)| memory_line(m)),
                ": "@ == seq![':', ' '],
                i <= hv.len(),
                texts(lines@) == ml.take(i as int),
            decreases hv.len() - i,
        {
            let m = &self.history[i];
            let line = concat3(m.role.as_str(), ": ", m.content.as_str());
            let ghost before = texts(lines@);
            lines.push(line);
            assert(ml.take(i + 1) =~= ml.take(i as int).push(ml[i as int]));
            assert(texts(lines@) =~= before.push(line@));
            i = i + 1;
        }
        assert(ml.take(ml.len() as int) =~= ml);
        let body = join(lines.as_slice(), "\n");
        concat(MEMORY_HEAD, body.as_str())
    }

    /// Adds the model's complete answer to the history, where it is not empty.
    pub fn record_reply(&mut self, answer: &str)
        ensures
            final(self).history_views() == if answer@.len() > 0 {
                old(self).history_views().push((ROLE_ASSISTANT@, answer@))
            } else {
                old(self).history_views()
            },
            final(self).system == old(self).system,
            final(self).scene == old(self).scene,
    {
        if answer.unicode_len() > 0 {
            let ghost pre = self.history_views();
            self.history.push(message(ROLE_ASSISTANT, answer));
            assert(self.history_views() =~= pre.push((ROLE_ASSISTANT@, answer@)));
        }
    }

    /// Replaces the history with the messages of saved lines.
    pub fn restore_history(&mut self, lines: &Vec<(String, String)>)
        ensures
            final(self).history_views() == restored_messages(pair_views(lines@)),
            final(self).system == old(self).system,
            final(self).scene == old(self).scene,
    {
        let ghost pv = pair_views(lines@);
        self.history = Vec::new();
        let mut i: usize = 0;
        assert(self.history_views() =~= restored_messages(pv.take(0)));
        while i < lines.len()
            invariant
                pv == pair_views(lines@),
                i <= pv.len(),
                self.history_views() == restored_messages(pv.take(i as int)),
                self.system == old(self).system,
                self.scene == old(self).scene,
            decreases pv.len() - i,
        {
            let (sender, content) = (&lines[i].0, &lines[i].1);
            assert(pv.take(i + 1).drop_last() =~= pv.take(i as int));
            assert(pv.take(i + 1).last() == (sender@, content@));
            let ghost pre = self.history_views();
            if text_eq(sender.as_str(), crate::console::YOU) {
                self.history.push(message(ROLE_USER, content.as_str()));
                assert(self.history_views() =~= pre.push((ROLE_USER@, content@)));
            } else if text_eq(sender.as_str(), crate::console::SYSTEM) {
            } else {
                self.history.push(message(ROLE_ASSISTANT, content.as_str()));
                assert(self.history_views() =~= pre.push((ROLE_ASSISTANT@, content@)));
            }
            i = i + 1;
        }
        assert(pv.take(pv.len() as int) =~= pv);
    }

    /// Loads a saved history from the JSON text of file `filename`: the
    /// history becomes the saved lines' messages and the lines are returned;
    /// text that does not read as lines leaves the history as it was.
    pub fn load_history_text(&mut self, filename: &str, json: &str) -> (res: Result<Vec<(String, String)>, String>)
        ensures
            match parsed_pairs(json@) {
                Ok(lines) => res matches Ok(v) && pair_views(v@) == lines && final(self).history_views()
                    == restored_messages(lines),
                Err(e) => res matches Err(m) && m@ == CORRUPTED_HEAD@ + filename@ + CORRUPTED_MID@ + e
                    && final(self).history_views() == old(self).history_views(),
            },
            final(self).system == old(self).system,
            final(self).scene == old(self).scene,
    {
        match json_to_pairs(json) {
            Ok(lines) => {
                self.restore_history(&lines);
                Ok(lines)
            },
            Err(e) => {
                let head = concat3(CORRUPTED_HEAD, filename, CORRUPTED_MID);
                Err(concat(head.as_str(), e.as_str()))
            },
        }
    }
}

pub const NAME_FIELD: &'static str = "NAME";
pub const BACKSTORY_FIELD: &'static str = "BACKSTORY";

/// The name and backstory in a commoner's description, if it has a `|`.
pub fn parse_commoner(response: &str) -> (res: Option<(String, String)>)
    ensures
        match commoner_details(response@) {
            Some((name, bio)) => res matches Some((n, b)) && n@ == name && b@ == bio,
            None => res is None,
        },
{
    proof {
        reveal_strlit("|");
        assert("|"@ =~= seq!['|']);
        lemma_split_nonempty(response@, seq!['|'], 0);
    }
    let parts = split(response, "|");
    if parts.len() < 2 {
        return None;
    }
    let mut rest: Vec<String> = Vec::new();
    let mut i: usize = 1;
    let ghost ps = texts(parts@);
    while i < parts.len()
        invariant
            ps == texts(parts@),
            1 <= i <= ps.len(),
            texts(rest@) == ps.skip(1).take(i - 1),
        decreases ps.len() - i,
    {
        let ghost before = texts(rest@);
        rest.push(parts[i].clone());
        assert(ps.skip(1).take(i as int) =~= ps.skip(1).take(i - 1).push(ps[i as int]));
        assert(texts(rest@) =~= before.push(parts@[i as int]@));
        i = i + 1;
    }
    assert(ps.skip(1).take(i - 1) =~= ps.skip(1));
    let bio_part = join(rest.as_slice(), "|");
    proof {
        reveal_strlit("NAME:");
        reveal_strlit("BACKSTORY:");
    }
    assert(NAME_MARK@.len() > 0);
    assert(BACKSTORY_MARK@.len() > 0);
    let name = trim(replace(parts[0].as_str(), NAME_MARK, "").as_str());
    let bio = trim(replace(bio_part.as_str(), BACKSTORY_MARK, "").as_str());
    proof {
        reveal_strlit("");
        assert(""@ =~= Seq::<char>::empty());
    }
    Some((name, bio))
}

/// What a finished answer stream gives: the answer, or the report that
/// nothing came.
pub fn stream_result(complete: String) -> (res: Result<String, String>)
    ensures
        complete@.len() == 0 ==> (res matches Err(e) && e@ == NO_CONTENT@),
        complete@.len() > 0 ==> (res matches Ok(s) && s@ == complete@),
{
    if complete.unicode_len() == 0 {
        Err(String::from_str(NO_CONTENT))
    } else {
        Ok(complete)
    }
}

/// The answer as the stream brings it.
pub struct StreamCollector {
    /// The answer so far.
    pub complete: String,
    /// Whether the chunk with the final counts has come.
    pub done: bool,
}

impl StreamCollector {
    /// Nothing received yet.
    pub fn new() -> (res: StreamCollector)
        ensures
            res.complete@ == Seq::<char>::empty(),
            !res.done,
    {
        StreamCollector { complete: String::new(), done: false }
    }

    /// One chunk of the stream, read as JSON: its message's content, if it
    /// has one, is added to the answer and returned to be shown; a chunk
    /// with the output count ends the stream.
    pub fn on_chunk(&mut self, content: Option<&str>, has_eval_count: bool) -> (res: Option<String>)
        ensures
            final(self).complete@ == match content {
                Some(c) => old(self).complete@ + c@,
                None => old(self).complete@,
            },
            final(self).done == (old(self).done || has_eval_count),
            match content {
                Some(c) => res matches Some(t) && t@ == c@,
                None => res is None,
            },
    {
        let res = match content {
            Some(c) => {
                self.complete.append(c);
                Some(String::from_str(c))
            },
            None => None,
        };
        if has_eval_count {
            self.done = true;
        }
        res
    }
}

} // verus!
