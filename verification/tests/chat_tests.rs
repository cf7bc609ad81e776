use gromrik::chat::{
    commoner_trait, history_json, parse_commoner, request_messages, stream_result, user_message, Chat, StreamCollector,
    GENERIC_COMMONER, MEMORY_HEAD, NO_CONTENT,
};

fn pairs(v: &[(&str, &str)]) -> Vec<(String, String)> {
    v.iter().map(|(a, b)| (a.to_string(), b.to_string())).collect()
}

fn roles(chat: &Chat) -> Vec<(String, String)> {
    chat.history.iter().map(|m| (m.role.clone(), m.content.clone())).collect()
}

#[test]
fn new_chat_starts_with_the_greeting() {
    let c = Chat::new("You are {{NAME}}, a dwarf.", "Bah!");
    assert_eq!(c.system.role, "system");
    assert_eq!(c.system.content, "You are {{NAME}}, a dwarf.");
    assert_eq!(roles(&c), pairs(&[("assistant", "Bah!")]));
    assert_eq!(c.scene, "");
}

#[test]
fn a_line_goes_with_the_memory_of_the_conversation() {
    let mut c = Chat::new("Be grumpy.", "Bah!");
    let sent = c.chat("Hello there");
    assert_eq!(sent.len(), 2);
    assert_eq!((sent[0].role.as_str(), sent[0].content.as_str()), ("system", "Be grumpy."));
    assert_eq!(sent[1].role, "system");
    assert_eq!(sent[1].content, format!("{}assistant: Bah!", MEMORY_HEAD));
    assert_eq!(roles(&c), pairs(&[("assistant", "Bah!"), ("user", "Hello there")]));
    c.record_reply("Go away.");
    c.record_reply("");
    assert_eq!(roles(&c), pairs(&[("assistant", "Bah!"), ("user", "Hello there"), ("assistant", "Go away.")]));
    assert_eq!(
        c.memory(),
        "[OLD MEMORY LOG - ONLY reference this if the user uses pronouns like 'instead' or 'that'\nassistant: Bah!\nuser: Hello there\nassistant: Go away."
    );
}

#[test]
fn request_adds_the_user_line_last() {
    let history = vec![user_message("one")];
    let m = request_messages(&history, "two");
    let got: Vec<(String, String)> = m.iter().map(|m| (m.role.clone(), m.content.clone())).collect();
    assert_eq!(got, pairs(&[("user", "one"), ("user", "two")]));
}

#[test]
fn commoner_details_are_read_from_the_reply() {
    assert_eq!(
        parse_commoner("NAME: Bob Tanner | BACKSTORY: A farmer | with cows."),
        Some(("Bob Tanner".to_string(), "A farmer | with cows.".to_string()))
    );
    assert_eq!(parse_commoner("|"), Some((String::new(), String::new())));
    assert_eq!(parse_commoner("NAME: Bob"), None);
    let (chat, name) = Chat::from_commoner_reply("I am {{name}}. {{BACKSTORY}}", "Hello.", "NAME: Ann|BACKSTORY: Baker.");
    assert_eq!(name, Some("Ann".to_string()));
    assert_eq!(chat.system.content, "I am {{name}}. Baker.");
    assert_eq!(roles(&chat), pairs(&[("assistant", "Hello.")]));
    let (chat, name) = Chat::from_commoner_reply("I am {{NAME}}.", "Hello.", "no details");
    assert_eq!(name, None);
    assert_eq!(chat.system.content, GENERIC_COMMONER);
}

#[test]
fn the_clock_picks_a_trait() {
    assert_eq!(commoner_trait(0), "rustic");
    assert_eq!(commoner_trait(9), "weathered");
    assert_eq!(commoner_trait(15), "shrewd");
}

#[test]
fn saved_history_loads_back() {
    let lines = pairs(&[("Gromrik", "Bah!"), ("You", "hi \"there\"\n"), ("System", "Saved."), ("Gromrik", "Go.")]);
    let json = history_json(&lines).unwrap();
    let mut c = Chat::new("p", "g");
    let loaded = c.load_history_text("history/h.json", &json).unwrap();
    assert_eq!(loaded, lines);
    assert_eq!(roles(&c), pairs(&[("assistant", "Bah!"), ("user", "hi \"there\"\n"), ("assistant", "Go.")]));
}

#[test]
fn history_is_saved_as_indented_json() {
    let json = history_json(&pairs(&[("You", "hello")])).unwrap();
    assert_eq!(json, "[\n  [\n    \"You\",\n    \"hello\"\n  ]\n]");
}

#[test]
fn corrupted_history_is_reported_and_kept_out() {
    let mut c = Chat::new("p", "g");
    let e = c.load_history_text("h.json", "not json").unwrap_err();
    assert!(e.starts_with("Saved history file h.json is corrupted: "), "{}", e);
    assert!(e.len() > "Saved history file h.json is corrupted: ".len());
    assert_eq!(roles(&c), pairs(&[("assistant", "g")]));
}

#[test]
fn restoring_leaves_out_program_lines() {
    let mut c = Chat::new("p", "g");
    c.restore_history(&pairs(&[("System", "x"), ("You", "a"), ("Lyranis", "b")]));
    assert_eq!(roles(&c), pairs(&[("user", "a"), ("assistant", "b")]));
}

#[test]
fn scene_is_set() {
    let mut c = Chat::new("p", "g");
    c.set_scene("A tavern.");
    assert_eq!(c.scene, "A tavern.");
}

#[test]
fn stream_collects_the_answer() {
    let mut s = StreamCollector::new();
    assert_eq!(s.on_chunk(Some("Bah"), false), Some("Bah".to_string()));
    assert_eq!(s.on_chunk(None, false), None);
    assert!(!s.done);
    assert_eq!(s.on_chunk(Some("!"), true), Some("!".to_string()));
    assert!(s.done);
    assert_eq!(s.complete, "Bah!");
    assert_eq!(stream_result(s.complete.clone()), Ok("Bah!".to_string()));
    assert_eq!(stream_result(String::new()), Err(NO_CONTENT.to_string()));
}

#[test]
fn a_persona_scene_is_opened_where_there_is_one() {
    let mut c = Chat::new("p", "g");
    c.open_scene("");
    assert_eq!(c.scene, "");
    c.open_scene("A forge.");
    assert_eq!(c.scene, "A forge.");
    c.open_scene("");
    assert_eq!(c.scene, "A forge.");
}
