use gromrik::history::{Histories, History};
use gromrik::location::Location;

fn line(a: &str, b: &str) -> (String, String) {
    (a.to_string(), b.to_string())
}

#[test]
fn new_history_is_empty() {
    let h = History::new();
    assert!(h.lines.is_empty());
    assert!(h.display.is_empty());
    let mut hs = Histories::new();
    assert!(hs.persona.is_empty());
    assert!(hs.lines().is_empty());
    assert!(hs.inputs().is_empty());
}

#[test]
fn switching_keeps_each_persona_history() {
    let mut hs = Histories::new();
    hs.switch(&"gromrik".to_string());
    hs.insert_line(&line("You", "hi"));
    hs.insert_line(&line("Gromrik", "Bah!"));
    hs.switch(&"lyranis".to_string());
    assert!(hs.lines().is_empty());
    hs.insert_line(&line("You", "hello"));
    hs.switch(&"gromrik".to_string());
    assert_eq!(hs.lines(), &vec![line("You", "hi"), line("Gromrik", "Bah!")]);
    assert_eq!(hs.display(), &vec![line("You", "hi"), line("Gromrik", "Bah!")]);
    hs.switch(&"lyranis".to_string());
    assert_eq!(hs.lines(), &vec![line("You", "hello")]);
}

#[test]
fn clear_empties_display_only() {
    let mut hs = Histories::new();
    hs.switch(&"gromrik".to_string());
    hs.insert_line(&line("You", "hi"));
    hs.clear();
    assert!(hs.display().is_empty());
    assert_eq!(hs.lines(), &vec![line("You", "hi")]);
}

#[test]
fn load_sets_lines_and_display() {
    let mut hs = Histories::new();
    let lines = vec![line("You", "a"), line("System", "b")];
    hs.load(&lines);
    assert_eq!(hs.lines(), &lines);
    assert_eq!(hs.display(), &lines);
    hs.lines_mut().push(line("X", "y"));
    assert_eq!(hs.lines().len(), 3);
    assert_eq!(hs.display().len(), 2);
    hs.display_mut().clear();
    assert!(hs.display().is_empty());
}

#[test]
fn inputs_are_kept_in_order() {
    let mut hs = Histories::new();
    hs.insert_input(&"one".to_string());
    hs.insert_input(&"two".to_string());
    assert_eq!(hs.inputs(), &vec!["one".to_string(), "two".to_string()]);
}

#[test]
fn location_lines_parse() {
    let l = Location::new("tavern::The Tavern::A smoky tavern");
    assert_eq!((l.label.as_str(), l.display.as_str(), l.scene.as_str()), ("tavern", "The Tavern", "A smoky tavern"));
    let l = Location::new("forge");
    assert_eq!((l.label.as_str(), l.display.as_str(), l.scene.as_str()), ("forge", "forge", "forge"));
    let l = Location::new("mine::Deep Mine");
    assert_eq!((l.label.as_str(), l.display.as_str(), l.scene.as_str()), ("mine", "Deep Mine", "mine"));
    let l = Location::new("a::b::c::d");
    assert_eq!(l.scene, "c");
}

#[test]
fn later_location_lines_replace_earlier() {
    let base = Location::defaults(&["forge::Forge".to_string(), "mine".to_string()]);
    assert_eq!(base.len(), 2);
    let all = Location::explore(Some(&base), &["forge::Old Forge::Embers".to_string(), "hall".to_string()]);
    assert_eq!(all.len(), 3);
    assert_eq!(all.get("forge").unwrap().display, "Old Forge");
    assert_eq!(all.get("mine").unwrap().display, "mine");
    assert!(all.contains_key("hall"));
    assert_eq!(base.get("forge").unwrap().display, "Forge");
    let none = Location::explore(None, &[]);
    assert_eq!(none.len(), 0);
}

#[test]
fn switching_back_shows_the_kept_lines() {
    let mut hs = Histories::new();
    hs.switch(&"gromrik".to_string());
    let shown = vec![line("Gromrik", "Bah!"), line("You", "hi")];
    let kept = hs.switch_keeping(&shown, &"lyranis".to_string());
    assert!(kept.is_empty());
    let there = vec![line("Lyranis", "Hm?")];
    let back = hs.switch_keeping(&there, &"gromrik".to_string());
    assert_eq!(back, shown);
    let again = hs.switch_keeping(&vec![], &"lyranis".to_string());
    assert_eq!(again, there);
}
