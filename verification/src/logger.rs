//! What the log holds: the secrets that are kept out of it, and the form of
//! each line.
use vstd::prelude::*;

use crate::text::{chars_of, concat, concat3, eq_ignore_ascii_case_spec, push_char, is_blank, join, join_spec, lines, lines_spec, starts_with, starts_with_spec, texts, trim, trim_spec};

verus! {

/// A regular expression of the `regex` crate.
#[verifier::external_type_specification]
#[verifier::external_body]
pub struct ExRegex(regex::Regex);

/// The characters that a regular expression gives a meaning to.
pub open spec fn is_meta(c: char) -> bool {
    c == '\\' || c == '.' || c == '+' || c == '*' || c == '?' || c == '(' || c == ')' || c == '|' || c == '['
        || c == ']' || c == '{' || c == '}' || c == '^' || c == '$' || c == '#' || c == '&' || c == '-' || c == '~'
}

/// `s` with a `\` before each character that a regular expression gives a
/// meaning to.
pub open spec fn escape_spec(s: Seq<char>) -> Seq<char>
    decreases s.len(),
{
    if s.len() == 0 {
        Seq::empty()
    } else {
        let c = s.last();
        escape_spec(s.drop_last()) + if is_meta(c) { seq!['\\', c] } else { seq![c] }
    }
}

/// Whether a character is one that a regular expression gives a meaning to.
fn meta(c: char) -> (res: bool)
    ensures
        res == is_meta(c),
{
    c == '\\' || c == '.' || c == '+' || c == '*' || c == '?' || c == '(' || c == ')' || c == '|' || c == '['
        || c == ']' || c == '{' || c == '}' || c == '^' || c == '$' || c == '#' || c == '&' || c == '-' || c == '~'
}

/// A text escaped for use in a regular expression, as `regex::escape` does
/// it: a `\` before each character that has a meaning there.
pub fn regex_escape(s: &str) -> (res: String)
    ensures
        res@ == escape_spec(s@),
{
    let v = chars_of(s);
    let mut out = String::new();
    let mut i: usize = 0;
    while i < v.len()
        invariant
            v@ == s@,
            i <= v@.len(),
            out@ == escape_spec(v@.take(i as int)),
        decreases v@.len() - i,
    {
        let c = v[i];
        assert(v@.take(i + 1).drop_last() =~= v@.take(i as int));
        assert(v@.take(i + 1).last() == c);
        if meta(c) {
            push_char(&mut out, '\\');
        }
        push_char(&mut out, c);
        assert(out@ =~= escape_spec(v@.take(i + 1)));
        i = i + 1;
    }
    assert(v@.take(v@.len() as int) =~= v@);
    out
}

/// Whether `regex::Regex::new` accepts a pattern.
pub uninterp spec fn regex_compiles(pattern: Seq<char>) -> bool;

/// What `regex::Regex::replace_all` gives: every match of `pattern` in
/// `text` replaced by `rep`.
pub uninterp spec fn regex_replaced(pattern: Seq<char>, text: Seq<char>, rep: Seq<char>) -> Seq<char>;

/// The entries of a redaction list that are patterns: trimmed lines that
/// are neither empty nor `#` comments.
pub open spec fn redact_entries(ls: Seq<Seq<char>>) -> Seq<Seq<char>>
    decreases ls.len(),
{
    if ls.len() == 0 {
        Seq::empty()
    } else {
        let rest = redact_entries(ls.drop_last());
        let t = trim_spec(ls.last());
        if t.len() > 0 && !starts_with_spec(t, seq!['#']) {
            rest.push(t)
        } else {
            rest
        }
    }
}

/// The pattern that matches any entry of a redaction list literally
/// (`(a|b|...)`, each entry escaped); none for a list without entries.
pub open spec fn redaction_pattern_spec(list: Seq<char>) -> Option<Seq<char>> {
    let entries = redact_entries(lines_spec(list));
    if entries.len() == 0 {
        None
    } else {
        Some(
            seq!['('] + join_spec(entries.map_values(|e: Seq<char>| escape_spec(e)), seq!['|']) + seq![')'],
        )
    }
}

/// The pattern of a redaction list's text.
pub fn redaction_pattern(list: &str) -> (res: Option<String>)
    ensures
        match redaction_pattern_spec(list@) {
            Some(p) => res matches Some(r) && r@ == p,
            None => res is None,
        },
{
    let ls = lines(list);
    let ghost lv = texts(ls@);
    let mut escaped: Vec<String> = Vec::new();
    let ghost mut entries: Seq<Seq<char>> = Seq::empty();
    let mut i: usize = 0;
    proof {
        reveal_strlit("#");
        assert("#"@ =~= seq!['#']);
    }
    assert(lv.take(0) =~= Seq::<Seq<char>>::empty());
    while i < ls.len()
        invariant
            lv == texts(ls@),
            "#"@ == seq!['#'],
            i <= lv.len(),
            entries == redact_entries(lv.take(i as int)),
            texts(escaped@) == entries.map_values(|e: Seq<char>| escape_spec(e)),
        decreases lv.len() - i,
    {
        assert(lv.take(i + 1).drop_last() =~= lv.take(i as int));
        assert(lv.take(i + 1).last() == ls@[i as int]@);
        let t = trim(ls[i].as_str());
        if t.unicode_len() > 0 && !starts_with(t.as_str(), "#") {
            let e = regex_escape(t.as_str());
            let ghost before = texts(escaped@);
            escaped.push(e);
            proof {
                assert(texts(escaped@) =~= before.push(e@));
                entries = entries.push(t@);
                assert(texts(escaped@) =~= entries.map_values(|e: Seq<char>| escape_spec(e)));
            }
        }
        i = i + 1;
    }
    assert(lv.take(lv.len() as int) =~= lv);
    if escaped.len() == 0 {
        None
    } else {
        proof {
            reveal_strlit("|");
            assert("|"@ =~= seq!['|']);
            reveal_strlit("(");
            reveal_strlit(")");
        }
        let joined = join(escaped.as_slice(), "|");
        Some(concat3("(", joined.as_str(), ")"))
    }
}

/// What a redacted secret is replaced by.
pub const REDACTED: &'static str = "[REDACTED]";

/// Takes the secrets of a redaction pattern out of log messages.
pub struct Redactor {
    pattern: String,
    regex: regex::Regex,
}

impl Redactor {
    /// The pattern that this redactor was made from.
    pub closed spec fn pattern(&self) -> Seq<char> {
        self.pattern@
    }

    /// Compiles a pattern with `regex::Regex::new`; `None` where the crate
    /// refuses it.
    #[verifier::external_body]
    fn compile(pattern: &str) -> (res: Option<Redactor>)
        ensures
            res is Some <==> regex_compiles(pattern@),
            res matches Some(r) ==> r.pattern() == pattern@,
    {
        match regex::Regex::new(pattern) {
            Ok(regex) => Some(Redactor { pattern: pattern.to_string(), regex }),
            Err(_) => None,
        }
    }

    /// The redactor of a redaction list's text: the pattern of its entries,
    /// compiled; `None` where the list has no entries or the pattern does
    /// not compile.
    pub fn from_list(list: &str) -> (res: Option<Redactor>)
        ensures
            match redaction_pattern_spec(list@) {
                Some(p) => (res is Some <==> regex_compiles(p)) && (res matches Some(r) ==> r.pattern() == p),
                None => res is None,
            },
    {
        match redaction_pattern(list) {
            Some(p) => Self::compile(p.as_str()),
            None => None,
        }
    }

    /// Replaces every match in `text` by `rep` with
    /// `regex::Regex::replace_all`. The result is named `regex_replaced`, a
    /// function of the pattern that the redactor was made from, the text and
    /// the replacement.
    #[verifier::external_body]
    fn replace_all(&self, text: &str, rep: &str) -> (res: String)
        ensures
            res@ == regex_replaced(self.pattern(), text@, rep@),
    {
        self.regex.replace_all(text, rep).into_owned()
    }

    /// A log message with every secret replaced by `[REDACTED]`.
    pub fn redact(&self, message: &str) -> (res: String)
        ensures
            res@ == regex_replaced(self.pattern(), message@, REDACTED@),
    {
        self.replace_all(message, REDACTED)
    }
}

/// A log line: its details (time, level, target) in brackets, then the message.
pub open spec fn log_line_spec(details: Seq<Seq<char>>, message: Seq<char>) -> Seq<char> {
    seq!['['] + join_spec(details, seq![' ']) + seq![']', ' '] + message
}

/// A log line from its details and its message.
pub fn log_line(details: &Vec<String>, message: &str) -> (res: String)
    ensures
        res@ == log_line_spec(texts(details@), message@),
{
    proof {
        reveal_strlit(" ");
        assert(" "@ =~= seq![' ']);
        reveal_strlit("[");
        reveal_strlit("] ");
    }
    let d = join(details.as_slice(), " ");
    let head = concat3("[", d.as_str(), "] ");
    concat(head.as_str(), message)
}

/// How much the log holds.
#[derive(Debug, Clone, Copy, PartialEq, Eq, Structural)]
pub enum LogLevel {
    Error,
    Warn,
    Info,
    Debug,
    Trace,
}

/// The level that a name gives, whatever the case of its letters: `error`,
/// `warn`, `info`, `debug` or `trace`.
pub open spec fn level_named(name: Seq<char>) -> Option<LogLevel> {
    if eq_ignore_ascii_case_spec(name, seq!['E', 'R', 'R', 'O', 'R']) {
        Some(LogLevel::Error)
    } else if eq_ignore_ascii_case_spec(name, seq!['W', 'A', 'R', 'N']) {
        Some(LogLevel::Warn)
    } else if eq_ignore_ascii_case_spec(name, seq!['I', 'N', 'F', 'O']) {
        Some(LogLevel::Info)
    } else if eq_ignore_ascii_case_spec(name, seq!['D', 'E', 'B', 'U', 'G']) {
        Some(LogLevel::Debug)
    } else if eq_ignore_ascii_case_spec(name, seq!['T', 'R', 'A', 'C', 'E']) {
        Some(LogLevel::Trace)
    } else {
        None
    }
}

/// Reads a level with `log::Level`'s `FromStr`, which compares the name with
/// `ERROR`, `WARN`, `INFO`, `DEBUG` and `TRACE` ignoring ASCII case.
#[verifier::external_body]
fn parse_level(name: &str) -> (res: Option<LogLevel>)
    ensures
        res == level_named(name@),
{
    match name.parse::<log::Level>() {
        Ok(log::Level::Error) => Some(LogLevel::Error),
        Ok(log::Level::Warn) => Some(LogLevel::Warn),
        Ok(log::Level::Info) => Some(LogLevel::Info),
        Ok(log::Level::Debug) => Some(LogLevel::Debug),
        Ok(log::Level::Trace) => Some(LogLevel::Trace),
        Err(_) => None,
    }
}

/// The level of the log: the one that the setting (`RUST_LOG`) names, else
/// the default, `debug`.
pub fn log_level(setting: Option<&str>) -> (res: LogLevel)
    ensures
        res == match setting {
            Some(s) => match level_named(s@) {
                Some(l) => l,
                None => LogLevel::Debug,
            },
            None => LogLevel::Debug,
        },
{
    match setting {
        Some(s) => match parse_level(s) {
            Some(l) => l,
            None => LogLevel::Debug,
        },
        None => LogLevel::Debug,
    }
}

} // verus!
