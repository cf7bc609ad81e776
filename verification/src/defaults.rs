//! The program's fixed texts and settings.
use vstd::prelude::*;

verus! {

pub const APP_NAME: &'static str = "Gromrik";
pub const COPYRIGHT: &'static str = "2026";

pub const DEFAULT_LOG_DIR: &'static str = "logs";
pub const DEFAULT_LOG_FILE: &'static str = "gromrik.log";
pub const REDACT_LOG_LIST: &'static str = "config/redact_list.txt";

pub const DEFAULT_CONFIG_FILE: &'static str = "config/gromrik.cfg";
pub const DEFAULT_HISTORY_FILE: &'static str = "history/history.json";

pub const DEFAULT_MODE: &'static str = "gui";
pub const DEFAULT_LLM_SERVER_URL: &'static str = "http://localhost:11434/api/chat";
pub const DEFAULT_MODEL: &'static str = "qwen2.5:7b";
pub const HUMAN_EMOJI: &'static str = "\u{1F914}\u{1F4AC}";

pub const DEFAULT_PERSONA: &'static str = "gromrik";
pub const PERSONA_LIST: &'static str = "gromrik, lyranis, commoner";

pub const GROMRIK_GREETING: &'static str = "Bah! Why are you bothering me?";
pub const GROMRIK_DISMISSAL: &'static str = "Go away!";
pub const GROMRIK_EMOJI: &'static str = "\u{1F624}\u{26Cf}\u{FE0F}";

pub const LYRANIS_GREETING: &'static str = "I wonder... Oh! Fine greetings, stranger. Do you want something?";
pub const LYRANIS_DISMISSAL: &'static str = "Now what was I contemplating again...?";
pub const LYRANIS_EMOJI: &'static str = "\u{1F9DD}\u{1F52E}";

pub const COMMONER_GREETING: &'static str = "Hello.";
pub const COMMONER_DISMISSAL: &'static str = "What did you say, I missed that.";
pub const COMMONER_EMOJI: &'static str = "\u{1F9D1}";
pub const COMMONER_TEXT_IMAGE: &'static str = "\u{1F9D1}";

/// A one-pixel PNG image.
pub const COMMONER_FULL_IMAGE: [u8; 67] = [
    137, 80, 78, 71, 13, 10, 26, 10, 0, 0, 0, 13, 73, 72, 68, 82, 0, 0, 0, 1, 0, 0, 0, 1, 8, 6, 0, 0, 0, 31, 21, 196,
    137, 0, 0, 0, 10, 73, 68, 65, 84, 8, 29, 99, 0, 1, 0, 0, 5, 0, 1, 138, 109, 188, 32, 0, 0, 0, 0, 73, 69, 78, 68,
    174, 66, 96, 130,
];

} // verus!
