//! The help text that `--help` shows.
use vstd::prelude::*;

use crate::defaults::COPYRIGHT;
use crate::util::{render, render_spec};

verus! {

/// The options, one per line.
pub const HELP_DETAILS: &'static str = "  --config <CONFIG FILE PATH>          Path to the config file (default: config/gromrik.cfg)\n  --persona <PERSONA>                  Persona to interact with (default: gromrik, choices: gromrik, lyranis, commoner\n  --llm-server-url <LLM SERVER URL>    URL for LLM chat endpoint, must be compatible with Ollama's /api/chat (default: http://localhost:11434/api/chat)\n  --model <LLM MODEL NAME>             LLM model to use for interacting with the persona, must be already loaded into the server (default: qwen2.5:7b)\n  --persona-file <PERSONA BUNDLE PATH> Path to a persona bundle (.grom file) to use instead of the preloaded personas. (default: none)\n  --history-file <HISTORY FILE PATH>   Path to the default file to use for saving and loading history (default: history/history.json)\n  --mode <MODE>                        Mode to run in, (default: gui, choices: cli, tui, gui, web, help\n  --cli                                Run in command line mode\n  --tui                                Run in TUI mode\n  --gui                                Run in GUI mode\n  --web                                Run in web server mode\n  --help                               Display this help message";

pub const FIELD_RUNAS: &'static str = "RUNAS";
pub const FIELD_DESCRIPTION: &'static str = "DESCRIPTION";
pub const FIELD_DETAILS: &'static str = "DETAILS";
pub const FIELD_COPYRIGHT: &'static str = "COPYRIGHT";
pub const FIELD_AUTHORS: &'static str = "AUTHORS";

/// The fields of the help template.
pub open spec fn help_fields(runas: Seq<char>, description: Seq<char>, authors: Seq<char>) -> Seq<(Seq<char>, Seq<char>)> {
    seq![
        (FIELD_RUNAS@, runas),
        (FIELD_DESCRIPTION@, description),
        (FIELD_DETAILS@, HELP_DETAILS@),
        (FIELD_COPYRIGHT@, COPYRIGHT@),
        (FIELD_AUTHORS@, authors),
    ]
}

/// The help text: the template with the program's file name, description,
/// options, copyright and authors filled in.
pub fn help_text(template: &str, runas: &str, description: &str, authors: &str) -> (res: String)
    ensures
        res@ == render_spec(template@, help_fields(runas@, description@, authors@)),
{
    let fields = vec![
        (String::from_str(FIELD_RUNAS), String::from_str(runas)),
        (String::from_str(FIELD_DESCRIPTION), String::from_str(description)),
        (String::from_str(FIELD_DETAILS), String::from_str(HELP_DETAILS)),
        (String::from_str(FIELD_COPYRIGHT), String::from_str(COPYRIGHT)),
        (String::from_str(FIELD_AUTHORS), String::from_str(authors)),
    ];
    assert(crate::util::field_views(fields@) =~= help_fields(runas@, description@, authors@));
    render(template, fields.as_slice())
}

} // verus!
