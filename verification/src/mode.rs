//! The user interface to run: from a name, the program's own file name, or the
//! command line.
use vstd::prelude::*;

use crate::defaults::DEFAULT_MODE;
use crate::text::{chars_of, find_char, string_from_range, string_of, text_eq, texts};

verus! {

/// A user interface.
#[derive(Debug, Clone, Copy, PartialEq, Eq, Structural)]
pub enum Mode {
    CLI,
    TUI,
    GUI,
    WEB,
    Help,
}

/// The position of the first `c` in `s`, or -1 where there is none.
pub open spec fn first_index(s: Seq<char>, c: char) -> int {
    if exists|i: int| 0 <= i < s.len() && s[i] == c {
        choose|i: int| 0 <= i < s.len() && s[i] == c && forall|k: int| 0 <= k < i ==> s[k] != c
    } else {
        -1
    }
}

/// The mode that a name stands for: `cli`, `tui`, `gui` or `web`.
pub open spec fn mode_named(s: Seq<char>) -> Option<Mode> {
    if s == seq!['c', 'l', 'i'] {
        Some(Mode::CLI)
    } else if s == seq!['t', 'u', 'i'] {
        Some(Mode::TUI)
    } else if s == seq!['g', 'u', 'i'] {
        Some(Mode::GUI)
    } else if s == seq!['w', 'e', 'b'] {
        Some(Mode::WEB)
    } else {
        None
    }
}

/// The file name cut at its first `.`.
pub open spec fn bin_stem(bin: Seq<char>) -> Seq<char> {
    if first_index(bin, '.') >= 0 {
        bin.take(first_index(bin, '.'))
    } else {
        bin
    }
}

/// The mode that the program's file name selects: what follows the first `-`
/// of its stem, where that names a mode; else the default mode
/// (`DEFAULT_MODE`, the window).
pub open spec fn mode_of_bin(bin: Seq<char>) -> Mode {
    let stem = bin_stem(bin);
    let named = if first_index(stem, '-') >= 0 {
        mode_named(stem.skip(first_index(stem, '-') + 1))
    } else {
        None
    };
    match named {
        Some(m) => m,
        None => match mode_named(DEFAULT_MODE@) {
            Some(m) => m,
            None => Mode::GUI,
        },
    }
}

/// The mode that `s` names, or the mode of the program's file name.
pub open spec fn mode_from_str_spec(s: Seq<char>, bin: Seq<char>) -> Mode {
    match mode_named(s) {
        Some(m) => m,
        None => mode_of_bin(bin),
    }
}

/// The mode that the command line selects, looking from argument `i` on: the
/// first `--mode <name>`, `--cli`, `--tui`, `--gui` or `--web` decides; with
/// none of them, the program's file name does.
pub open spec fn mode_from_args_spec(args: Seq<Seq<char>>, i: int, bin: Seq<char>) -> Mode
    decreases args.len() - i,
{
    if i < 0 || i >= args.len() {
        mode_of_bin(bin)
    } else if args[i] == seq!['-', '-', 'm', 'o', 'd', 'e'] {
        if i + 1 < args.len() {
            mode_from_str_spec(args[i + 1], bin)
        } else {
            mode_of_bin(bin)
        }
    } else if args[i] == seq!['-', '-', 'c', 'l', 'i'] {
        Mode::CLI
    } else if args[i] == seq!['-', '-', 't', 'u', 'i'] {
        Mode::TUI
    } else if args[i] == seq!['-', '-', 'g', 'u', 'i'] {
        Mode::GUI
    } else if args[i] == seq!['-', '-', 'w', 'e', 'b'] {
        Mode::WEB
    } else {
        mode_from_args_spec(args, i + 1, bin)
    }
}

/// The name of a mode.
pub open spec fn mode_name(m: Mode) -> Seq<char> {
    match m {
        Mode::CLI => seq!['c', 'l', 'i'],
        Mode::TUI => seq!['t', 'u', 'i'],
        Mode::GUI => seq!['g', 'u', 'i'],
        Mode::WEB => seq!['w', 'e', 'b'],
        Mode::Help => seq!['h', 'e', 'l', 'p'],
    }
}

/// The position of the first `c` in `s`, if any.
pub fn first_index_exec(s: &str, c: char) -> (res: Option<usize>)
    ensures
        match res {
            Some(i) => i as int == first_index(s@, c) && i < s@.len() && s@[i as int] == c,
            None => first_index(s@, c) == -1,
        },
{
    let r = find_char(s, c);
    match r {
        Some(i) => {
            proof {
                let j = first_index(s@, c);
                assert(0 <= i < s@.len() && s@[i as int] == c);
                if j != i {
                    if j < i {
                        assert(s@[j] == c);
                    } else {
                        assert(s@[i as int] != c);
                    }
                }
            }
            Some(i)
        },
        None => None,
    }
}

/// Whether `s` is the text `lit`.
pub fn is_text(s: &str, lit: &str) -> (res: bool)
    ensures
        res == (s@ == lit@),
{
    text_eq(s, lit)
}

impl Mode {
    /// The mode that `s` names: `cli`, `tui`, `gui` or `web`.
    pub fn named(s: &str) -> (res: Option<Mode>)
        ensures
            res == mode_named(s@),
    {
        proof {
            reveal_strlit("cli");
            reveal_strlit("tui");
            reveal_strlit("gui");
            reveal_strlit("web");
            assert("cli"@ =~= seq!['c', 'l', 'i']);
            assert("tui"@ =~= seq!['t', 'u', 'i']);
            assert("gui"@ =~= seq!['g', 'u', 'i']);
            assert("web"@ =~= seq!['w', 'e', 'b']);
        }
        if is_text(s, "cli") {
            Some(Mode::CLI)
        } else if is_text(s, "tui") {
            Some(Mode::TUI)
        } else if is_text(s, "gui") {
            Some(Mode::GUI)
        } else if is_text(s, "web") {
            Some(Mode::WEB)
        } else {
            None
        }
    }

    /// The mode that the program's file name selects: the one its suffix
    /// names, else the default mode.
    pub fn from_bin_name(bin_name: &str) -> (res: Mode)
        ensures
            res == mode_of_bin(bin_name@),
    {
        let v = chars_of(bin_name);
        let stem = match first_index_exec(bin_name, '.') {
            Some(i) => string_from_range(&v, 0, i),
            None => string_of(v.as_slice()),
        };
        assert(stem@ == bin_stem(bin_name@));
        let w = chars_of(stem.as_str());
        let named = match first_index_exec(stem.as_str(), '-') {
            Some(i) => {
                assert(i < w.len());
                let suffix = string_from_range(&w, i + 1, w.len());
                Self::named(suffix.as_str())
            },
            None => None,
        };
        match named {
            Some(m) => m,
            None => match Self::named(DEFAULT_MODE) {
                Some(m) => m,
                None => Mode::GUI,
            },
        }
    }

    /// The mode that `s` names, or else the mode of the program's file name.
    pub fn from_str(s: &str, bin_name: &str) -> (res: Mode)
        ensures
            res == mode_from_str_spec(s@, bin_name@),
    {
        match Self::named(s) {
            Some(m) => m,
            None => Self::from_bin_name(bin_name),
        }
    }

    /// The mode that the command line selects (the program's file name
    /// deciding where no option does).
    pub fn mode(args: &[String], bin_name: &str) -> (res: Mode)
        ensures
            res == mode_from_args_spec(texts(args@), 0, bin_name@),
    {
        proof {
            reveal_strlit("--mode");
            reveal_strlit("--cli");
            reveal_strlit("--tui");
            reveal_strlit("--gui");
            reveal_strlit("--web");
            assert("--mode"@ =~= seq!['-', '-', 'm', 'o', 'd', 'e']);
            assert("--cli"@ =~= seq!['-', '-', 'c', 'l', 'i']);
            assert("--tui"@ =~= seq!['-', '-', 't', 'u', 'i']);
            assert("--gui"@ =~= seq!['-', '-', 'g', 'u', 'i']);
            assert("--web"@ =~= seq!['-', '-', 'w', 'e', 'b']);
        }
        let ghost a = texts(args@);
        let mut i: usize = 0;
        while i < args.len()
            invariant
                i <= args@.len(),
                a == texts(args@),
                "--mode"@ == seq!['-', '-', 'm', 'o', 'd', 'e'],
                "--cli"@ == seq!['-', '-', 'c', 'l', 'i'],
                "--tui"@ == seq!['-', '-', 't', 'u', 'i'],
                "--gui"@ == seq!['-', '-', 'g', 'u', 'i'],
                "--web"@ == seq!['-', '-', 'w', 'e', 'b'],
                mode_from_args_spec(a, 0, bin_name@) == mode_from_args_spec(a, i as int, bin_name@),
            decreases args@.len() - i,
        {
            let arg = args[i].as_str();
            assert(a[i as int] == arg@);
            if is_text(arg, "--mode") {
                if i + 1 < args.len() {
                    assert(a[i + 1] == args@[i + 1]@);
                    return Self::from_str(args[i + 1].as_str(), bin_name);
                } else {
                    return Self::from_bin_name(bin_name);
                }
            } else if is_text(arg, "--cli") {
                return Mode::CLI;
            } else if is_text(arg, "--tui") {
                return Mode::TUI;
            } else if is_text(arg, "--gui") {
                return Mode::GUI;
            } else if is_text(arg, "--web") {
                return Mode::WEB;
            }
            i = i + 1;
        }
        Self::from_bin_name(bin_name)
    }

    /// The name of the mode (its `Display` text).
    pub fn name(&self) -> (res: String)
        ensures
            res@ == mode_name(*self),
    {
        proof {
            reveal_strlit("cli");
            reveal_strlit("tui");
            reveal_strlit("gui");
            reveal_strlit("web");
            reveal_strlit("help");
        }
        let r = match self {
            Mode::CLI => String::from_str("cli"),
            Mode::TUI => String::from_str("tui"),
            Mode::GUI => String::from_str("gui"),
            Mode::WEB => String::from_str("web"),
            Mode::Help => String::from_str("help"),
        };
        assert(r@ =~= mode_name(*self));
        r
    }
}

/// A mode's name names that mode again (for every mode but `Help`, which has
/// no name of its own to be read back).
pub proof fn law_mode_name_round_trip(m: Mode)
    requires
        m != Mode::Help,
    ensures
        mode_named(mode_name(m)) == Some(m),
{
    assert(seq!['t', 'u', 'i'] != seq!['c', 'l', 'i']);
    assert(seq!['g', 'u', 'i'] != seq!['c', 'l', 'i']);
    assert(seq!['g', 'u', 'i'] != seq!['t', 'u', 'i']);
    assert(seq!['w', 'e', 'b'] != seq!['c', 'l', 'i']);
    assert(seq!['w', 'e', 'b'] != seq!['t', 'u', 'i']);
    assert(seq!['w', 'e', 'b'] != seq!['g', 'u', 'i']);
}

} // verus!
