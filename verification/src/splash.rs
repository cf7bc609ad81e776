//! The texts shown when the program starts: its version and its splash.
use vstd::prelude::*;

use crate::defaults::{APP_NAME, COPYRIGHT};
use crate::text::concat3;

verus! {

/// What the build says of the program.
pub struct BuildInfo {
    pub version: String,
    pub build_id: String,
    pub build_time: String,
    pub authors: String,
    pub license: String,
}

/// The version text: name, version, build and time, copyright and licence.
pub open spec fn version_spec(b: &BuildInfo) -> Seq<char> {
    seq!['\n'] + APP_NAME@ + seq![' '] + b.version@ + seq!['.'] + b.build_id@ + seq![' ', '('] + b.build_time@
        + VERSION_COPYRIGHT@ + COPYRIGHT@ + seq![' '] + b.authors@ + VERSION_LICENSE@ + b.license@ + VERSION_TAIL@
}

pub const VERSION_COPYRIGHT: &'static str = ")\nCopyright (C) ";
pub const VERSION_LICENSE: &'static str = "\nLicensed under the ";
pub const VERSION_TAIL: &'static str = " License\n  ";

/// The decimal digits of `n`.
pub open spec fn decimal(n: nat) -> Seq<char>
    decreases n,
{
    if n < 10 {
        seq![(('0' as u32) + n) as char]
    } else {
        decimal(n / 10) + seq![(('0' as u32) + n % 10) as char]
    }
}

/// The start of text in bold and in the colour `(r, g, b)` on a terminal.
pub open spec fn bold_rgb_prefix(r: u8, g: u8, b: u8) -> Seq<char> {
    seq!['\u{1b}', '[', '1', ';', '3', '8', ';', '2', ';'] + decimal(r as nat) + seq![';'] + decimal(g as nat)
        + seq![';'] + decimal(b as nat) + seq!['m']
}

/// The end of styled text on a terminal.
pub open spec fn style_reset() -> Seq<char> {
    seq!['\u{1b}', '[', '0', 'm']
}

/// Paints text bold in the colour `(r, g, b)` with `ansi_term`
/// (`Colour::RGB(r, g, b).bold().paint(text)` written out): the escape code
/// for bold and the colour, the text, and the reset code.
#[verifier::external_body]
fn paint_bold_rgb(text: &str, r: u8, g: u8, b: u8) -> (res: String)
    ensures
        res@ == bold_rgb_prefix(r, g, b) + text@ + style_reset(),
{
    format!("{}", ansi_term::Colour::RGB(r, g, b).bold().paint(text))
}

/// The version text of the program.
pub fn version(build: &BuildInfo) -> (res: String)
    ensures
        res@ == version_spec(build),
{
    let mut t = String::from_str("\n");
    t.append(APP_NAME);
    t.append(" ");
    t.append(build.version.as_str());
    t.append(".");
    t.append(build.build_id.as_str());
    t.append(" (");
    t.append(build.build_time.as_str());
    t.append(VERSION_COPYRIGHT);
    t.append(COPYRIGHT);
    t.append(" ");
    t.append(build.authors.as_str());
    t.append(VERSION_LICENSE);
    t.append(build.license.as_str());
    t.append(VERSION_TAIL);
    proof {
        reveal_strlit("\n");
        reveal_strlit(" ");
        reveal_strlit(".");
        reveal_strlit(" (");
        assert(t@ =~= version_spec(build));
    }
    t
}

/// The splash text on lines of its own.
pub fn raw_splash(text_splash: &str) -> (res: String)
    ensures
        res@ == seq!['\n'] + text_splash@ + seq!['\n'],
{
    proof {
        reveal_strlit("\n");
    }
    concat3("\n", text_splash, "\n")
}

/// The splash as the terminal shows it: painted bold in bronze, on lines of
/// its own.
pub fn splash(text_splash: &str) -> (res: String)
    ensures
        res@ == seq!['\n'] + bold_rgb_prefix(130, 108, 72) + (seq!['\n'] + text_splash@ + seq!['\n']) + style_reset()
            + seq!['\n'],
{
    let raw = raw_splash(text_splash);
    let painted = paint_bold_rgb(raw.as_str(), 130, 108, 72);
    proof {
        reveal_strlit("\n");
    }
    let r = concat3("\n", painted.as_str(), "\n");
    assert(r@ =~= seq!['\n'] + bold_rgb_prefix(130, 108, 72) + (seq!['\n'] + text_splash@ + seq!['\n']) + style_reset() + seq!['\n']);
    r
}

} // verus!
