use vstd::prelude::*;

use crate::text::{split_commas, split_on_commas, starts_with, trim, trim_text};

verus! {

/// The message that asks for help.
pub open spec fn help_command() -> Seq<char> {
    "!help"@
}

/// What a message that reports a user opens with.
pub open spec fn report_command() -> Seq<char> {
    "!report"@
}

/// What a message that asks for teams opens with.
pub open spec fn mix_command() -> Seq<char> {
    "!mix"@
}

/// The players named in the argument `raw` of a mix command: its pieces between commas,
/// each trimmed; `None` when `raw` is blank.
pub open spec fn participants_of(raw: Seq<char>) -> Option<Seq<Seq<char>>> {
    if trim(raw).len() == 0 {
        None
    } else {
        Some(split_commas(raw).map_values(|p: Seq<char>| trim(p)))
    }
}

/// What an incoming message asks for.
pub enum Command {
    /// The help text.
    Help,
    /// The acknowledgment of a report.
    Report,
    /// Teams, from the text after the command.
    Mix(String),
    /// Nothing: the message is no command.
    Unknown,
}

/// Whether the text `s` opens with the literal `p`.
pub(crate) fn opens_with(s: &str, p: &str) -> (r: bool)
    ensures
        r == starts_with(s@, p@),
{
    let n = s.unicode_len();
    let k = p.unicode_len();
    if n < k {
        return false;
    }
    let head = String::from_str(s.substring_char(0, k));
    let want = String::from_str(p);
    head == want
}

/// Classifies an incoming message: exactly `!help` asks for help, text that opens with
/// `!report` reports a user, and text that opens with `!mix` asks for teams from what
/// follows the command.
pub fn classify(text: &str) -> (c: Command)
    ensures
        (c is Help) == (text@ == help_command()),
        (c is Report) == (text@ != help_command() && starts_with(text@, report_command())),
        (c is Mix) == (text@ != help_command() && !starts_with(text@, report_command())
            && starts_with(text@, mix_command())),
        c matches Command::Mix(raw) ==> raw@ == text@.subrange(
            mix_command().len() as int,
            text@.len() as int,
        ),
{
    let whole = String::from_str(text);
    let help = String::from_str("!help");
    if whole == help {
        Command::Help
    } else if opens_with(text, "!report") {
        Command::Report
    } else if opens_with(text, "!mix") {
        let k = "!mix".unicode_len();
        Command::Mix(String::from_str(text.substring_char(k, text.unicode_len())))
    } else {
        Command::Unknown
    }
}

/// The players named in the argument of a mix command: the pieces between its commas,
/// each trimmed of whitespace, in the order given, duplicates and empty names kept;
/// `None` when the argument is blank.
pub fn parse_participants(raw: &str) -> (r: Option<Vec<String>>)
    ensures
        r matches Some(v) ==> participants_of(raw@) == Some(v.deep_view()),
        r is None <==> participants_of(raw@) is None,
{
    let whole = trim_text(raw);
    if whole.unicode_len() == 0 {
        return None;
    }
    let pieces = split_on_commas(raw);
    let mut names: Vec<String> = Vec::new();
    let mut i: usize = 0;
    while i < pieces.len()
        invariant
            i <= pieces.len(),
            pieces.deep_view() == split_commas(raw@),
            names.deep_view() =~= pieces.deep_view().subrange(0, i as int).map_values(
                |p: Seq<char>| trim(p),
            ),
        decreases pieces.len() - i,
    {
        let ghost before = names.deep_view();
        let t = trim_text(pieces[i].as_str());
        names.push(t);
        assert(names.deep_view() =~= before.push(trim(pieces.deep_view()[i as int])));
        assert(pieces.deep_view().subrange(0, i + 1).map_values(|p: Seq<char>| trim(p))
            =~= before.push(trim(pieces.deep_view()[i as int])));
        i = i + 1;
    }
    assert(pieces.deep_view().subrange(0, pieces.len() as int) =~= pieces.deep_view());
    Some(names)
}

} // verus!
