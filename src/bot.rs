use vstd::prelude::*;

use crate::command::{
    classify, help_command, mix_command, opens_with, parse_participants, participants_of,
    report_command, Command,
};
use crate::shuffle::shuffle;
use crate::teams::{
    create_team_message, lemma_partition_sizes, team_a_of, team_b_of, team_message, waitlist_of,
};
use crate::text::{lemma_split_nonempty, starts_with};
use crate::token::{
    decode_token, encode_token, lemma_token_round_trip, names_of_token, token_of, token_prefix,
};

verus! {

/// The answer to `!help`.
pub const HELP_MESSAGE: &'static str = "
Perna Bot aqui! 🐦

Você invocou meus poderes, vamos ver o que posso fazer por você:

❓ Sorteio de um MIX?
➡️ Digite `!mix` com o nome dos meliantes separados por vírgula.

❓ Quer ver os mandamentos do Perna?
➡️ Aqui está: <https://discord.com/channels/776249840938123286/1128670966449438841/1128670966449438841>

❓ Alguém foi tóxico e você quer reportar?
➡️ Fale com um moderador ou use o comando `!report` para reportar um usuário.

Boa jogatina!

— PernaBot 🤖
";

/// The answer to `!report`.
pub const REPORT_MESSAGE: &'static str = "
🚨 **Reporte de usuário** 🚨

👮‍♂️ Obrigado por enviar o usuário para a moderação. Vamos analisar o caso e tomar as devidas providências. 🚔
";

/// The answer to `!mix` without names.
pub const USAGE_MESSAGE: &'static str = "🚨 Você precisa informar o nome dos jogadores, separados por vírgula! Não é tão difícil, basta ler.";

/// Identifier of the control that locks in a result.
pub const ACCEPT_ID: &'static str = "accept";

/// A drawn result, ready to post: the shuffled players, the message that shows their
/// teams, and the token that the reshuffle control carries.
pub struct TeamsPost {
    pub shuffled: Vec<String>,
    pub content: String,
    pub token: String,
}

/// What to do about an incoming message.
pub enum Reply {
    /// Post nothing.
    Silent,
    /// Post the help text.
    Help,
    /// Post the acknowledgment of a report.
    Report,
    /// Post the usage message: the mix command named no players.
    UsageError,
    /// Post the teams, with a reshuffle and an accept control.
    Teams(TeamsPost),
}

/// What to do about the activation of a control on a posted result.
pub enum ControlReply {
    /// The identifier is neither `accept` nor a readable reshuffle token (a token that is
    /// malformed, cut short or missing its list): answer with a failed interaction.
    Failed,
    /// Put this text in place of the message and remove its controls.
    Accept(String),
    /// Put the new teams in place of the message and keep both controls.
    Reshuffle(TeamsPost),
}

/// Whether `p` shows a fresh draw from the players `ns` and carries the token `token`.
pub open spec fn draws_from(p: TeamsPost, ns: Seq<Seq<char>>, token: Seq<char>) -> bool {
    &&& p.shuffled.deep_view().to_multiset() == ns.to_multiset()
    &&& p.content@ == team_message(p.shuffled.deep_view())
    &&& p.token@ == token
}

/// For every mix argument `raw` that names players, and every reordering `shuffled` of
/// them: the token made for the players reads back as exactly those players, and the
/// teams and waitlist of `shuffled` hold each of them exactly once. A reshuffle keeps
/// the token it was activated with, so this holds after any number of reshuffles.
pub proof fn lemma_reshuffle_round_trip(raw: Seq<char>, shuffled: Seq<Seq<char>>)
    requires
        participants_of(raw) is Some,
        shuffled.to_multiset() == participants_of(raw)->0.to_multiset(),
    ensures
        names_of_token(token_of(participants_of(raw)->0)) == participants_of(raw),
        (team_a_of(shuffled) + team_b_of(shuffled) + waitlist_of(shuffled)).to_multiset()
            == participants_of(raw)->0.to_multiset(),
{
    lemma_split_nonempty(raw);
    lemma_token_round_trip(participants_of(raw)->0);
    lemma_partition_sizes(shuffled);
}

/// Shuffles `names` and lays out the result, with `token` for the reshuffle control.
fn draw(names: &Vec<String>, token: String) -> (p: TeamsPost)
    ensures
        draws_from(p, names.deep_view(), token@),
{
    let shuffled = shuffle(names);
    let content = create_team_message(&shuffled);
    TeamsPost { shuffled, content, token }
}

/// Answers an incoming message: the help text for exactly `!help`, the acknowledgment for
/// `!report ...`, and for `!mix` followed by comma-separated names a random draw of teams
/// with the token of the names as given; the usage message when no names follow.
pub fn respond_to_message(text: &str) -> (r: Reply)
    ensures
        (r is Help) == (text@ == help_command()),
        (r is Report) == (text@ != help_command() && starts_with(text@, report_command())),
        (r is Silent) == (text@ != help_command() && !starts_with(text@, report_command())
            && !starts_with(text@, mix_command())),
        ({
            let raw = text@.subrange(mix_command().len() as int, text@.len() as int);
            (text@ != help_command() && !starts_with(text@, report_command()) && starts_with(
                text@,
                mix_command(),
            )) ==> match participants_of(raw) {
                None => r is UsageError,
                Some(ns) => (r matches Reply::Teams(p) && draws_from(p, ns, token_of(ns))),
            }
        }),
{
    match classify(text) {
        Command::Help => Reply::Help,
        Command::Report => Reply::Report,
        Command::Unknown => Reply::Silent,
        Command::Mix(raw) => match parse_participants(raw.as_str()) {
            None => Reply::UsageError,
            Some(names) => {
                let token = encode_token(&names);
                Reply::Teams(draw(&names, token))
            },
        },
    }
}

/// Answers the activation of a control on a posted result, given the control's
/// identifier and the message's current text: `accept` keeps the text and drops the
/// controls; a reshuffle token draws new teams from the players it carries and keeps
/// the same token; any other identifier, a token that cannot be read included, fails.
pub fn respond_to_control(custom_id: &str, content: &str) -> (r: ControlReply)
    ensures
        starts_with(custom_id@, token_prefix()) ==> match names_of_token(custom_id@) {
            None => r is Failed,
            Some(ns) => (r matches ControlReply::Reshuffle(p) && draws_from(p, ns, custom_id@)),
        },
        !starts_with(custom_id@, token_prefix()) && custom_id@ == ACCEPT_ID@ ==> (
        r matches ControlReply::Accept(c) && c@ == content@),
        !starts_with(custom_id@, token_prefix()) && custom_id@ != ACCEPT_ID@ ==> r is Failed,
{
    if opens_with(custom_id, "reshuffle:") {
        match decode_token(custom_id) {
            None => ControlReply::Failed,
            Some(names) => ControlReply::Reshuffle(draw(&names, String::from_str(custom_id))),
        }
    } else if String::from_str(custom_id) == String::from_str(ACCEPT_ID) {
        ControlReply::Accept(String::from_str(content))
    } else {
        ControlReply::Failed
    }
}

} // verus!
