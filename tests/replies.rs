use perna_mix::bot::{respond_to_control, respond_to_message, ControlReply, Reply, TeamsPost};
use perna_mix::teams::create_team_message;
use perna_mix::token::encode_token;

fn names(list: &[&str]) -> Vec<String> {
    list.iter().map(|s| s.to_string()).collect()
}

fn sorted(mut v: Vec<String>) -> Vec<String> {
    v.sort();
    v
}

fn teams(reply: Reply) -> TeamsPost {
    match reply {
        Reply::Teams(p) => p,
        _ => panic!("expected teams"),
    }
}

fn check_post(p: &TeamsPost, original: &[String], a: usize, b: usize, w: usize) {
    assert_eq!(sorted(p.shuffled.clone()), sorted(original.to_vec()));
    assert_eq!(p.content, create_team_message(&p.shuffled));
    let a_names = p.shuffled[..a].join(", ");
    let b_names = p.shuffled[a..a + b].join(", ");
    let mut expected = format!("# Time A 🔫\n {}\n\n# Time B 🔫\n {}", a_names, b_names);
    if w > 0 {
        expected.push_str(&format!("\n\n# Lista de Espera ⏳\n {}", p.shuffled[a + b..].join(", ")));
    }
    assert_eq!(p.content, expected);
    assert_eq!(p.shuffled.len(), a + b + w);
}

#[test]
fn mix_of_six_names_gives_two_teams_of_three() {
    let p = teams(respond_to_message("!mix Ana, Bruno, Carla, Diego, Eva, Felipe"));
    let original = names(&["Ana", "Bruno", "Carla", "Diego", "Eva", "Felipe"]);
    check_post(&p, &original, 3, 3, 0);
    assert!(!p.content.contains("Lista de Espera"));
    assert_eq!(p.token, "reshuffle:Ana,Bruno,Carla,Diego,Eva,Felipe");
}

#[test]
fn mix_without_names_is_a_usage_error() {
    assert!(matches!(respond_to_message("!mix "), Reply::UsageError));
    assert!(matches!(respond_to_message("!mix"), Reply::UsageError));
}

#[test]
fn mix_of_thirteen_names_has_a_waitlist_of_three() {
    let original: Vec<String> = (1..=13).map(|i| format!("Player{}", i)).collect();
    let p = teams(respond_to_message(&format!("!mix {}", original.join(", "))));
    check_post(&p, &original, 5, 5, 3);
    assert_eq!(p.token, encode_token(&original));
}

#[test]
fn help_report_and_other_messages() {
    assert!(matches!(respond_to_message("!help"), Reply::Help));
    assert!(matches!(respond_to_message("!report someone"), Reply::Report));
    assert!(matches!(respond_to_message("good game"), Reply::Silent));
}

#[test]
fn accept_keeps_the_text_and_drops_the_controls() {
    let posted = teams(respond_to_message("!mix a, b, c"));
    match respond_to_control("accept", &posted.content) {
        ControlReply::Accept(text) => assert_eq!(text, posted.content),
        _ => panic!("expected accept"),
    }
}

#[test]
fn reshuffle_twice_draws_from_the_same_six_names() {
    let original = names(&["Ana", "Bruno", "Carla", "Diego", "Eva", "Felipe"]);
    let posted = teams(respond_to_message("!mix Ana, Bruno, Carla, Diego, Eva, Felipe"));
    let first = match respond_to_control(&posted.token, &posted.content) {
        ControlReply::Reshuffle(p) => p,
        _ => panic!("expected a reshuffle"),
    };
    check_post(&first, &original, 3, 3, 0);
    assert_eq!(first.token, posted.token);
    let second = match respond_to_control(&first.token, &first.content) {
        ControlReply::Reshuffle(p) => p,
        _ => panic!("expected a reshuffle"),
    };
    check_post(&second, &original, 3, 3, 0);
    assert_eq!(second.token, posted.token);
}

#[test]
fn reshuffle_keeps_names_with_commas() {
    let original = names(&["a,b", "c"]);
    let token = encode_token(&original);
    match respond_to_control(&token, "") {
        ControlReply::Reshuffle(p) => {
            check_post(&p, &original, 1, 1, 0);
            assert_eq!(p.token, token);
        }
        _ => panic!("expected a reshuffle"),
    }
}

#[test]
fn malformed_or_missing_token_fails() {
    assert!(matches!(respond_to_control("reshuffle:a\\", "x"), ControlReply::Failed));
    assert!(matches!(respond_to_control("reshuffle:a\\b", "x"), ControlReply::Failed));
    assert!(matches!(respond_to_control("reshuffle", "x"), ControlReply::Failed));
    assert!(matches!(respond_to_control("reshuf", "x"), ControlReply::Failed));
    assert!(matches!(respond_to_control("", "x"), ControlReply::Failed));
    assert!(matches!(respond_to_control("something", "x"), ControlReply::Failed));
}
