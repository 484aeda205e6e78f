use perna_mix::shuffle::shuffle;
use perna_mix::teams::{create_team_message, join_names, partition, render, Partition};

fn names(list: &[&str]) -> Vec<String> {
    list.iter().map(|s| s.to_string()).collect()
}

fn sorted(mut v: Vec<String>) -> Vec<String> {
    v.sort();
    v
}

#[test]
fn partition_sizes_for_every_length_up_to_fifteen() {
    for n in 0..=15usize {
        let list: Vec<String> = (0..n).map(|i| format!("p{}", i)).collect();
        let p = partition(&list);
        let a = (n / 2).min(5);
        let b = (n - a).min(5);
        assert_eq!(p.team_a.len(), a, "n = {}", n);
        assert_eq!(p.team_b.len(), b, "n = {}", n);
        assert_eq!(p.waitlist.len(), n - a - b, "n = {}", n);
        let mut all = p.team_a.clone();
        all.extend(p.team_b.clone());
        all.extend(p.waitlist.clone());
        assert_eq!(all, list);
    }
}

#[test]
fn partition_of_one_name_puts_it_in_team_b() {
    let p = partition(&names(&["Solo"]));
    assert!(p.team_a.is_empty());
    assert_eq!(p.team_b, names(&["Solo"]));
    assert!(p.waitlist.is_empty());
}

#[test]
fn partition_of_thirteen_names_has_three_waiting() {
    let list: Vec<String> = (1..=13).map(|i| format!("n{}", i)).collect();
    let p = partition(&list);
    assert_eq!(p.team_a, list[0..5].to_vec());
    assert_eq!(p.team_b, list[5..10].to_vec());
    assert_eq!(p.waitlist, list[10..13].to_vec());
}

#[test]
fn join_names_uses_comma_and_space() {
    assert_eq!(join_names(&names(&[])), "");
    assert_eq!(join_names(&names(&["a"])), "a");
    assert_eq!(join_names(&names(&["a", "b", "c"])), "a, b, c");
}

#[test]
fn render_without_waitlist() {
    let p = Partition {
        team_a: names(&["Ana", "Bruno"]),
        team_b: names(&["Carla", "Diego"]),
        waitlist: vec![],
    };
    assert_eq!(render(&p), "# Time A 🔫\n Ana, Bruno\n\n# Time B 🔫\n Carla, Diego");
}

#[test]
fn render_keeps_empty_team_sections() {
    let p = Partition { team_a: vec![], team_b: vec![], waitlist: vec![] };
    assert_eq!(render(&p), "# Time A 🔫\n \n\n# Time B 🔫\n ");
}

#[test]
fn render_with_waitlist() {
    let p = Partition {
        team_a: names(&["a"]),
        team_b: names(&["b"]),
        waitlist: names(&["c", "d"]),
    };
    assert_eq!(
        render(&p),
        "# Time A 🔫\n a\n\n# Time B 🔫\n b\n\n# Lista de Espera ⏳\n c, d"
    );
}

#[test]
fn create_team_message_of_eleven_names() {
    let list: Vec<String> = (1..=11).map(|i| format!("{}", i)).collect();
    assert_eq!(
        create_team_message(&list),
        "# Time A 🔫\n 1, 2, 3, 4, 5\n\n# Time B 🔫\n 6, 7, 8, 9, 10\n\n# Lista de Espera ⏳\n 11"
    );
}

#[test]
fn shuffle_is_a_permutation() {
    let list = names(&["Ana", "Bruno", "Ana", "Carla", "Diego", "Eva", "Felipe"]);
    for _ in 0..20 {
        let r = shuffle(&list);
        assert_eq!(sorted(r), sorted(list.clone()));
    }
    assert_eq!(list, names(&["Ana", "Bruno", "Ana", "Carla", "Diego", "Eva", "Felipe"]));
}

#[test]
fn shuffle_of_empty_and_single_lists_is_unchanged() {
    assert!(shuffle(&vec![]).is_empty());
    assert_eq!(shuffle(&names(&["Solo"])), names(&["Solo"]));
}

#[test]
fn shuffle_does_not_always_keep_the_order() {
    let list: Vec<String> = (0..10).map(|i| format!("{}", i)).collect();
    let moved = (0..50).any(|_| shuffle(&list) != list);
    assert!(moved);
}
