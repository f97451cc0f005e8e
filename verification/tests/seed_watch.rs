use upstream::seeds::{
    same_seeds, seed_setting, session_seeds, Look, Seed, SeedWatch, POLL_INTERVAL_MILLIS,
};

fn seed(peer_id: &str, addrs: &[&str], label: Option<&str>) -> Seed {
    Seed {
        peer_id: peer_id.to_string(),
        addrs: addrs.iter().map(|addr| addr.to_string()).collect(),
        label: label.map(|label| label.to_string()),
    }
}

fn list(names: &[&str]) -> Vec<Seed> {
    names.iter().map(|name| seed(name, &["127.0.0.1:1"], None)).collect()
}

fn names(seeds: &Vec<Seed>) -> Vec<String> {
    seeds.iter().map(|seed| seed.peer_id.clone()).collect()
}

fn published(initial: &[&str], looks: &[&[&str]]) -> Vec<Vec<String>> {
    let mut watch = SeedWatch::watch_seeds_discovery(list(initial));
    let mut published = vec![];
    for look in looks {
        watch = match watch.look(list(look)) {
            Look::Unchanged { watch } => watch,
            Look::Changed { pending } => {
                published.push(names(pending.seeds()));
                pending.published(true).unwrap()
            },
        };
    }
    published
}

#[test]
fn seeds_are_looked_up_every_400_milliseconds() {
    assert_eq!(POLL_INTERVAL_MILLIS, 400);
}

#[test]
fn missing_setting_means_no_seeds() {
    assert_eq!(seed_setting(None), Vec::<String>::new());
    assert_eq!(seed_setting(Some(vec!["a@b:1".to_string()])), ["a@b:1"]);
}

#[test]
fn seeds_that_cannot_be_resolved_count_as_none() {
    assert!(session_seeds::<Seed, String>(Err("no such host".to_string())).is_empty());
    assert_eq!(names(&session_seeds::<Seed, String>(Ok(list(&["a", "b"])))), ["a", "b"]);
}

#[test]
fn seeds_are_the_same_if_everything_agrees() {
    let one = || seed("a", &["h:1", "h:2"], Some("home"));
    assert!(one().same(&one()));
    assert!(!one().same(&seed("b", &["h:1", "h:2"], Some("home"))));
    assert!(!one().same(&seed("a", &["h:1"], Some("home"))));
    assert!(!one().same(&seed("a", &["h:2", "h:1"], Some("home"))));
    assert!(!one().same(&seed("a", &["h:1", "h:2"], None)));
    assert!(!one().same(&seed("a", &["h:1", "h:2"], Some("work"))));
}

#[test]
fn lists_of_seeds_are_compared_in_order() {
    assert!(same_seeds(&list(&[]), &list(&[])));
    assert!(same_seeds(&list(&["a", "b"]), &list(&["a", "b"])));
    assert!(!same_seeds(&list(&["a", "b"]), &list(&["b", "a"])));
    assert!(!same_seeds(&list(&["a"]), &list(&["a", "b"])));
}

#[test]
fn changes_are_published_once() {
    let looks: [&[&str]; 6] = [&["a"], &["a"], &["b"], &["b"], &[], &["a"]];
    assert_eq!(published(&["a"], &looks), [vec!["b"], vec![], vec!["a"]]);
}

#[test]
fn unchanged_seeds_are_not_published() {
    let looks: [&[&str]; 3] = [&["a"], &["a"], &["a"]];
    assert!(published(&["a"], &looks).is_empty());
}

#[test]
fn last_publication_is_the_current_state() {
    let looks: [&[&str]; 3] = [&["b"], &["c"], &["c"]];
    assert_eq!(published(&["a"], &looks).last().unwrap(), &vec!["c"]);
}

#[test]
fn watching_ends_when_nobody_listens() {
    let watch = SeedWatch::watch_seeds_discovery(list(&["a"]));
    match watch.look(list(&["b"])) {
        Look::Changed { pending } => assert!(pending.published(false).is_none()),
        look => panic!("{:?}", look),
    }
}
