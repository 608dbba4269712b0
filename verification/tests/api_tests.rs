use grokdb::api::{base_name, new, GrokDB};
use std::sync::{Arc, Mutex};

#[test]
fn base_name_strips_the_extension() {
    assert_eq!(base_name("grok.db"), "grok");
    assert_eq!(base_name("grok"), "grok");
    assert_eq!(base_name("data/cards.db"), "data/cards");
}

#[test]
fn base_name_ignores_the_case_of_the_extension() {
    assert_eq!(base_name("Grok.DB"), "Grok");
    assert_eq!(base_name("grok.Db"), "grok");
    assert_eq!(base_name("grok.dB"), "grok");
}

#[test]
fn base_name_strips_one_trailing_extension_only() {
    assert_eq!(base_name("a.db.db"), "a.db");
    assert_eq!(base_name("my.db.backup"), "my.db.backup");
    assert_eq!(base_name(".db"), "");
    assert_eq!(base_name("db"), "db");
    assert_eq!(base_name(""), "");
    assert_eq!(base_name("x.dbs"), "x.dbs");
}

#[test]
fn new_shares_one_connection() {
    let opened: Result<Mutex<u32>, String> = Ok(Mutex::new(7));
    let api: GrokDB<Mutex<u32>> = new("grok.db".to_string(), opened).unwrap();
    assert_eq!(api.base_db_name, "grok");
    assert_eq!(api.backup_base_dest, None);
    assert!(Arc::ptr_eq(&api.decks.db, &api.cards.db));
    assert!(Arc::ptr_eq(&api.decks.db, &api.stashes.db));
    assert!(Arc::ptr_eq(&api.decks.db, &api.review.db));
    assert!(Arc::ptr_eq(&api.decks.db, &api.configs.db));
    *api.cards.db.lock().unwrap() = 8;
    assert_eq!(*api.decks.db.lock().unwrap(), 8);
}

#[test]
fn new_hands_a_failure_on() {
    let opened: Result<Mutex<u32>, String> = Err("no such file".to_string());
    match new("grok.db".to_string(), opened) {
        Ok(_) => panic!("a failure to open must not give an aggregate"),
        Err(failure) => assert_eq!(failure, "no such file"),
    }
}

#[test]
fn clone_keeps_the_connection() {
    let opened: Result<Mutex<u32>, String> = Ok(Mutex::new(1));
    let api = new("Cards.DB".to_string(), opened).unwrap();
    let copy = api.clone();
    assert_eq!(copy.base_db_name, "Cards");
    assert_eq!(copy.backup_base_dest, None);
    assert!(Arc::ptr_eq(&api.decks.db, &copy.decks.db));
    assert!(Arc::ptr_eq(&api.configs.db, &copy.configs.db));
    assert!(Arc::ptr_eq(&copy.review.db, &copy.stashes.db));
}

#[test]
fn aggregate_can_be_printed() {
    let opened: Result<Mutex<u32>, String> = Ok(Mutex::new(3));
    let api = new("grok.db".to_string(), opened).unwrap();
    let shown = format!("{:?}", api);
    assert!(shown.contains("GrokDB"), "{}", shown);
    assert!(shown.contains("base_db_name: \"grok\""), "{}", shown);
    assert!(shown.contains("DecksAPI") && shown.contains("ConfigsAPI"), "{}", shown);
}
