use will_contract::{Address, Will, WillData, WillError};

fn addr(s: &str) -> Address {
    Address::new(s.to_string())
}

fn record(hash: &str, beneficiaries: &[&str], executed: bool) -> WillData {
    WillData {
        content_hash: hash.to_string(),
        beneficiaries: beneficiaries.iter().map(|b| addr(b)).collect(),
        executed,
    }
}

#[test]
fn get_before_create_is_empty() {
    let w = Will::new();
    assert_eq!(w.get(&addr("GOWNER")), None);
}

#[test]
fn create_for_other_owner_leaves_identity_empty() {
    let mut w = Will::new();
    assert_eq!(w.create(&addr("GB"), addr("GB"), "h".to_string(), vec![]), Ok(()));
    assert_eq!(w.execute(&addr("GA")), Ok(()));
    assert_eq!(w.get(&addr("GA")), None);
}

#[test]
fn create_then_get_returns_record() {
    let mut w = Will::new();
    let o = addr("GOWNER");
    let r = w.create(&o, o.clone(), "hash".to_string(), vec![addr("GB1")]);
    assert_eq!(r, Ok(()));
    assert_eq!(w.get(&o), Some(record("hash", &["GB1"], false)));
}

#[test]
fn create_accepts_empty_hash_and_no_beneficiaries() {
    let mut w = Will::new();
    let o = addr("GOWNER");
    assert_eq!(w.create(&o, o.clone(), String::new(), vec![]), Ok(()));
    assert_eq!(w.get(&o), Some(record("", &[], false)));
}

#[test]
fn create_keeps_duplicate_beneficiaries_in_order() {
    let mut w = Will::new();
    let o = addr("GOWNER");
    let bens = vec![addr("GB2"), addr("GB1"), addr("GB2")];
    assert_eq!(w.create(&o, o.clone(), "h".to_string(), bens), Ok(()));
    assert_eq!(w.get(&o), Some(record("h", &["GB2", "GB1", "GB2"], false)));
}

#[test]
fn create_by_other_caller_is_unauthorized() {
    let mut w = Will::new();
    let o = addr("GOWNER");
    let r = w.create(&addr("GINTRUDER"), o.clone(), "h".to_string(), vec![]);
    assert_eq!(r, Err(WillError::Unauthorized));
    assert_eq!(w.get(&o), None);
}

#[test]
fn create_by_other_caller_keeps_prior_record() {
    let mut w = Will::new();
    let o = addr("GOWNER");
    assert_eq!(w.create(&o, o.clone(), "first".to_string(), vec![addr("GB1")]), Ok(()));
    let r = w.create(&addr("GINTRUDER"), o.clone(), "second".to_string(), vec![]);
    assert_eq!(r, Err(WillError::Unauthorized));
    assert_eq!(w.get(&o), Some(record("first", &["GB1"], false)));
}

#[test]
fn recreate_overwrites_even_executed_record() {
    let mut w = Will::new();
    let o = addr("GOWNER");
    assert_eq!(w.create(&o, o.clone(), "first".to_string(), vec![addr("GB1")]), Ok(()));
    assert_eq!(w.execute(&o), Ok(()));
    assert_eq!(w.create(&o, o.clone(), "second".to_string(), vec![addr("GB2")]), Ok(()));
    assert_eq!(w.get(&o), Some(record("second", &["GB2"], false)));
}

#[test]
fn execute_marks_executed_and_keeps_fields() {
    let mut w = Will::new();
    let o = addr("GOWNER");
    assert_eq!(w.create(&o, o.clone(), "h".to_string(), vec![addr("GB1"), addr("GB2")]), Ok(()));
    assert_eq!(w.execute(&o), Ok(()));
    assert_eq!(w.get(&o), Some(record("h", &["GB1", "GB2"], true)));
}

#[test]
fn execute_twice_fails_and_changes_nothing() {
    let mut w = Will::new();
    let o = addr("GOWNER");
    assert_eq!(w.create(&o, o.clone(), "h".to_string(), vec![addr("GB1")]), Ok(()));
    assert_eq!(w.execute(&o), Ok(()));
    let after_first = w.get(&o);
    assert_eq!(w.execute(&o), Err(WillError::AlreadyExecuted));
    assert_eq!(w.get(&o), after_first);
}

#[test]
fn execute_without_record_is_silent_noop() {
    let mut w = Will::new();
    let o = addr("GOWNER");
    assert_eq!(w.execute(&o), Ok(()));
    assert_eq!(w.get(&o), None);
}

#[test]
fn execute_touches_only_its_owner() {
    let mut w = Will::new();
    let a = addr("GA");
    let b = addr("GB");
    assert_eq!(w.create(&a, a.clone(), "ha".to_string(), vec![b.clone()]), Ok(()));
    assert_eq!(w.create(&b, b.clone(), "hb".to_string(), vec![a.clone()]), Ok(()));
    assert_eq!(w.execute(&b), Ok(()));
    assert_eq!(w.get(&a), Some(record("ha", &["GB"], false)));
    assert_eq!(w.get(&b), Some(record("hb", &["GA"], true)));
}

#[test]
fn will_lifecycle_scenario() {
    let mut w = Will::new();
    let o = addr("GO");
    let bens = vec![addr("GB1"), addr("GB2")];
    assert_eq!(w.create(&o, o.clone(), "abc123".to_string(), bens), Ok(()));
    assert_eq!(w.get(&o), Some(record("abc123", &["GB1", "GB2"], false)));
    assert_eq!(w.execute(&o), Ok(()));
    assert_eq!(w.get(&o), Some(record("abc123", &["GB1", "GB2"], true)));
    assert_eq!(w.execute(&o), Err(WillError::AlreadyExecuted));
    assert_eq!(w.get(&o), Some(record("abc123", &["GB1", "GB2"], true)));
}

#[test]
fn mark_executed_once() {
    let mut d = WillData::new("h".to_string(), vec![addr("GB1")]);
    assert!(!d.executed);
    assert_eq!(d.mark_executed(), Ok(()));
    assert!(d.executed);
    assert_eq!(d.mark_executed(), Err(WillError::AlreadyExecuted));
    assert_eq!(d, record("h", &["GB1"], true));
}

#[test]
fn copy_is_equal_and_independent() {
    let d = record("h", &["GB1", "GB2"], true);
    let mut c = d.copy();
    assert_eq!(c, d);
    c.beneficiaries.push(addr("GB3"));
    assert_eq!(d.beneficiaries.len(), 2);
}

#[test]
fn address_identity() {
    assert!(addr("GA").same_as(&addr("GA")));
    assert!(!addr("GA").same_as(&addr("GB")));
    assert_eq!(addr("GA").copy(), addr("GA"));
}
