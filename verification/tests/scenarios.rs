use jsonwatcher::{Observation, Requester};

fn observation(fields: &[(&str, &str)]) -> Observation {
    let mut obs = Observation::new();
    for (name, value) in fields {
        obs.insert(name.to_string(), value.to_string());
    }
    obs
}

fn pairs(fields: &[(&str, &str)]) -> Vec<(String, String)> {
    fields.iter().map(|(name, value)| (name.to_string(), value.to_string())).collect()
}

fn names(fields: &[&str]) -> Vec<String> {
    fields.iter().map(|name| name.to_string()).collect()
}

#[test]
fn status_open_open_closed_missing() {
    let mut req = Requester::new("http://localhost/status", &[], &["status"]);

    let first = req.get_changes(&observation(&[("status", "open")]));
    assert_eq!(first.changes, pairs(&[("status", "open")]));
    assert!(first.missing.is_empty());

    let second = req.get_changes(&observation(&[("status", "open")]));
    assert_eq!(second.changes, pairs(&[]));
    assert!(second.missing.is_empty());

    let third = req.get_changes(&observation(&[("status", "closed")]));
    assert_eq!(third.changes, pairs(&[("status", "closed")]));
    assert!(third.missing.is_empty());

    let fourth = req.get_changes(&observation(&[]));
    assert_eq!(fourth.changes, pairs(&[]));
    assert_eq!(fourth.missing, names(&["status"]));
}

#[test]
fn one_of_two_tracked_fields_present() {
    let mut req = Requester::new("http://localhost/ab", &[], &["a", "b"]);

    let report = req.get_changes(&observation(&[("a", "1")]));
    assert_eq!(report.changes, pairs(&[("a", "1")]));
    assert_eq!(report.missing, names(&["b"]));
    assert!(req.remembered("a").is_some());
    assert!(req.remembered("b").is_none());
}

#[test]
fn first_cycle_reports_every_tracked_field_present() {
    let mut req = Requester::new("http://localhost/", &[], &["title", "seats", "room"]);
    let obs = observation(&[("room", "B12"), ("seats", "3"), ("title", "Logic"), ("id", "7")]);

    let report = req.get_changes(&obs);
    assert_eq!(report.changes, pairs(&[("title", "Logic"), ("seats", "3"), ("room", "B12")]));
    assert!(report.missing.is_empty());
}

#[test]
fn identical_observations_report_nothing_after_the_first() {
    let mut req = Requester::new("http://localhost/", &[], &["title", "seats"]);
    let fields = [("title", "Logic"), ("seats", "3")];

    let first = req.get_changes(&observation(&fields));
    assert_eq!(first.changes.len(), 2);
    for _ in 0..5 {
        let again = req.get_changes(&observation(&fields));
        assert!(again.changes.is_empty());
        assert!(again.missing.is_empty());
    }
}

#[test]
fn only_the_field_that_changed_is_reported() {
    let mut req = Requester::new("http://localhost/", &[], &["title", "seats", "room"]);
    req.get_changes(&observation(&[("title", "Logic"), ("seats", "3"), ("room", "B12")]));

    let report =
        req.get_changes(&observation(&[("title", "Logic"), ("seats", "2"), ("room", "B12")]));
    assert_eq!(report.changes, pairs(&[("seats", "2")]));
}

#[test]
fn a_value_that_returns_is_reported_again() {
    let mut req = Requester::new("http://localhost/", &[], &["status"]);
    req.get_changes(&observation(&[("status", "open")]));
    req.get_changes(&observation(&[("status", "closed")]));

    let report = req.get_changes(&observation(&[("status", "open")]));
    assert_eq!(report.changes, pairs(&[("status", "open")]));
}

#[test]
fn missing_field_keeps_its_fingerprint() {
    let mut req = Requester::new("http://localhost/", &[], &["status", "seats"]);
    req.get_changes(&observation(&[("status", "open"), ("seats", "3")]));
    let before = req.remembered("status").cloned();
    assert!(before.is_some());

    let report = req.get_changes(&observation(&[("seats", "3")]));
    assert_eq!(report.changes, pairs(&[]));
    assert_eq!(report.missing, names(&["status"]));
    assert_eq!(req.remembered("status").cloned(), before);

    let back = req.get_changes(&observation(&[("status", "open"), ("seats", "3")]));
    assert_eq!(back.changes, pairs(&[]));
}

#[test]
fn missing_field_without_fingerprint_gets_none() {
    let mut req = Requester::new("http://localhost/", &[], &["status"]);
    let report = req.get_changes(&observation(&[("other", "x")]));
    assert_eq!(report.changes, pairs(&[]));
    assert_eq!(report.missing, names(&["status"]));
    assert!(req.remembered("status").is_none());
    assert!(req.remembered("other").is_none());
}

#[test]
fn untracked_fields_are_ignored() {
    let mut req = Requester::new("http://localhost/", &[], &["status"]);
    req.get_changes(&observation(&[("status", "open"), ("noise", "1")]));

    let report = req.get_changes(&observation(&[("status", "open"), ("noise", "2")]));
    assert_eq!(report.changes, pairs(&[]));
    assert!(req.remembered("noise").is_none());
}

#[test]
fn no_tracked_fields_never_reports() {
    let mut req = Requester::new("http://localhost/", &[], &[]);
    let first = req.get_changes(&observation(&[("status", "open")]));
    assert_eq!(first.changes, pairs(&[]));
    assert!(first.missing.is_empty());
    let second = req.get_changes(&observation(&[("status", "closed")]));
    assert_eq!(second.changes, pairs(&[]));
}

#[test]
fn field_tracked_twice_is_reported_once() {
    let mut req = Requester::new("http://localhost/", &[], &["b", "a", "b"]);
    let report = req.get_changes(&observation(&[("a", "1"), ("b", "2")]));
    assert_eq!(report.changes, pairs(&[("b", "2"), ("a", "1")]));

    let absent = req.get_changes(&observation(&[("a", "1")]));
    assert_eq!(absent.changes, pairs(&[]));
    assert_eq!(absent.missing, names(&["b", "b"]));
}

#[test]
fn changes_come_in_tracked_order() {
    let mut req = Requester::new("http://localhost/", &[], &["z", "m", "a"]);
    req.get_changes(&observation(&[("a", "1"), ("m", "1"), ("z", "1")]));

    let report = req.get_changes(&observation(&[("a", "2"), ("m", "1"), ("z", "2")]));
    assert_eq!(report.changes, pairs(&[("z", "2"), ("a", "2")]));
}

#[test]
fn requesters_do_not_share_fingerprints() {
    let mut one = Requester::new("http://localhost/one", &[], &["status"]);
    let mut two = Requester::new("http://localhost/two", &[], &["status"]);
    one.get_changes(&observation(&[("status", "open")]));

    let report = two.get_changes(&observation(&[("status", "open")]));
    assert_eq!(report.changes, pairs(&[("status", "open")]));
}

#[test]
fn requester_keeps_url_and_params() {
    let params = [("itemid", "90280"), ("strm", "1198")];
    let mut req = Requester::new("http://localhost/find", &params, &["data"]);
    req.get_changes(&observation(&[("data", "x")]));
    assert_eq!(req.url(), "http://localhost/find");
    assert_eq!(req.params(), &params[..]);
}

#[test]
fn observation_insert_replaces_and_get_finds() {
    let mut obs = Observation::new();
    assert!(obs.get("status").is_none());
    obs.insert("status".to_string(), "open".to_string());
    obs.insert("status".to_string(), "closed".to_string());
    obs.insert("seats".to_string(), "3".to_string());
    assert_eq!(obs.get("status"), Some(&"closed".to_string()));
    assert_eq!(obs.get("seats"), Some(&"3".to_string()));
    assert!(obs.get("Status").is_none());
}
