use civiclens::issue::{Issue, Location};
use civiclens::store::IssueStore;

fn payload(title: &str) -> Issue {
    Issue {
        id: String::from("client-supplied"),
        title: String::from(title),
        description: String::from("Deep pothole"),
        location: Location {
            latitude_bits: 40.0f64.to_bits(),
            longitude_bits: (-73.9f64).to_bits(),
        },
        category: String::from("road"),
        severity: String::from("high"),
        status: String::from("open"),
        reported_by: String::from("alice"),
        created_at: String::from("2024-01-01"),
        image_url: None,
    }
}

fn is_hyphenated_v4(id: &str) -> bool {
    let cs: Vec<char> = id.chars().collect();
    if cs.len() != 36 || cs[14] != '4' {
        return false;
    }
    for (i, c) in cs.iter().enumerate() {
        let ok = if i == 8 || i == 13 || i == 18 || i == 23 {
            *c == '-'
        } else {
            c.is_ascii_digit() || ('a'..='f').contains(c)
        };
        if !ok {
            return false;
        }
    }
    true
}

#[test]
fn new_store_is_empty() {
    let s = IssueStore::new();
    assert_eq!(s.len(), 0);
    assert!(s.list().is_empty());
}

#[test]
fn insert_returns_fresh_hyphenated_id() {
    let mut s = IssueStore::new();
    let id = s.insert(payload("Pothole"));
    assert!(!id.is_empty());
    assert!(is_hyphenated_v4(&id));
    assert_ne!(id, "client-supplied");
    assert!(s.contains_id(&id));
}

#[test]
fn insert_overrides_client_id() {
    let mut s = IssueStore::new();
    let id = s.insert(payload("Pothole"));
    let got = s.get(&id).unwrap();
    let mut expected = payload("Pothole");
    expected.id = id.clone();
    assert_eq!(got, expected);
    assert!(s.get(&String::from("client-supplied")).is_none());
}

#[test]
fn ids_are_distinct_over_many_creates() {
    let mut s = IssueStore::new();
    let mut ids: Vec<String> = Vec::new();
    for k in 0..200 {
        let id = s.insert(payload(&format!("issue {}", k)));
        assert!(!ids.contains(&id));
        ids.push(id);
    }
    assert_eq!(s.len(), 200);
}

#[test]
fn list_after_n_creates_has_n_records() {
    let mut s = IssueStore::new();
    let mut ids: Vec<String> = Vec::new();
    for k in 0..5 {
        ids.push(s.insert(payload(&format!("issue {}", k))));
    }
    let all = s.list();
    assert_eq!(all.len(), 5);
    for id in &ids {
        assert_eq!(all.iter().filter(|r| &r.id == id).count(), 1);
    }
}

#[test]
fn unknown_id_is_not_found() {
    let mut s = IssueStore::new();
    s.insert(payload("Pothole"));
    let missing = String::from("doesnotexist");
    assert!(s.get(&missing).is_none());
    let before = s.list();
    assert!(s.set_status(&missing, String::from("resolved")).is_none());
    assert_eq!(s.list(), before);
}

#[test]
fn set_status_then_get_keeps_exact_text() {
    let mut s = IssueStore::new();
    let id = s.insert(payload("Pothole"));
    let other = s.insert(payload("Graffiti"));
    let odd = String::from("half-fixed \u{2713} (maybe)");
    let updated = s.set_status(&id, odd.clone()).unwrap();
    assert_eq!(updated.status, odd);
    assert_eq!(updated.title, "Pothole");
    let got = s.get(&id).unwrap();
    assert_eq!(got, updated);
    assert_eq!(s.get(&other).unwrap().status, "open");
}

#[test]
fn insert_with_id_refuses_taken_id() {
    let mut s = IssueStore::new();
    assert!(s.insert_with_id(String::from("a"), payload("first")));
    assert!(!s.insert_with_id(String::from("a"), payload("second")));
    assert_eq!(s.len(), 1);
    assert_eq!(s.get(&String::from("a")).unwrap().title, "first");
    assert!(s.insert_with_id(String::from("b"), payload("second")));
    assert_eq!(s.get(&String::from("b")).unwrap().id, "b");
}

#[test]
fn list_keeps_image_url() {
    let mut s = IssueStore::new();
    let mut p = payload("Lamp out");
    p.image_url = Some(String::from("http://img/1.png"));
    let id = s.insert(p);
    assert_eq!(s.get(&id).unwrap().image_url, Some(String::from("http://img/1.png")));
    assert_eq!(
        s.get(&id).unwrap().location.latitude_bits,
        40.0f64.to_bits()
    );
}

#[test]
fn client_id_of_existing_record_does_not_overwrite() {
    let mut s = IssueStore::new();
    let first = s.insert(payload("Pothole"));
    let mut p = payload("Graffiti");
    p.id = first.clone();
    let second = s.insert(p);
    assert_ne!(second, first);
    assert_eq!(s.len(), 2);
    assert_eq!(s.get(&first).unwrap().title, "Pothole");
    assert_eq!(s.get(&second).unwrap().title, "Graffiti");
    assert_eq!(s.get(&second).unwrap().id, second);
}

#[test]
fn insert_accepts_any_field_values() {
    let mut s = IssueStore::new();
    let mut p = payload("");
    p.category = String::from("not-a-category");
    p.location = Location { latitude_bits: 1000.0f64.to_bits(), longitude_bits: f64::NAN.to_bits() };
    let id = s.insert(p);
    let got = s.get(&id).unwrap();
    assert_eq!(got.title, "");
    assert_eq!(got.category, "not-a-category");
    assert_eq!(got.location.latitude_bits, 1000.0f64.to_bits());
}
