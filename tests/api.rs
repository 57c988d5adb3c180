use civiclens::api::{get_issue_by_id, get_issues, report_issue, update_issue_status, Reply};
use civiclens::issue::{Issue, Location};
use civiclens::store::IssueStore;

fn pothole() -> Issue {
    Issue {
        id: String::new(),
        title: String::from("Pothole"),
        description: String::from("Deep pothole"),
        location: Location {
            latitude_bits: 40.0f64.to_bits(),
            longitude_bits: (-73.9f64).to_bits(),
        },
        category: String::from("road"),
        severity: String::from("high"),
        status: String::from("open"),
        reported_by: String::from("alice"),
        created_at: String::from("2024-01-01"),
        image_url: None,
    }
}

fn created_id(r: &Reply) -> String {
    match r {
        Reply::Created(id) => id.clone(),
        other => panic!("expected Created, got {:?}", other),
    }
}

#[test]
fn report_issue_answers_created_with_id() {
    let mut s = IssueStore::new();
    let r = report_issue(&mut s, pothole());
    assert_eq!(r.status_code(), 201);
    let id = created_id(&r);
    assert_eq!(id.len(), 36);
    assert_eq!(s.len(), 1);
}

#[test]
fn get_issue_by_id_answers_submitted_record() {
    let mut s = IssueStore::new();
    let id = created_id(&report_issue(&mut s, pothole()));
    let r = get_issue_by_id(&s, &id);
    assert_eq!(r.status_code(), 200);
    let mut expected = pothole();
    expected.id = id.clone();
    assert_eq!(r, Reply::Found(expected));
}

#[test]
fn update_status_answers_updated_record() {
    let mut s = IssueStore::new();
    let id = created_id(&report_issue(&mut s, pothole()));
    let r = update_issue_status(&mut s, &id, String::from("resolved"));
    assert_eq!(r.status_code(), 200);
    match r {
        Reply::Found(x) => {
            assert_eq!(x.status, "resolved");
            assert_eq!(x.id, id);
        }
        other => panic!("expected Found, got {:?}", other),
    }
}

#[test]
fn get_unknown_id_answers_not_found() {
    let mut s = IssueStore::new();
    report_issue(&mut s, pothole());
    let r = get_issue_by_id(&s, &String::from("doesnotexist"));
    assert_eq!(r, Reply::NotFound);
    assert_eq!(r.status_code(), 404);
}

#[test]
fn update_unknown_id_answers_not_found() {
    let mut s = IssueStore::new();
    let r = update_issue_status(&mut s, &String::from("doesnotexist"), String::from("resolved"));
    assert_eq!(r, Reply::NotFound);
    assert_eq!(r.status_code(), 404);
    assert_eq!(s.len(), 0);
}

#[test]
fn list_after_report_get_and_update() {
    let mut s = IssueStore::new();
    let id = created_id(&report_issue(&mut s, pothole()));
    assert_eq!(get_issue_by_id(&s, &id).status_code(), 200);
    assert_eq!(update_issue_status(&mut s, &id, String::from("resolved")).status_code(), 200);
    let r = get_issues(&s);
    assert_eq!(r.status_code(), 200);
    match r {
        Reply::Listed(v) => {
            assert_eq!(v.len(), 1);
            assert_eq!(v[0].status, "resolved");
            assert_eq!(v[0].id, id);
        }
        other => panic!("expected Listed, got {:?}", other),
    }
}

#[test]
fn list_of_empty_store_is_empty() {
    let s = IssueStore::new();
    let r = get_issues(&s);
    assert_eq!(r, Reply::Listed(Vec::new()));
    assert_eq!(r.status_code(), 200);
}
