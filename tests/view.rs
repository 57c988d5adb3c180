use civiclens::issue::{Issue, Location};
use civiclens::view::{IssueCard, IssueList, ListEvent};

fn record(title: &str, status: &str) -> Issue {
    Issue {
        id: String::from("x"),
        title: String::from(title),
        description: String::from("d"),
        location: Location { latitude_bits: 0, longitude_bits: 0 },
        category: String::from("garbage"),
        severity: String::from("low"),
        status: String::from(status),
        reported_by: String::from("bob"),
        created_at: String::from("2024-02-02"),
        image_url: None,
    }
}

#[test]
fn new_list_shows_no_cards() {
    let l = IssueList::new();
    assert!(!l.loading);
    assert_eq!(l.cards(), Some(Vec::new()));
}

#[test]
fn loading_list_shows_indicator() {
    let mut l = IssueList::new();
    l.apply(ListEvent::FetchStarted);
    assert!(l.loading);
    assert_eq!(l.cards(), None);
}

#[test]
fn finished_fetch_shows_one_card_per_record() {
    let mut l = IssueList::new();
    l.apply(ListEvent::FetchStarted);
    l.apply(ListEvent::FetchFinished(vec![record("Bins", "open"), record("Leak", "resolved")]));
    assert!(!l.loading);
    let cards = l.cards().unwrap();
    assert_eq!(cards.len(), 2);
    assert_eq!(
        cards[1],
        IssueCard {
            title: String::from("Leak"),
            description: String::from("d"),
            category: String::from("garbage"),
            severity: String::from("low"),
            status: String::from("resolved"),
        }
    );
}
