use std::collections::BTreeSet;

use tpbackup::coordinator::{backup_all, WorkQueue};
use tpbackup::sim::{SimCollection, SimResource};

fn resource(name: &str, n: usize) -> SimResource {
    SimResource {
        name: name.to_string(),
        collection: SimCollection {
            items: (0..n).map(|i| i.to_string()).collect(),
            fail_at: None,
        },
    }
}

fn doc_set(docs: Vec<(String, String)>) -> BTreeSet<(String, String)> {
    docs.into_iter().collect()
}

#[test]
fn queue_hands_out_every_name_exactly_once() {
    let names: Vec<String> = ["Bugs", "Users", "Tasks"].iter().map(|s| s.to_string()).collect();
    let mut q = WorkQueue::new(names);
    assert_eq!(q.len(), 3);
    let mut claimed = Vec::new();
    while let Some(name) = q.pop() {
        claimed.push(name);
    }
    assert_eq!(claimed, vec!["Tasks", "Users", "Bugs"]);
    assert_eq!(q.len(), 0);
    assert_eq!(q.pop(), None);
}

#[test]
fn every_resource_is_streamed_exactly_once() {
    let table = vec![resource("Bugs", 3), resource("Users", 0), resource("Tasks", 5)];
    let docs = backup_all(&table, false);
    assert_eq!(docs.len(), 3);
    let names: BTreeSet<String> = docs.iter().map(|d| d.0.clone()).collect();
    assert_eq!(names.len(), 3);
    assert!(names.contains("Bugs") && names.contains("Users") && names.contains("Tasks"));
}

#[test]
fn claim_order_does_not_change_the_documents() {
    let forward = vec![resource("Bugs", 3), resource("Users", 0), resource("Tasks", 5)];
    let backward = vec![resource("Tasks", 5), resource("Users", 0), resource("Bugs", 3)];
    let a = doc_set(backup_all(&forward, false));
    let b = doc_set(backup_all(&backward, false));
    assert_eq!(a, b);
}

#[test]
fn a_failing_resource_aborts_only_itself() {
    // The failing resource keeps its truncated text without the closing
    // suffix; the run continues and the other resources complete.
    let mut failing = resource("Bugs", 250);
    failing.collection.fail_at = Some(100);
    let table = vec![resource("Users", 3), failing, resource("Tasks", 5)];
    let docs = backup_all(&table, false);
    assert_eq!(docs.len(), 3);
    let bugs = docs.iter().find(|d| d.0 == "Bugs").unwrap();
    let joined: Vec<String> = (0..100).map(|i| i.to_string()).collect();
    assert_eq!(bugs.1, format!("{{\"type\": \"Bugs\", \"items\": [{}", joined.join(",")));
    assert!(!bugs.1.ends_with("]}"));
    let users = docs.iter().find(|d| d.0 == "Users").unwrap();
    assert_eq!(users.1, "{\"type\": \"Users\", \"items\": [0,1,2]}");
    let tasks = docs.iter().find(|d| d.0 == "Tasks").unwrap();
    assert_eq!(tasks.1, "{\"type\": \"Tasks\", \"items\": [0,1,2,3,4]}");
}

#[test]
fn two_resource_scenario_yields_both_documents() {
    // "Bugs" holds 250 items served in three pages of 100, 100 and 50, the
    // third without a next cursor; "Users" is empty.
    let table = vec![resource("Bugs", 250), resource("Users", 0)];
    let docs = doc_set(backup_all(&table, false));
    let joined: Vec<String> = (0..250).map(|i| i.to_string()).collect();
    let bugs = format!("{{\"type\": \"Bugs\", \"items\": [{}]}}", joined.join(","));
    let users = "{\"type\": \"Users\", \"items\": []}".to_string();
    let expected: BTreeSet<(String, String)> = [
        ("Bugs".to_string(), bugs),
        ("Users".to_string(), users),
    ].into_iter().collect();
    assert_eq!(docs, expected);
}
