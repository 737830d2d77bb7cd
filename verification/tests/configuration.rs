use base64::Engine;

use tpbackup::client::{u64_to_string, Client};
use tpbackup::utils::{default_resources, split_resources, yyyymmddhhmm};

#[test]
fn endpoint_is_derived_from_the_host() {
    let c = Client::new("myinstance.tpondemand.com", "admin", "secret");
    assert_eq!(c.endpoint, "https://myinstance.tpondemand.com/api/v1/");
}

#[test]
fn auth_header_carries_url_safe_base64_credentials() {
    let c = Client::new("h.example.com", "admin", "secret");
    let expected = base64::engine::general_purpose::URL_SAFE.encode("admin:secret");
    assert_eq!(c.auth_header, format!("Basic {expected}"));
    // The encoding really transformed the credentials.
    assert_ne!(c.auth_header, "Basic admin:secret");
    assert_eq!(c.auth_header, "Basic YWRtaW46c2VjcmV0");
}

#[test]
fn page_url_names_format_take_and_skip() {
    let c = Client::new("h.example.com", "u", "p");
    let u = c.page_url("Bugs", 100, 300);
    assert_eq!(u, "https://h.example.com/api/v1/Bugs?format=json&take=100&skip=300");
}

#[test]
fn decimal_rendering_is_exact() {
    assert_eq!(u64_to_string(0), "0");
    assert_eq!(u64_to_string(7), "7");
    assert_eq!(u64_to_string(100), "100");
    assert_eq!(u64_to_string(18446744073709551615), "18446744073709551615");
}

#[test]
fn timestamp_is_zero_padded() {
    assert_eq!(yyyymmddhhmm(2024, 3, 7, 9, 5), "202403070905");
    assert_eq!(yyyymmddhhmm(999, 12, 31, 23, 59), "099912312359");
}

#[test]
fn resource_option_splits_on_commas_and_trims() {
    let names = |v: &[&str]| v.iter().map(|s| s.to_string()).collect::<Vec<String>>();
    assert_eq!(split_resources("Bugs,Users"), names(&["Bugs", "Users"]));
    assert_eq!(split_resources(" Bugs , Users ,\tTasks"), names(&["Bugs", "Users", "Tasks"]));
    assert_eq!(split_resources("Bugs"), names(&["Bugs"]));
    assert_eq!(split_resources(""), names(&[""]));
    assert_eq!(split_resources("a,,b"), names(&["a", "", "b"]));
}

#[test]
fn default_resource_list_is_complete() {
    let v = default_resources();
    assert_eq!(v.len(), 67);
    assert!(v.contains(&"Bugs".to_string()));
    assert!(v.contains(&"UserStories".to_string()));
    assert_eq!(v[0], "Assignables");
    assert_eq!(v[66], "Workflows");
}
