use activity_scheduler::cancel::CancellationRegistry;
use activity_scheduler::registry::PushTokenRegistry;
use activity_scheduler::util::get_short_token;

#[test]
fn push_token_upsert_is_last_write_wins() {
    let mut reg = PushTokenRegistry::new();
    assert_eq!(reg.len(), 0);
    assert_eq!(reg.get("dev-a"), None);

    reg.update(String::from("dev-a"), String::from("tok-1"));
    assert_eq!(reg.get("dev-a"), Some(String::from("tok-1")));
    assert_eq!(reg.len(), 1);

    reg.update(String::from("dev-a"), String::from("tok-2"));
    assert_eq!(reg.get("dev-a"), Some(String::from("tok-2")));
    assert_eq!(reg.len(), 1);

    reg.update(String::from("dev-b"), String::from("tok-3"));
    assert_eq!(reg.len(), 2);
    assert_eq!(reg.get("dev-a"), Some(String::from("tok-2")));
    assert_eq!(reg.get("dev-b"), Some(String::from("tok-3")));
}

#[test]
fn cancellation_registry_register_and_cancel() {
    let mut reg = CancellationRegistry::new();
    assert_eq!(reg.cancel("dev-a"), None);

    assert_eq!(reg.register(String::from("dev-a"), 10), None);
    assert_eq!(reg.register(String::from("dev-b"), 11), None);
    assert_eq!(reg.len(), 2);

    // Re-registering the same device hands the old handle back.
    assert_eq!(reg.register(String::from("dev-a"), 12), Some(10));
    assert_eq!(reg.len(), 2);

    assert_eq!(reg.cancel("dev-a"), Some(12));
    assert_eq!(reg.len(), 1);
    assert_eq!(reg.cancel("dev-a"), None);
}

#[test]
fn remove_if_current_ignores_superseded_handles() {
    let mut reg = CancellationRegistry::new();
    reg.register(String::from("dev-a"), 1);
    reg.register(String::from("dev-a"), 2);

    assert!(!reg.remove_if_current("dev-a", 1));
    assert_eq!(reg.len(), 1);
    assert!(reg.remove_if_current("dev-a", 2));
    assert_eq!(reg.len(), 0);
    assert!(!reg.remove_if_current("dev-a", 2));
}

#[test]
fn short_token_keeps_last_seventeen_chars() {
    let long = String::from("abcdefghijklmnopqrstuvwxyz0123456789");
    assert_eq!(get_short_token(&long).chars().count(), 17);
    assert_eq!(get_short_token(&long), "tuvwxyz0123456789");

    let exact = String::from("0123456789abcdefg");
    assert_eq!(get_short_token(&exact), "0123456789abcdefg");

    let short = String::from("abc");
    assert_eq!(get_short_token(&short), "abc");

    let empty = String::new();
    assert_eq!(get_short_token(&empty), "");
}
