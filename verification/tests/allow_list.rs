use fungible_token::AllowList;

#[test]
fn a_new_allow_list_holds_nobody() {
    let list = AllowList::new();
    assert!(!list.contains("alice"));
    assert!(list.snapshot().is_empty());
}

#[test]
fn mark_allowed_says_whether_the_account_is_new() {
    let mut list = AllowList::new();
    assert!(list.mark_allowed("alice"));
    assert!(list.contains("alice"));
    assert!(!list.contains("bob"));
    assert!(!list.mark_allowed("alice"));
    assert!(list.contains("alice"));
    assert!(list.mark_allowed("bob"));
    assert!(list.contains("bob"));
    assert_eq!(list.snapshot(), vec!["alice".to_string(), "bob".to_string()]);
}

#[test]
fn a_restored_allow_list_holds_the_given_accounts() {
    let members = vec!["alice".to_string(), "bob".to_string(), "alice".to_string()];
    let list = AllowList::restore(members);
    assert!(list.contains("alice"));
    assert!(list.contains("bob"));
    assert!(!list.contains("charlie"));
}
