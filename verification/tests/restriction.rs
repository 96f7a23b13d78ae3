use confluence_updater::confluence::restriction::Restriction;

#[test]
fn read_only_names_the_one_account() {
    let restriction = Restriction::read_only("abc-123");
    assert_eq!(restriction.results.len(), 1);
    assert_eq!(restriction.results[0].operation, "update");
    let users = &restriction.results[0].restrictions.user;
    assert_eq!(users.len(), 1);
    assert_eq!(users[0].type_field, "known");
    assert_eq!(users[0].account_id, "abc-123");
}

#[test]
fn no_restrictions_names_no_account() {
    let restriction = Restriction::no_restrictions();
    assert_eq!(restriction.results.len(), 1);
    assert_eq!(restriction.results[0].operation, "update");
    assert!(restriction.results[0].restrictions.user.is_empty());
}
