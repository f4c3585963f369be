use ippo::config::DataEnvironment;
use ippo::date::CivilDate;
use ippo::storage::{
    check_environment_identity, environment_identity, pending_occurrence_days, toggled_completion,
    IdentityAction, IdentityError,
};

#[test]
fn a_new_database_records_the_expected_identity() {
    assert!(matches!(
        check_environment_identity(None, DataEnvironment::Test),
        Ok(IdentityAction::Record(DataEnvironment::Test))
    ));
}

#[test]
fn a_matching_identity_is_accepted_without_rewriting() {
    assert!(matches!(
        check_environment_identity(Some("development"), DataEnvironment::Development),
        Ok(IdentityAction::Accept)
    ));
}

#[test]
fn a_development_database_is_refused_as_personal() {
    assert!(matches!(
        check_environment_identity(Some("development"), DataEnvironment::Personal),
        Err(IdentityError::Mismatch {
            expected: DataEnvironment::Personal,
            actual: DataEnvironment::Development,
        })
    ));
    match check_environment_identity(Some("production"), DataEnvironment::Personal) {
        Err(IdentityError::Invalid(value)) => assert_eq!(value, "production"),
        other => panic!("unexpected {:?}", other),
    }
}

#[test]
fn stored_identities_are_read_exactly() {
    assert_eq!(environment_identity("personal"), Some("personal"));
    assert_eq!(environment_identity("development"), Some("development"));
    assert_eq!(environment_identity("test"), Some("test"));
    assert_eq!(environment_identity("dev"), None);
    assert_eq!(environment_identity(" test"), None);
}

#[test]
fn toggling_flips_a_binary_completion() {
    assert_eq!(toggled_completion(0), 1);
    assert_eq!(toggled_completion(1), 0);
    assert_eq!(toggled_completion(toggled_completion(0)), 0);
    assert_eq!(toggled_completion(7), 0);
}

#[test]
fn pending_days_run_from_the_schedule_or_the_latest_occurrence_through_today() {
    let d = |y, m, day| CivilDate::new(y, m, day).unwrap();
    let today = d(2026, 8, 23);
    assert_eq!(pending_occurrence_days(d(2026, 8, 20), None, None, today), Some((d(2026, 8, 20), today)));
    assert_eq!(
        pending_occurrence_days(d(2026, 8, 20), None, Some(d(2026, 8, 21)), today),
        Some((d(2026, 8, 22), today))
    );
    assert_eq!(
        pending_occurrence_days(d(2026, 8, 20), Some(d(2026, 8, 22)), None, today),
        Some((d(2026, 8, 20), d(2026, 8, 22)))
    );
    assert_eq!(pending_occurrence_days(d(2026, 8, 24), None, None, today), None);
    // Once occurrences exist through the last pending day, nothing is pending.
    assert_eq!(pending_occurrence_days(d(2026, 8, 20), None, Some(today), today), None);
    assert_eq!(pending_occurrence_days(d(9999, 12, 31), None, Some(d(9999, 12, 31)), d(9999, 12, 31)), None);
}
