use ippo::config::Profile;
use ippo::diagnostics::Diagnostics;

#[test]
fn diagnostics_report_every_field_on_its_own_line() {
    let diagnostics = Diagnostics::collect(Profile::Dev, "/tmp/ippo-dev.db", false, "development", 4);
    assert_eq!(
        diagnostics.human_readable(),
        "profile: dev\nenvironment: development\ndatabase: /tmp/ippo-dev.db\ndatabase override: no\nschema version: 4"
    );
    let overridden = Diagnostics::collect(Profile::Personal, "x.db", true, "test", -12);
    assert_eq!(
        overridden.human_readable(),
        "profile: personal\nenvironment: test\ndatabase: x.db\ndatabase override: yes\nschema version: -12"
    );
    assert_eq!(overridden.environment, "test");
    assert_eq!(overridden.schema_version, -12);
    assert!(overridden.database_overridden);
}

#[test]
fn diagnostics_print_extreme_schema_versions() {
    let d = Diagnostics::collect(Profile::Personal, "p", false, "personal", i64::MIN);
    assert!(d
        .human_readable()
        .ends_with("schema version: -9223372036854775808"));
    let d = Diagnostics::collect(Profile::Personal, "p", false, "personal", 0);
    assert!(d.human_readable().ends_with("schema version: 0"));
}
