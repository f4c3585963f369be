//! What `ippo doctor` reports about the active data environment.

use vstd::prelude::*;

use crate::config::{profile_label, Profile};
use crate::text::{append_signed_decimal, append_str, signed_decimal};

verus! {

/// The resolved profile, the database's stored identity, its path, whether the
/// path was given explicitly, and the schema version. Habit contents are never
/// part of it.
#[derive(Debug)]
pub struct Diagnostics {
    pub profile: Profile,
    pub environment: String,
    pub database_path: String,
    pub database_overridden: bool,
    pub schema_version: i64,
}

/// The text report, one `label: value` line per field.
pub open spec fn diagnostics_text(d: &Diagnostics) -> Seq<char> {
    "profile: "@ + profile_label(d.profile) + "\nenvironment: "@ + d.environment@
        + "\ndatabase: "@ + d.database_path@ + "\ndatabase override: "@ + (if d.database_overridden {
        "yes"@
    } else {
        "no"@
    }) + "\nschema version: "@ + signed_decimal(d.schema_version as int)
}

impl Diagnostics {
    /// Gathers the report from the resolved configuration and what the
    /// database answered: its stored identity and its schema version.
    pub fn collect(
        profile: Profile,
        database_path: &str,
        database_overridden: bool,
        environment: &str,
        schema_version: i64,
    ) -> (r: Diagnostics)
        ensures
            r.profile == profile,
            r.environment@ == environment@,
            r.database_path@ == database_path@,
            r.database_overridden == database_overridden,
            r.schema_version == schema_version,
    {
        Diagnostics {
            profile,
            environment: environment.to_string(),
            database_path: database_path.to_string(),
            database_overridden,
            schema_version,
        }
    }

    /// The report as lines of text.
    pub fn human_readable(&self) -> (r: String)
        ensures
            r@ == diagnostics_text(self),
    {
        let mut s = String::new();
        append_str(&mut s, "profile: ");
        append_str(&mut s, self.profile.as_str());
        append_str(&mut s, "\nenvironment: ");
        append_str(&mut s, self.environment.as_str());
        append_str(&mut s, "\ndatabase: ");
        append_str(&mut s, self.database_path.as_str());
        append_str(&mut s, "\ndatabase override: ");
        if self.database_overridden {
            append_str(&mut s, "yes");
        } else {
            append_str(&mut s, "no");
        }
        append_str(&mut s, "\nschema version: ");
        append_signed_decimal(&mut s, self.schema_version);
        assert(s@ =~= diagnostics_text(self));
        s
    }
}

} // verus!
