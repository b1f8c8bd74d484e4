use vstd::prelude::*;

verus! {

use vstd::string::StringExecFns;
use crate::numfmt::spec_decimal_signed;
use crate::numfmt::i64_to_string;

/// The path under which one activity's detail record is persisted: the
/// activities directory, the decimal identifier, and a `.json` suffix.
pub open spec fn spec_activity_file_path(id: i64) -> Seq<char> {
    "data/activities/"@ + spec_decimal_signed(id as int) + ".json"@
}

/// Build the detail-record path for an activity identifier.
pub fn activity_file_path(id: i64) -> (p: String)
    ensures
        p@ =~= spec_activity_file_path(id),
{
    String::from_str("data/activities/").concat(i64_to_string(id).as_str()).concat(".json")
}

/// Relies on std::path::Path::exists: whether `p` names an existing
/// filesystem entry. The answer depends on the state of the disk, so
/// nothing is stated of it.
#[verifier::external_body]
fn path_exists(p: &str) -> bool {
    std::path::Path::new(p).exists()
}

/// Whether a detail record for this activity already sits on disk; a hit
/// lets the orchestrator skip the remote streams fetch for it.
pub fn activity_file_exists(id: i64) -> bool {
    path_exists(activity_file_path(id).as_str())
}

} // verus!
