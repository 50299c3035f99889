//! Where on disk the attachments go: one directory for each customer under a
//! common root, one inside it for each project, and two buckets beside the
//! customers for sub-contractors and for projects that nobody owns.

use crate::naming::{join, joined, trim_title};
use crate::text::before;
use vstd::prelude::*;
use vstd::string::StringExecFns;

verus! {

/// The root of everything that is written.
pub const ROOT_DIR: &'static str = "One Agency";

/// The bucket of the sub-contractors.
pub const SUB_CONTRACTORS_DIR: &'static str = "One Agency/_Sub Contractors";

/// The bucket of the projects that no customer has claimed.
pub const IN_HOUSE_DIR: &'static str = "One Agency/_In House Projects";

/// The directory of a customer: its name under the root.
pub fn customer_dir(name: &str) -> (dir: String)
    ensures
        dir@ == joined(ROOT_DIR@, name@),
{
    join(ROOT_DIR, name)
}

/// The directory of a project inside `parent`: the title up to its first
/// full stop.
pub fn project_dir(parent: &str, title: &str) -> (dir: String)
    ensures
        dir@ == joined(parent@, before(title@, '.')),
{
    let segment = trim_title(title);
    join(parent, segment.as_str())
}

/// The directory of a sub-contractor: first and last name with a blank
/// between them, in the sub-contractors' bucket.
pub fn sub_contractor_dir(first_name: &str, last_name: &str) -> (dir: String)
    ensures
        dir@ == joined(SUB_CONTRACTORS_DIR@, first_name@ + " "@ + last_name@),
{
    let mut full_name = String::from_str(first_name);
    full_name.append(" ");
    full_name.append(last_name);
    join(SUB_CONTRACTORS_DIR, full_name.as_str())
}

} // verus!
