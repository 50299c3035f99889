//! The request paths of the remote service. A path is the key under which its
//! response is cached, so each is built in one way only.

use crate::text::{decimal, lemma_decimal_is_one_to_one, push_decimal};
use vstd::prelude::*;
use vstd::string::StringExecFns;

verus! {

/// The root of every request path.
pub const API_PATH: &'static str = "https://api.cinode.com/v0.1/companies/31";

/// The path of a whole collection: the root, a slash and the collection's
/// name.
pub open spec fn collection(name: Seq<char>) -> Seq<char> {
    API_PATH@ + "/"@ + name
}

/// The path of one member of a collection.
pub open spec fn member(name: Seq<char>, id: u32) -> Seq<char> {
    collection(name) + "/"@ + decimal(id as nat)
}

/// The path of one attachment of a member of a collection.
pub open spec fn attachment_of(name: Seq<char>, id: u32, attachment: Seq<char>) -> Seq<char> {
    member(name, id) + "/attachments/"@ + attachment
}

/// No two members of a collection share a path, and no two attachments of
/// one member do: requests for different things are cached apart.
pub proof fn lemma_paths_tell_apart(
    name: Seq<char>,
    id: u32,
    other_id: u32,
    attachment: Seq<char>,
    other_attachment: Seq<char>,
)
    ensures
        id != other_id ==> member(name, id) != member(name, other_id),
        attachment != other_attachment ==> attachment_of(name, id, attachment) != attachment_of(
            name,
            id,
            other_attachment,
        ),
{
    let stem = collection(name) + "/"@;
    if member(name, id) == member(name, other_id) {
        assert(decimal(id as nat) =~= member(name, id).subrange(
            stem.len() as int,
            member(name, id).len() as int,
        ));
        assert(decimal(other_id as nat) =~= member(name, other_id).subrange(
            stem.len() as int,
            member(name, other_id).len() as int,
        ));
        lemma_decimal_is_one_to_one(id as nat, other_id as nat);
    }
    let owner = member(name, id) + "/attachments/"@;
    let one = attachment_of(name, id, attachment);
    let other = attachment_of(name, id, other_attachment);
    if one == other {
        assert(attachment =~= one.subrange(owner.len() as int, one.len() as int));
        assert(other_attachment =~= other.subrange(owner.len() as int, other.len() as int));
    }
}

fn collection_path(name: &str) -> (path: String)
    ensures
        path@ == collection(name@),
{
    let mut path = String::from_str(API_PATH);
    path.append("/");
    path.append(name);
    path
}

fn member_path(name: &str, id: u32) -> (path: String)
    ensures
        path@ == member(name@, id),
{
    let mut path = collection_path(name);
    path.append("/");
    push_decimal(&mut path, id);
    path
}

pub(crate) fn attachment_path(name: &str, id: u32, attachment: &str) -> (path: String)
    ensures
        path@ == attachment_of(name@, id, attachment@),
{
    let mut path = member_path(name, id);
    path.append("/attachments/");
    path.append(attachment);
    path
}

/// The list of customers.
pub fn customers_path() -> (path: String)
    ensures
        path@ == collection("customers"@),
{
    collection_path("customers")
}

/// One customer with its projects and attachments.
pub fn customer_path(customer: u32) -> (path: String)
    ensures
        path@ == member("customers"@, customer),
{
    member_path("customers", customer)
}

/// One attachment of a customer.
pub fn customer_attachment_path(customer: u32, attachment: &str) -> (path: String)
    ensures
        path@ == attachment_of("customers"@, customer, attachment@),
{
    attachment_path("customers", customer, attachment)
}

/// The global list of projects.
pub fn projects_path() -> (path: String)
    ensures
        path@ == collection("projects"@),
{
    collection_path("projects")
}

/// One project with its attachments.
pub fn project_path(project: u32) -> (path: String)
    ensures
        path@ == member("projects"@, project),
{
    member_path("projects", project)
}

/// One attachment of a project.
pub fn project_attachment_path(project: u32, attachment: &str) -> (path: String)
    ensures
        path@ == attachment_of("projects"@, project, attachment@),
{
    attachment_path("projects", project, attachment)
}

/// The list of sub-contractors.
pub fn sub_contractors_path() -> (path: String)
    ensures
        path@ == collection("subcontractors"@),
{
    collection_path("subcontractors")
}

/// One attachment of a sub-contractor.
pub fn sub_contractor_attachment_path(contractor: u32, attachment: &str) -> (path: String)
    ensures
        path@ == attachment_of("subcontractors"@, contractor, attachment@),
{
    attachment_path("subcontractors", contractor, attachment)
}

} // verus!
