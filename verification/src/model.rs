//! The records that the remote service describes, with their mathematical
//! views. A view replaces every string by its sequence of characters.

use vstd::prelude::*;

verus! {

/// What an attachment is: a stored file, or a link to somewhere else.
#[derive(Clone, Copy, Debug, PartialEq, Eq, Structural)]
pub enum AttachmentKind {
    File,
    Uri,
}

impl AttachmentKind {
    /// The kind that the service's numeric code stands for: `0` is a file,
    /// every other code a link.
    pub open spec fn of_code(code: u32) -> AttachmentKind {
        if code == 0 {
            AttachmentKind::File
        } else {
            AttachmentKind::Uri
        }
    }

    /// The kind that the service's numeric code stands for.
    pub fn from_code(code: u32) -> (kind: AttachmentKind)
        ensures
            kind == Self::of_code(code),
    {
        if code == 0 {
            AttachmentKind::File
        } else {
            AttachmentKind::Uri
        }
    }
}

/// A customer as the customer list names it.
#[derive(Debug)]
pub struct Customer {
    pub id: u32,
    pub name: String,
}

/// A reference to a project: the child of a customer, or a stand-in for a
/// project that no customer owns.
#[derive(Debug)]
pub struct Project {
    pub id: u32,
    pub title: String,
}

/// A project reference with its title as a sequence of characters.
pub struct ProjectView {
    pub id: u32,
    pub title: Seq<char>,
}

impl View for Project {
    type V = ProjectView;

    open spec fn view(&self) -> ProjectView {
        ProjectView { id: self.id, title: self.title@ }
    }
}

impl DeepView for Project {
    type V = ProjectView;

    open spec fn deep_view(&self) -> ProjectView {
        self@
    }
}

impl Clone for Project {
    fn clone(&self) -> (copy: Self)
        ensures
            copy == *self,
    {
        Project { id: self.id, title: self.title.clone() }
    }
}

/// An entry of the global project list, with the customer it belongs to.
#[derive(Debug)]
pub struct ProjectDetailed {
    pub id: u32,
    pub title: String,
    pub customer_id: u32,
}

/// An entry of the global project list with its title as a sequence of
/// characters.
pub struct ProjectDetailedView {
    pub id: u32,
    pub title: Seq<char>,
    pub customer_id: u32,
}

impl View for ProjectDetailed {
    type V = ProjectDetailedView;

    open spec fn view(&self) -> ProjectDetailedView {
        ProjectDetailedView { id: self.id, title: self.title@, customer_id: self.customer_id }
    }
}

impl DeepView for ProjectDetailed {
    type V = ProjectDetailedView;

    open spec fn deep_view(&self) -> ProjectDetailedView {
        self@
    }
}

/// A file or link owned by a customer or a project.
#[derive(Debug)]
pub struct Attachment {
    pub id: String,
    pub title: String,
    pub kind: AttachmentKind,
}

/// An attachment with its texts as sequences of characters.
pub struct AttachmentView {
    pub id: Seq<char>,
    pub title: Seq<char>,
    pub kind: AttachmentKind,
}

impl View for Attachment {
    type V = AttachmentView;

    open spec fn view(&self) -> AttachmentView {
        AttachmentView { id: self.id@, title: self.title@, kind: self.kind }
    }
}

impl DeepView for Attachment {
    type V = AttachmentView;

    open spec fn deep_view(&self) -> AttachmentView {
        self@
    }
}

/// What one customer owns. `id` is absent only in the empty record that
/// stands for a customer about whom nothing could be read.
#[derive(Debug)]
pub struct CustomerDetails {
    pub id: Option<u32>,
    pub projects: Vec<Project>,
    pub attachments: Vec<Attachment>,
}

/// What a customer owns, as sequences of views.
pub struct CustomerDetailsView {
    pub id: Option<u32>,
    pub projects: Seq<ProjectView>,
    pub attachments: Seq<AttachmentView>,
}

impl View for CustomerDetails {
    type V = CustomerDetailsView;

    open spec fn view(&self) -> CustomerDetailsView {
        CustomerDetailsView {
            id: self.id,
            projects: self.projects.deep_view(),
            attachments: self.attachments.deep_view(),
        }
    }
}

impl Default for CustomerDetails {
    fn default() -> (empty: Self)
        ensures
            empty.id is None,
            empty.projects@.len() == 0,
            empty.attachments@.len() == 0,
    {
        CustomerDetails { id: None, projects: Vec::new(), attachments: Vec::new() }
    }
}

/// A sub-contractor with the identifiers of their attachments, which are
/// always files.
#[derive(Debug)]
pub struct SubContractor {
    pub id: u32,
    pub company_user_id: u32,
    pub first_name: String,
    pub last_name: String,
    pub attachments: Vec<String>,
}

/// A sub-contractor with their texts as sequences of characters.
pub struct SubContractorView {
    pub id: u32,
    pub company_user_id: u32,
    pub first_name: Seq<char>,
    pub last_name: Seq<char>,
    pub attachments: Seq<Seq<char>>,
}

impl View for SubContractor {
    type V = SubContractorView;

    open spec fn view(&self) -> SubContractorView {
        SubContractorView {
            id: self.id,
            company_user_id: self.company_user_id,
            first_name: self.first_name@,
            last_name: self.last_name@,
            attachments: self.attachments.deep_view(),
        }
    }
}

} // verus!
