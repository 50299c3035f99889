//! The decisions of the harvesting tasks: whether a customer has anything to
//! report, and which attachments are to be downloaded into a directory.

use crate::layout::{project_dir, sub_contractor_dir, SUB_CONTRACTORS_DIR};
use crate::model::{Attachment, AttachmentKind, AttachmentView, CustomerDetails, SubContractor};
use crate::naming::joined;
use crate::paths::{attachment_of, attachment_path, sub_contractor_attachment_path};
use crate::reconcile::{ClaimReport, ClaimReportView};
use crate::skip::{already_complete, files_in};
use crate::text::before;
use vstd::prelude::*;

verus! {

/// One attachment to download: where to ask for it, and whether the answer
/// is a file to store or a link to put down as text.
#[derive(Debug)]
pub struct Download {
    pub url: String,
    pub kind: AttachmentKind,
}

/// A download with its address as a sequence of characters.
pub struct DownloadView {
    pub url: Seq<char>,
    pub kind: AttachmentKind,
}

impl View for Download {
    type V = DownloadView;

    open spec fn view(&self) -> DownloadView {
        DownloadView { url: self.url@, kind: self.kind }
    }
}

impl DeepView for Download {
    type V = DownloadView;

    open spec fn deep_view(&self) -> DownloadView {
        self@
    }
}

/// The downloads for the attachments of one owner, in the order of the
/// attachments. `collection` is the collection that the owner belongs to.
pub open spec fn wanted(
    collection: Seq<char>,
    owner: u32,
    attachments: Seq<AttachmentView>,
) -> Seq<DownloadView> {
    Seq::new(
        attachments.len(),
        |i: int|
            DownloadView {
                url: attachment_of(collection, owner, attachments[i].id),
                kind: attachments[i].kind,
            },
    )
}

/// The downloads for the attachments of a sub-contractor, which are files.
pub open spec fn wanted_files(
    collection: Seq<char>,
    owner: u32,
    attachments: Seq<Seq<char>>,
) -> Seq<DownloadView> {
    Seq::new(
        attachments.len(),
        |i: int|
            DownloadView {
                url: attachment_of(collection, owner, attachments[i]),
                kind: AttachmentKind::File,
            },
    )
}

/// What is left to download into a directory that holds `files` plain
/// files: nothing where that is the number of downloads, and all of them
/// otherwise.
pub open spec fn after_skip(all: Seq<DownloadView>, files: nat) -> Seq<DownloadView> {
    if files == all.len() {
        Seq::empty()
    } else {
        all
    }
}

/// The skip guard takes all or nothing. A directory that holds exactly as
/// many plain files as there are attachments gets no download; one that
/// holds more or fewer gets every download, in order; and so does one that
/// is missing, where there is anything to download.
pub proof fn lemma_skip_takes_all_or_nothing(all: Seq<DownloadView>, files: nat)
    ensures
        files == all.len() ==> after_skip(all, files).len() == 0,
        files != all.len() ==> after_skip(all, files) == all,
        all.len() > 0 ==> after_skip(all, files_in(None)) == all,
{
}

/// The downloads for the attachments of one member of a collection.
fn attachment_downloads(
    collection: &str,
    owner: u32,
    attachments: &Vec<Attachment>,
    files: usize,
) -> (downloads: Vec<Download>)
    ensures
        downloads.deep_view() == after_skip(
            wanted(collection@, owner, attachments.deep_view()),
            files as nat,
        ),
{
    let mut downloads: Vec<Download> = Vec::new();
    if already_complete(files, attachments.len()) {
        assert(downloads.deep_view() =~= Seq::<DownloadView>::empty());
        return downloads;
    }
    let ghost all = wanted(collection@, owner, attachments.deep_view());
    let mut i: usize = 0;
    while i < attachments.len()
        invariant
            i <= attachments.len(),
            all == wanted(collection@, owner, attachments.deep_view()),
            downloads.deep_view() == all.take(i as int),
        decreases attachments.len() - i,
    {
        let attachment = &attachments[i];
        let ghost earlier = downloads.deep_view();
        let download = Download {
            url: attachment_path(collection, owner, attachment.id.as_str()),
            kind: attachment.kind,
        };
        downloads.push(download);
        assert(downloads.deep_view() =~= earlier.push(download@));
        i += 1;
    }
    assert(all.take(all.len() as int) == all);
    downloads
}

/// The downloads for a customer's own attachments into a directory that
/// holds `files` plain files: none where the directory is complete, and
/// otherwise one for each attachment, in order.
pub fn customer_downloads(customer: u32, attachments: &Vec<Attachment>, files: usize) -> (downloads:
    Vec<Download>)
    ensures
        downloads.deep_view() == after_skip(
            wanted("customers"@, customer, attachments.deep_view()),
            files as nat,
        ),
{
    attachment_downloads("customers", customer, attachments, files)
}

/// The downloads for a project's attachments into a directory that holds
/// `files` plain files: none where the directory is complete, and otherwise
/// one for each attachment, in order.
pub fn project_downloads(project: u32, attachments: &Vec<Attachment>, files: usize) -> (downloads:
    Vec<Download>)
    ensures
        downloads.deep_view() == after_skip(
            wanted("projects"@, project, attachments.deep_view()),
            files as nat,
        ),
{
    attachment_downloads("projects", project, attachments, files)
}

/// The downloads for a sub-contractor's attachments into a directory that
/// holds `files` plain files: none where the directory is complete, and
/// otherwise one for each attachment, in order. All of them are files.
pub fn sub_contractor_downloads(contractor: &SubContractor, files: usize) -> (downloads: Vec<
    Download,
>)
    ensures
        downloads.deep_view() == after_skip(
            wanted_files("subcontractors"@, contractor.id, contractor.attachments.deep_view()),
            files as nat,
        ),
{
    let mut downloads: Vec<Download> = Vec::new();
    if already_complete(files, contractor.attachments.len()) {
        assert(downloads.deep_view() =~= Seq::<DownloadView>::empty());
        return downloads;
    }
    let ghost all = wanted_files(
        "subcontractors"@,
        contractor.id,
        contractor.attachments.deep_view(),
    );
    let mut i: usize = 0;
    while i < contractor.attachments.len()
        invariant
            i <= contractor.attachments.len(),
            all == wanted_files(
                "subcontractors"@,
                contractor.id,
                contractor.attachments.deep_view(),
            ),
            downloads.deep_view() == all.take(i as int),
        decreases contractor.attachments.len() - i,
    {
        let ghost earlier = downloads.deep_view();
        let download = Download {
            url: sub_contractor_attachment_path(contractor.id, contractor.attachments[i].as_str()),
            kind: AttachmentKind::File,
        };
        downloads.push(download);
        assert(downloads.deep_view() =~= earlier.push(download@));
        i += 1;
    }
    assert(all.take(all.len() as int) == all);
    downloads
}

/// The directory for a project's attachments inside `parent`, or none for a
/// project without attachments, which needs no directory.
pub fn project_target(parent: &str, title: &str, attachments: &Vec<Attachment>) -> (dir: Option<
    String,
>)
    ensures
        dir.deep_view() == if attachments@.len() == 0 {
            None
        } else {
            Some(joined(parent@, before(title@, '.')))
        },
{
    if attachments.len() == 0 {
        None
    } else {
        Some(project_dir(parent, title))
    }
}

/// The directory for a sub-contractor's attachments, or none for one without
/// attachments.
pub fn sub_contractor_target(contractor: &SubContractor) -> (dir: Option<String>)
    ensures
        dir.deep_view() == if contractor.attachments@.len() == 0 {
            None
        } else {
            Some(
                joined(
                    SUB_CONTRACTORS_DIR@,
                    contractor.first_name@ + " "@ + contractor.last_name@,
                ),
            )
        },
{
    if contractor.attachments.len() == 0 {
        None
    } else {
        Some(sub_contractor_dir(contractor.first_name.as_str(), contractor.last_name.as_str()))
    }
}

/// Why a customer could not be harvested.
#[derive(Clone, Copy, Debug, PartialEq, Eq, Structural)]
pub enum HarvestError {
    /// The customer has projects or attachments but no identifier.
    MissingCustomerId,
}

/// What a customer task reports before it downloads anything. A customer
/// without projects and without attachments reports nothing and is done. Any
/// other reports its identifier and its projects, in their order.
pub fn customer_report(details: &CustomerDetails) -> (report: Result<
    Option<ClaimReport>,
    HarvestError,
>)
    ensures
        details@.projects.len() == 0 && details@.attachments.len() == 0 ==> report matches Ok(None),
        details@.projects.len() > 0 || details@.attachments.len() > 0 ==> match details.id {
            Some(customer) => report matches Ok(Some(claim)) && claim@ == (ClaimReportView {
                customer_id: customer,
                projects: details@.projects,
            }),
            None => report matches Err(HarvestError::MissingCustomerId),
        },
{
    if details.attachments.len() == 0 && details.projects.len() == 0 {
        return Ok(None);
    }
    match details.id {
        Some(customer) => {
            let projects = details.projects.clone();
            assert(projects.deep_view() =~= details.projects.deep_view());
            Ok(Some(ClaimReport { customer_id: customer, projects }))
        },
        None => Err(HarvestError::MissingCustomerId),
    }
}

} // verus!
