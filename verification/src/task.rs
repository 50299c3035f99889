//! The customer task, step by step. The task asks for what the customer
//! owns, hands out its report, and only then turns to the downloads: first
//! the customer's own attachments, then those of each project in turn.

use crate::harvest::{
    after_skip, customer_downloads, customer_report, project_downloads, project_target, wanted,
    Download, DownloadView, HarvestError,
};
use crate::layout::{customer_dir, ROOT_DIR};
use crate::model::{
    Attachment, AttachmentView, Customer, CustomerDetails, CustomerDetailsView, Project,
    ProjectView,
};
use crate::naming::joined;
use crate::paths::{customer_path, member, project_path};
use crate::reconcile::{ClaimReport, ClaimReportView};
use crate::text::before;
use vstd::prelude::*;

verus! {

/// What a customer task has to download once it has reported.
#[derive(Debug)]
pub struct Plan {
    pub customer: u32,
    pub dir: String,
    pub attachments: Vec<Attachment>,
    pub projects: Vec<Project>,
}

/// A plan with its texts as sequences of characters.
pub struct PlanView {
    pub customer: u32,
    pub dir: Seq<char>,
    pub attachments: Seq<AttachmentView>,
    pub projects: Seq<ProjectView>,
}

impl View for Plan {
    type V = PlanView;

    open spec fn view(&self) -> PlanView {
        PlanView {
            customer: self.customer,
            dir: self.dir@,
            attachments: self.attachments.deep_view(),
            projects: self.projects.deep_view(),
        }
    }
}

/// The way through the projects of a customer: the directory above theirs,
/// the projects, and the place of the one whose turn it is.
#[derive(Debug)]
pub struct Walk {
    pub parent: String,
    pub projects: Vec<Project>,
    pub at: usize,
}

/// A walk with its texts as sequences of characters.
pub struct WalkView {
    pub parent: Seq<char>,
    pub projects: Seq<ProjectView>,
    pub at: nat,
}

impl View for Walk {
    type V = WalkView;

    open spec fn view(&self) -> WalkView {
        WalkView { parent: self.parent@, projects: self.projects.deep_view(), at: self.at as nat }
    }
}

/// Where a customer task stands: what the caller is to do next, or how the
/// task ended.
#[derive(Debug)]
pub enum CustomerTask {
    /// Look up what the customer owns at this path, and answer with it.
    ReadDetails { name: String, path: String },
    /// Hand the report to the reconciliation. Nothing is downloaded yet.
    SendReport { report: ClaimReport, plan: Plan },
    /// Count the plain files in the customer's directory.
    CountOwn { plan: Plan },
    /// Download these into the directory.
    Download { downloads: Vec<Download>, dir: String, walk: Walk },
    /// Look up the attachments of a project at this path.
    ReadProject { path: String, walk: Walk },
    /// Count the plain files in the project's directory.
    CountProject { dir: String, attachments: Vec<Attachment>, walk: Walk },
    /// Nothing is left to do.
    Done,
    /// The task cannot go on.
    Failed(HarvestError),
}

/// A customer task with its texts as sequences of characters.
pub enum CustomerTaskView {
    ReadDetails { name: Seq<char>, path: Seq<char> },
    SendReport { report: ClaimReportView, plan: PlanView },
    CountOwn { plan: PlanView },
    Download { downloads: Seq<DownloadView>, dir: Seq<char>, walk: WalkView },
    ReadProject { path: Seq<char>, walk: WalkView },
    CountProject { dir: Seq<char>, attachments: Seq<AttachmentView>, walk: WalkView },
    Done,
    Failed(HarvestError),
}

impl View for CustomerTask {
    type V = CustomerTaskView;

    open spec fn view(&self) -> CustomerTaskView {
        match self {
            CustomerTask::ReadDetails { name, path } => CustomerTaskView::ReadDetails {
                name: name@,
                path: path@,
            },
            CustomerTask::SendReport { report, plan } => CustomerTaskView::SendReport {
                report: report@,
                plan: plan@,
            },
            CustomerTask::CountOwn { plan } => CustomerTaskView::CountOwn { plan: plan@ },
            CustomerTask::Download { downloads, dir, walk } => CustomerTaskView::Download {
                downloads: downloads.deep_view(),
                dir: dir@,
                walk: walk@,
            },
            CustomerTask::ReadProject { path, walk } => CustomerTaskView::ReadProject {
                path: path@,
                walk: walk@,
            },
            CustomerTask::CountProject { dir, attachments, walk } => CustomerTaskView::CountProject {
                dir: dir@,
                attachments: attachments.deep_view(),
                walk: walk@,
            },
            CustomerTask::Done => CustomerTaskView::Done,
            CustomerTask::Failed(why) => CustomerTaskView::Failed(*why),
        }
    }
}

/// What the caller has done or found for a customer task.
#[derive(Debug)]
pub enum TaskEvent {
    /// What the customer owns.
    Details(CustomerDetails),
    /// The report has been handed over.
    Sent,
    /// The directory holds this many plain files.
    Counted(usize),
    /// The downloads have been made.
    Downloaded,
    /// The attachments of the project.
    Attachments(Vec<Attachment>),
}

/// An event with its texts as sequences of characters.
pub enum TaskEventView {
    Details(CustomerDetailsView),
    Sent,
    Counted(usize),
    Downloaded,
    Attachments(Seq<AttachmentView>),
}

impl View for TaskEvent {
    type V = TaskEventView;

    open spec fn view(&self) -> TaskEventView {
        match self {
            TaskEvent::Details(details) => TaskEventView::Details(details@),
            TaskEvent::Sent => TaskEventView::Sent,
            TaskEvent::Counted(files) => TaskEventView::Counted(*files),
            TaskEvent::Downloaded => TaskEventView::Downloaded,
            TaskEvent::Attachments(found) => TaskEventView::Attachments(found.deep_view()),
        }
    }
}

/// The first step of the task of a customer: look up what it owns.
pub open spec fn first_task_step(id: u32, name: Seq<char>) -> CustomerTaskView {
    CustomerTaskView::ReadDetails { name, path: member("customers"@, id) }
}

/// What follows the details of a customer: nothing for one without
/// projects and attachments, and the report for any other.
pub open spec fn after_details(name: Seq<char>, details: CustomerDetailsView) -> CustomerTaskView {
    if details.projects.len() == 0 && details.attachments.len() == 0 {
        CustomerTaskView::Done
    } else {
        match details.id {
            Some(customer) => CustomerTaskView::SendReport {
                report: ClaimReportView { customer_id: customer, projects: details.projects },
                plan: PlanView {
                    customer,
                    dir: joined(ROOT_DIR@, name),
                    attachments: details.attachments,
                    projects: details.projects,
                },
            },
            None => CustomerTaskView::Failed(HarvestError::MissingCustomerId),
        }
    }
}

/// The walk with the next project in turn.
pub open spec fn advanced(walk: WalkView) -> WalkView {
    WalkView { parent: walk.parent, projects: walk.projects, at: walk.at + 1 }
}

/// The step that turns to the project whose turn it is, or the end where
/// all have had theirs.
pub open spec fn turn_to_project(walk: WalkView) -> CustomerTaskView {
    if walk.at < walk.projects.len() {
        CustomerTaskView::ReadProject {
            path: member("projects"@, walk.projects[walk.at as int].id),
            walk,
        }
    } else {
        CustomerTaskView::Done
    }
}

/// The step that follows `state` on `event`. The report follows the details
/// and comes before every count and every download; the customer's own
/// attachments come before the projects; a project without attachments is
/// passed over. An event that the state did not ask for changes nothing.
pub open spec fn task_step(state: CustomerTaskView, event: TaskEventView) -> CustomerTaskView {
    match (state, event) {
        (CustomerTaskView::ReadDetails { name, path }, TaskEventView::Details(details)) => {
            after_details(name, details)
        },
        (CustomerTaskView::SendReport { report, plan }, TaskEventView::Sent) => {
            CustomerTaskView::CountOwn { plan }
        },
        (CustomerTaskView::CountOwn { plan }, TaskEventView::Counted(files)) => {
            CustomerTaskView::Download {
                downloads: after_skip(
                    wanted("customers"@, plan.customer, plan.attachments),
                    files as nat,
                ),
                dir: plan.dir,
                walk: WalkView { parent: plan.dir, projects: plan.projects, at: 0 },
            }
        },
        (CustomerTaskView::Download { downloads, dir, walk }, TaskEventView::Downloaded) => {
            turn_to_project(walk)
        },
        (CustomerTaskView::ReadProject { path, walk }, TaskEventView::Attachments(found)) => {
            if walk.at >= walk.projects.len() {
                CustomerTaskView::Done
            } else if found.len() == 0 {
                turn_to_project(advanced(walk))
            } else {
                CustomerTaskView::CountProject {
                    dir: joined(walk.parent, before(walk.projects[walk.at as int].title, '.')),
                    attachments: found,
                    walk,
                }
            }
        },
        (
            CustomerTaskView::CountProject { dir, attachments, walk },
            TaskEventView::Counted(files),
        ) => {
            if walk.at >= walk.projects.len() {
                CustomerTaskView::Done
            } else {
                CustomerTaskView::Download {
                    downloads: after_skip(
                        wanted("projects"@, walk.projects[walk.at as int].id, attachments),
                        files as nat,
                    ),
                    dir,
                    walk: advanced(walk),
                }
            }
        },
        _ => state,
    }
}

/// The task is past its report: it counts, downloads or looks up a project.
pub open spec fn past_report(state: CustomerTaskView) -> bool {
    state is CountOwn || state is Download || state is ReadProject || state is CountProject
}

/// The report comes first. A task does not begin past its report, and it
/// gets there in one way only: from the step that hands the report out, on
/// the word that the report was sent. So no file is counted and nothing is
/// downloaded before the report has gone, and a task that has nothing to
/// report downloads nothing.
pub proof fn lemma_report_comes_first(
    id: u32,
    name: Seq<char>,
    state: CustomerTaskView,
    event: TaskEventView,
)
    ensures
        !past_report(first_task_step(id, name)),
        past_report(task_step(state, event)) ==> past_report(state) || (state is SendReport
            && event is Sent),
        task_step(state, event) is SendReport ==> state is SendReport || (state is ReadDetails
            && event is Details),
        state is Done || state is Failed ==> task_step(state, event) == state,
{
}

fn turn(walk: Walk) -> (next: CustomerTask)
    ensures
        next@ == turn_to_project(walk@),
{
    if walk.at < walk.projects.len() {
        let path = project_path(walk.projects[walk.at].id);
        CustomerTask::ReadProject { path, walk }
    } else {
        CustomerTask::Done
    }
}

impl CustomerTask {
    /// Starts the task of a customer.
    pub fn begin(customer: &Customer) -> (start: CustomerTask)
        ensures
            start@ == first_task_step(customer.id, customer.name@),
    {
        CustomerTask::ReadDetails { name: customer.name.clone(), path: customer_path(customer.id) }
    }

    /// Takes what the caller has done or found and says what follows.
    pub fn step(self, event: TaskEvent) -> (next: CustomerTask)
        ensures
            next@ == task_step(self@, event@),
    {
        match self {
            CustomerTask::ReadDetails { name, path } => match event {
                TaskEvent::Details(details) => match customer_report(&details) {
                    Ok(Some(report)) => {
                        let plan = Plan {
                            customer: report.customer_id,
                            dir: customer_dir(name.as_str()),
                            attachments: details.attachments,
                            projects: details.projects,
                        };
                        CustomerTask::SendReport { report, plan }
                    },
                    Ok(None) => CustomerTask::Done,
                    Err(why) => CustomerTask::Failed(why),
                },
                _ => CustomerTask::ReadDetails { name, path },
            },
            CustomerTask::SendReport { report, plan } => match event {
                TaskEvent::Sent => CustomerTask::CountOwn { plan },
                _ => CustomerTask::SendReport { report, plan },
            },
            CustomerTask::CountOwn { plan } => match event {
                TaskEvent::Counted(files) => {
                    let downloads = customer_downloads(plan.customer, &plan.attachments, files);
                    let parent = plan.dir.clone();
                    let walk = Walk { parent, projects: plan.projects, at: 0 };
                    CustomerTask::Download { downloads, dir: plan.dir, walk }
                },
                _ => CustomerTask::CountOwn { plan },
            },
            CustomerTask::Download { downloads, dir, walk } => match event {
                TaskEvent::Downloaded => turn(walk),
                _ => CustomerTask::Download { downloads, dir, walk },
            },
            CustomerTask::ReadProject { path, walk } => match event {
                TaskEvent::Attachments(found) => {
                    if walk.at >= walk.projects.len() {
                        return CustomerTask::Done;
                    }
                    let target = project_target(
                        walk.parent.as_str(),
                        walk.projects[walk.at].title.as_str(),
                        &found,
                    );
                    match target {
                        Some(dir) => CustomerTask::CountProject { dir, attachments: found, walk },
                        None => turn(
                            Walk { parent: walk.parent, projects: walk.projects, at: walk.at + 1 },
                        ),
                    }
                },
                _ => CustomerTask::ReadProject { path, walk },
            },
            CustomerTask::CountProject { dir, attachments, walk } => match event {
                TaskEvent::Counted(files) => {
                    if walk.at >= walk.projects.len() {
                        return CustomerTask::Done;
                    }
                    let downloads = project_downloads(
                        walk.projects[walk.at].id,
                        &attachments,
                        files,
                    );
                    let walk = Walk {
                        parent: walk.parent,
                        projects: walk.projects,
                        at: walk.at + 1,
                    };
                    CustomerTask::Download { downloads, dir, walk }
                },
                _ => CustomerTask::CountProject { dir, attachments, walk },
            },
            CustomerTask::Done => CustomerTask::Done,
            CustomerTask::Failed(why) => CustomerTask::Failed(why),
        }
    }
}

} // verus!
