use cinode_extract::harvest::HarvestError;
use cinode_extract::model::{Attachment, AttachmentKind, Customer, CustomerDetails, Project};
use cinode_extract::task::{CustomerTask, TaskEvent};

fn attachment(id: &str, kind: AttachmentKind) -> Attachment {
    Attachment { id: id.to_string(), title: format!("title of {}", id), kind }
}

fn acme() -> Customer {
    Customer { id: 17, name: "Acme AB".to_string() }
}

fn details() -> CustomerDetails {
    CustomerDetails {
        id: Some(17),
        projects: vec![
            Project { id: 3, title: "Phase 1. Discovery".to_string() },
            Project { id: 4, title: "Empty".to_string() },
            Project { id: 5, title: "Build".to_string() },
        ],
        attachments: vec![attachment("a1", AttachmentKind::File)],
    }
}

#[test]
fn task_begins_with_the_details_of_the_customer() {
    match CustomerTask::begin(&acme()) {
        CustomerTask::ReadDetails { name, path } => {
            assert_eq!(name, "Acme AB");
            assert_eq!(path, "https://api.cinode.com/v0.1/companies/31/customers/17");
        }
        other => panic!("unexpected first step: {:?}", other),
    }
}

#[test]
fn customer_without_anything_is_done_at_once() {
    let task = CustomerTask::begin(&acme()).step(TaskEvent::Details(CustomerDetails::default()));
    assert!(matches!(task, CustomerTask::Done));
    let c = CustomerDetails { id: Some(17), projects: Vec::new(), attachments: Vec::new() };
    assert!(matches!(CustomerTask::begin(&acme()).step(TaskEvent::Details(c)), CustomerTask::Done));
}

#[test]
fn customer_with_content_and_no_identifier_fails() {
    let broken = CustomerDetails { id: None, ..details() };
    let task = CustomerTask::begin(&acme()).step(TaskEvent::Details(broken));
    assert!(matches!(task, CustomerTask::Failed(HarvestError::MissingCustomerId)));
    let still = task.step(TaskEvent::Sent);
    assert!(matches!(still, CustomerTask::Failed(HarvestError::MissingCustomerId)));
}

#[test]
fn report_comes_before_every_count_and_download() {
    let task = CustomerTask::begin(&acme()).step(TaskEvent::Details(details()));
    match &task {
        CustomerTask::SendReport { report, plan } => {
            assert_eq!(report.customer_id, 17);
            assert_eq!(report.projects.len(), 3);
            assert_eq!(report.projects[0].id, 3);
            assert_eq!(report.projects[2].title, "Build");
            assert_eq!(plan.customer, 17);
            assert_eq!(plan.dir, "One Agency/Acme AB");
        }
        other => panic!("unexpected step: {:?}", other),
    }
    let waiting = task.step(TaskEvent::Counted(0));
    assert!(matches!(waiting, CustomerTask::SendReport { .. }));
    let waiting = waiting.step(TaskEvent::Downloaded);
    assert!(matches!(waiting, CustomerTask::SendReport { .. }));
    let counting = waiting.step(TaskEvent::Sent);
    assert!(matches!(counting, CustomerTask::CountOwn { .. }));
}

#[test]
fn whole_task_runs_in_order() {
    let mut seen = Vec::new();
    let mut task = CustomerTask::begin(&acme());
    loop {
        let event = match &task {
            CustomerTask::ReadDetails { .. } => {
                seen.push("details".to_string());
                TaskEvent::Details(details())
            }
            CustomerTask::SendReport { .. } => {
                seen.push("report".to_string());
                TaskEvent::Sent
            }
            CustomerTask::CountOwn { plan } => {
                seen.push(format!("count {}", plan.dir));
                TaskEvent::Counted(0)
            }
            CustomerTask::Download { downloads, dir, .. } => {
                let urls: Vec<&str> = downloads.iter().map(|d| d.url.as_str()).collect();
                seen.push(format!("download {:?} into {}", urls, dir));
                TaskEvent::Downloaded
            }
            CustomerTask::ReadProject { path, walk } => {
                seen.push(format!("project {}", path));
                let found = match walk.projects[walk.at].id {
                    3 => vec![
                        attachment("p1", AttachmentKind::File),
                        attachment("p2", AttachmentKind::Uri),
                    ],
                    5 => vec![attachment("q1", AttachmentKind::File)],
                    _ => Vec::new(),
                };
                TaskEvent::Attachments(found)
            }
            CustomerTask::CountProject { dir, attachments, .. } => {
                seen.push(format!("count {}", dir));
                TaskEvent::Counted(if attachments.len() == 1 { 1 } else { 0 })
            }
            CustomerTask::Done => break,
            CustomerTask::Failed(why) => panic!("failed: {:?}", why),
        };
        task = task.step(event);
    }
    let api = "https://api.cinode.com/v0.1/companies/31";
    assert_eq!(
        seen,
        vec![
            "details".to_string(),
            "report".to_string(),
            "count One Agency/Acme AB".to_string(),
            format!("download [\"{}/customers/17/attachments/a1\"] into One Agency/Acme AB", api),
            format!("project {}/projects/3", api),
            "count One Agency/Acme AB/Phase 1".to_string(),
            format!(
                "download [\"{0}/projects/3/attachments/p1\", \"{0}/projects/3/attachments/p2\"] into One Agency/Acme AB/Phase 1",
                api
            ),
            format!("project {}/projects/4", api),
            format!("project {}/projects/5", api),
            "count One Agency/Acme AB/Build".to_string(),
            "download [] into One Agency/Acme AB/Build".to_string(),
        ]
    );
}

#[test]
fn finished_task_stays_finished() {
    let done = CustomerTask::Done.step(TaskEvent::Details(details()));
    assert!(matches!(done, CustomerTask::Done));
}

#[test]
fn event_that_was_not_asked_for_changes_nothing() {
    let start = CustomerTask::begin(&acme()).step(TaskEvent::Counted(3));
    assert!(matches!(start, CustomerTask::ReadDetails { .. }));
    let start = start.step(TaskEvent::Attachments(Vec::new()));
    assert!(matches!(start, CustomerTask::ReadDetails { .. }));
}
