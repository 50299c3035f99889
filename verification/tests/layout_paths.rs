use cinode_extract::layout::{
    customer_dir, project_dir, sub_contractor_dir, IN_HOUSE_DIR, ROOT_DIR, SUB_CONTRACTORS_DIR,
};
use cinode_extract::paths::{
    customer_attachment_path, customer_path, customers_path, project_attachment_path,
    project_path, projects_path, sub_contractor_attachment_path, sub_contractors_path, API_PATH,
};

#[test]
fn buckets_lie_under_the_root() {
    assert_eq!(ROOT_DIR, "One Agency");
    assert_eq!(SUB_CONTRACTORS_DIR, "One Agency/_Sub Contractors");
    assert_eq!(IN_HOUSE_DIR, "One Agency/_In House Projects");
}

#[test]
fn customer_directory_is_the_name_under_the_root() {
    assert_eq!(customer_dir("Acme AB"), "One Agency/Acme AB");
}

#[test]
fn project_directory_uses_the_trimmed_title() {
    assert_eq!(
        project_dir("One Agency/Acme AB", "Phase 1. Discovery and setup"),
        "One Agency/Acme AB/Phase 1"
    );
    assert_eq!(project_dir(IN_HOUSE_DIR, "Intranet"), "One Agency/_In House Projects/Intranet");
}

#[test]
fn sub_contractor_directory_is_first_and_last_name() {
    assert_eq!(sub_contractor_dir("Ada", "Lovelace"), "One Agency/_Sub Contractors/Ada Lovelace");
}

#[test]
fn collection_paths() {
    assert_eq!(API_PATH, "https://api.cinode.com/v0.1/companies/31");
    assert_eq!(customers_path(), "https://api.cinode.com/v0.1/companies/31/customers");
    assert_eq!(projects_path(), "https://api.cinode.com/v0.1/companies/31/projects");
    assert_eq!(sub_contractors_path(), "https://api.cinode.com/v0.1/companies/31/subcontractors");
}

#[test]
fn member_paths() {
    assert_eq!(customer_path(17), "https://api.cinode.com/v0.1/companies/31/customers/17");
    assert_eq!(project_path(0), "https://api.cinode.com/v0.1/companies/31/projects/0");
    assert_eq!(
        project_path(u32::MAX),
        "https://api.cinode.com/v0.1/companies/31/projects/4294967295"
    );
}

#[test]
fn attachment_paths() {
    assert_eq!(
        customer_attachment_path(17, "a1b2"),
        "https://api.cinode.com/v0.1/companies/31/customers/17/attachments/a1b2"
    );
    assert_eq!(
        project_attachment_path(204, "ff"),
        "https://api.cinode.com/v0.1/companies/31/projects/204/attachments/ff"
    );
    assert_eq!(
        sub_contractor_attachment_path(5, "x-9"),
        "https://api.cinode.com/v0.1/companies/31/subcontractors/5/attachments/x-9"
    );
}

#[test]
fn different_things_have_different_paths() {
    assert_ne!(customer_path(1), customer_path(10));
    assert_ne!(customer_path(12), customer_path(21));
    assert_ne!(project_path(0), project_path(100));
    assert_ne!(customer_attachment_path(1, "a"), customer_attachment_path(1, "b"));
    assert_eq!(customer_path(7), customer_path(7));
}
