use task_cache::client;
use task_cache::error::ErrorKind;

const UUID_A: &str = "3c7815fb-14de-4bb9-9f01-7b02f3de5e19";
const UUID_B: &str = "9f0e8a35-22c1-4ab1-8f0e-111111111111";

#[test]
fn extract_uuid_from_feedback() {
    let feedback = format!("Created task 1.\nNew uuid: {}\n", UUID_A);
    let got = client::extract_uuid(&feedback).unwrap();
    assert_eq!(got, UUID_A);
}

#[test]
fn extract_uuid_takes_first_match() {
    let feedback = format!("{} then {}", UUID_B, UUID_A);
    let got = client::extract_uuid(&feedback).unwrap();
    assert_eq!(got, UUID_B);
}

#[test]
fn extract_uuid_missing_is_not_found() {
    let err = client::extract_uuid("Created task 1.").unwrap_err();
    assert_eq!(err.kind, ErrorKind::NotFoundError);
}

#[test]
fn extract_uuid_rejects_uppercase_match_text() {
    let feedback = "3C7815FB-14DE-4BB9-9F01-7B02F3DE5E19";
    let err = client::extract_uuid(feedback).unwrap_err();
    assert_eq!(err.kind, ErrorKind::NotFoundError);
}

#[test]
fn parse_uuid_list_empty_output_is_empty() {
    assert_eq!(client::parse_uuid_list("").unwrap(), Vec::<String>::new());
}

#[test]
fn parse_uuid_list_blank_output_is_empty() {
    assert_eq!(client::parse_uuid_list(" \n\t ").unwrap(), Vec::<String>::new());
}

#[test]
fn parse_uuid_list_keeps_order() {
    let out = format!("{}\n{}\n", UUID_A, UUID_B);
    let ids = client::parse_uuid_list(&out).unwrap();
    assert_eq!(ids, vec![UUID_A.to_string(), UUID_B.to_string()]);
}

#[test]
fn parse_uuid_list_rejects_malformed_token() {
    let out = format!("{} not-a-uuid", UUID_A);
    let err = client::parse_uuid_list(&out).unwrap_err();
    assert_eq!(err.kind, ErrorKind::DecodeError);
}

#[test]
fn parse_uuid_list_accepts_uppercase_hex() {
    let upper = "3C7815FB-14DE-4BB9-9F01-7B02F3DE5E19";
    let ids = client::parse_uuid_list(upper).unwrap();
    assert_eq!(ids, vec![upper.to_string()]);
}

#[test]
fn is_uuid_token_checks_shape() {
    assert!(client::is_uuid_token(UUID_A));
    assert!(client::is_uuid_token("3C7815FB-14DE-4BB9-9F01-7B02F3DE5E19"));
    assert!(!client::is_uuid_token("3c7815fb-14de-4bb9-9f01"));
    assert!(!client::is_uuid_token("3c7815fb014de-4bb9-9f01-7b02f3de5e19"));
    assert!(!client::is_uuid_token("zc7815fb-14de-4bb9-9f01-7b02f3de5e19"));
}

#[test]
fn create_invocation_without_parent() {
    let inv = client::create("Buy milk", None);
    assert_eq!(inv.args, vec!["add", "rc.verbose=new-uuid", "Buy milk"]);
    assert!(inv.log.is_none());
}

#[test]
fn create_invocation_with_parent() {
    let inv = client::create("Buy milk", Some(UUID_A));
    assert_eq!(
        inv.args,
        vec![
            "add".to_string(),
            "rc.verbose=new-uuid".to_string(),
            "Buy milk".to_string(),
            format!("partof:{}", UUID_A),
        ]
    );
}

#[test]
fn export_invocations() {
    assert_eq!(client::export_all().args, vec!["export"]);
    assert_eq!(
        client::export_one(UUID_A).args,
        vec!["export".to_string(), format!("uuid:{}", UUID_A)]
    );
}

#[test]
fn get_tasks_invocation() {
    let inv = client::get_tasks("project:home");
    assert_eq!(inv.args, vec!["_uuid", "project:home"]);
}

#[test]
fn project_invocation_sets_and_logs() {
    let inv = client::project(UUID_A, Some("home.kitchen"));
    assert_eq!(
        inv.args,
        vec![format!("uuid:{}", UUID_A), "mod".to_string(), "project:home.kitchen".to_string()]
    );
    assert_eq!(inv.log.unwrap(), format!("Setting {}: project:home.kitchen", UUID_A));
}

#[test]
fn project_invocation_clears_with_empty_value() {
    let inv = client::project(UUID_A, None);
    assert_eq!(inv.args[2], "project:");
    assert_eq!(inv.log.unwrap(), format!("Setting {}: project:", UUID_A));
}

#[test]
fn done_invocation() {
    let inv = client::done(UUID_A);
    assert_eq!(inv.args, vec![format!("uuid:{}", UUID_A), "done".to_string()]);
    assert_eq!(inv.log.unwrap(), format!("Setting {}: done", UUID_A));
}

#[test]
fn delete_invocation_disables_confirmation() {
    let inv = client::delete(UUID_A);
    assert_eq!(
        inv.args,
        vec![format!("uuid:{}", UUID_A), "delete".to_string(), "rc.confirmation:0".to_string()]
    );
    assert_eq!(inv.log.unwrap(), format!("Setting {}: deleted", UUID_A));
}

#[test]
fn pending_invocation() {
    let inv = client::pending(UUID_A);
    assert_eq!(
        inv.args,
        vec![format!("uuid:{}", UUID_A), "mod".to_string(), "status:pending".to_string()]
    );
    assert_eq!(inv.log.unwrap(), format!("Setting {}: pending", UUID_A));
}

#[test]
fn partof_invocation_sets_and_clears() {
    let set = client::partof(UUID_A, Some(UUID_B));
    assert_eq!(set.args[2], format!("partof:{}", UUID_B));
    assert_eq!(set.log.unwrap(), format!("Setting {}: partof:{}", UUID_A, UUID_B));
    let clear = client::partof(UUID_A, None);
    assert_eq!(clear.args[2], "partof:");
    assert_eq!(clear.log.unwrap(), format!("Setting {}: partof:", UUID_A));
}

#[test]
fn set_description_invocation_quotes_text() {
    let inv = client::set_description(UUID_A, "Buy milk");
    assert_eq!(inv.args[2], "description:\"Buy milk\"");
    assert_eq!(inv.log.unwrap(), format!("Setting {}: description:\"Buy milk\"", UUID_A));
}

#[test]
fn tag_invocations() {
    let add = client::add_tag(UUID_A, "urgent");
    assert_eq!(add.args, vec![format!("uuid:{}", UUID_A), "mod".to_string(), "+urgent".to_string()]);
    assert_eq!(add.log.unwrap(), format!("Setting {}: +urgent", UUID_A));
    let rm = client::remove_tag(UUID_A, "urgent");
    assert_eq!(rm.args[2], "-urgent");
    assert_eq!(rm.log.unwrap(), format!("Setting {}: -urgent", UUID_A));
}
