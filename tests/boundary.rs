use talent_server::boundary::{
    decimal_string, job_label, signed_decimal_string, new_reorder_event, reorder_response, talent_ids_to_resolve, validate_reorder_request,
};
use talent_server::models::{application_response, Application, CreateReorderEventRequest, Job};

fn id_list(list: &[&str]) -> Vec<String> {
    list.iter().map(|s| s.to_string()).collect()
}

fn request(before: &[&str], after: &[&str], moved: Option<&str>) -> CreateReorderEventRequest {
    CreateReorderEventRequest {
        job_id: "job1".to_string(),
        before_order: id_list(before),
        after_order: id_list(after),
        moved_talent_id: moved.map(|m| m.to_string()),
    }
}

fn job(title: &str, company: &str) -> Job {
    Job {
        id: "job1".to_string(),
        title: title.to_string(),
        description: "Builds things".to_string(),
        company_name: company.to_string(),
        company_logo: None,
        location: None,
        location_type: "remote".to_string(),
        employment_type: "full-time".to_string(),
        salary_min: None,
        salary_max: None,
        salary_currency: None,
        skills_required: "rust".to_string(),
        experience_level: "senior".to_string(),
        status: "active".to_string(),
        created_at: "2024-01-01T00:00:00+00:00".to_string(),
        expires_at: None,
    }
}

#[test]
fn request_with_mismatched_lengths_is_rejected() {
    let err = validate_reorder_request(&request(&["t1", "t2"], &["t1"], None)).unwrap_err();
    assert_eq!(err.code, 400);
    assert_eq!(err.message, "Before and after order lengths must match");
}

#[test]
fn request_with_empty_orders_is_rejected() {
    let err = validate_reorder_request(&request(&[], &[], None)).unwrap_err();
    assert_eq!(err.code, 400);
    assert_eq!(err.message, "Order arrays cannot be empty");
}

#[test]
fn request_with_one_empty_order_is_a_length_mismatch() {
    let err = validate_reorder_request(&request(&[], &["t1"], None)).unwrap_err();
    assert_eq!(err.message, "Before and after order lengths must match");
}

#[test]
fn well_formed_request_is_accepted() {
    assert!(validate_reorder_request(&request(&["t1", "t2"], &["t2", "t1"], Some("t2"))).is_ok());
}

#[test]
fn job_label_joins_title_and_company() {
    assert_eq!(job_label(&job("Software Engineer", "Acme")), "Software Engineer at Acme");
    assert_eq!(job_label(&job("", "")), " at ");
}

#[test]
fn ids_to_resolve_are_distinct_in_first_seen_order() {
    let got = talent_ids_to_resolve(&id_list(&["t1", "t2", "t1"]), &id_list(&["t3", "t2", "t4"]));
    assert_eq!(got, id_list(&["t1", "t2", "t3", "t4"]));
    assert!(talent_ids_to_resolve(&id_list(&[]), &id_list(&[])).is_empty());
}

#[test]
fn reorder_event_keeps_orders_as_json() {
    let req = request(&["t1", "t2"], &["t2", "t1"], Some("t2"));
    let event = new_reorder_event(&req);
    assert_eq!(event.before_order, "[\"t1\",\"t2\"]");
    assert_eq!(event.after_order, "[\"t2\",\"t1\"]");
    assert_eq!(event.job_id, "job1");
    assert_eq!(event.moved_talent_id, Some("t2".to_string()));
    assert_eq!(event.id.len(), 36);
    assert!(!event.event_timestamp.is_empty());
    assert!(!event.created_at.is_empty());
}

#[test]
fn reorder_event_escapes_ids() {
    let req = request(&["a\"b"], &["a\"b"], None);
    let event = new_reorder_event(&req);
    assert_eq!(event.before_order, "[\"a\\\"b\"]");
    assert_eq!(event.moved_talent_id, None);
}

#[test]
fn response_message_counts_new_judgments() {
    let r = reorder_response("ev1".to_string(), 3);
    assert_eq!(r.event_id, "ev1");
    assert_eq!(r.preferences_created, 3);
    assert_eq!(r.message, "Reorder event saved with 3 preferences created");
    let r = reorder_response("ev2".to_string(), 0);
    assert_eq!(r.message, "Reorder event saved with 0 preferences created");
    let r = reorder_response("ev3".to_string(), i32::MAX);
    assert_eq!(r.message, "Reorder event saved with 2147483647 preferences created");
}

#[test]
fn decimal_string_writes_digits() {
    assert_eq!(decimal_string(0), "0");
    assert_eq!(decimal_string(9), "9");
    assert_eq!(decimal_string(10), "10");
    assert_eq!(decimal_string(1205), "1205");
    assert_eq!(decimal_string(u32::MAX), "4294967295");
}

#[test]
fn application_response_reports_resume_presence() {
    let app = Application {
        id: "a1".to_string(),
        talent_id: "t1".to_string(),
        job_id: "job1".to_string(),
        resume_data: Some("cmVzdW1l".to_string()),
        resume_filename: Some("cv.pdf".to_string()),
        resume_content_type: Some("application/pdf".to_string()),
        cover_letter: None,
        status: "pending".to_string(),
        created_at: "2024-01-01T00:00:00+00:00".to_string(),
    };
    let r = application_response(app);
    assert!(r.has_resume);
    assert_eq!(r.id, "a1");
    assert_eq!(r.resume_filename, Some("cv.pdf".to_string()));
    assert_eq!(r.status, "pending");

    let bare = Application {
        id: "a2".to_string(),
        talent_id: "t2".to_string(),
        job_id: "job1".to_string(),
        resume_data: None,
        resume_filename: None,
        resume_content_type: None,
        cover_letter: Some("Hello".to_string()),
        status: "reviewed".to_string(),
        created_at: "2024-01-02T00:00:00+00:00".to_string(),
    };
    let r = application_response(bare);
    assert!(!r.has_resume);
    assert_eq!(r.cover_letter, Some("Hello".to_string()));
}

#[test]
fn signed_decimal_string_writes_sign() {
    assert_eq!(signed_decimal_string(0), "0");
    assert_eq!(signed_decimal_string(42), "42");
    assert_eq!(signed_decimal_string(-7), "-7");
    assert_eq!(signed_decimal_string(i32::MIN), "-2147483648");
    assert_eq!(signed_decimal_string(i32::MAX), "2147483647");
}
