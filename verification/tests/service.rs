use dashboards::{
    create_dashboard, delete_dashboard, get_dashboard, list_dashboards, update_dashboard,
    DashboardRepository, Document, Error, Fragment, Kind, PanelsField, Reply, ValidationError,
};

fn details(title: &str) -> Document {
    Document {
        id: None,
        title: title.to_string(),
        panels: PanelsField::Sequence(vec![Fragment { kind: Kind::Object, body: "{}".to_string() }]),
    }
}

#[test]
fn status_of_each_failure() {
    assert_eq!(Error::Validation(ValidationError::EmptyOrganization).status(), 400);
    assert_eq!(Error::Validation(ValidationError::EmptyTitle).status(), 400);
    assert_eq!(Error::Validation(ValidationError::MissingPanels).status(), 400);
    assert_eq!(Error::Validation(ValidationError::PanelsNotSequence).status(), 400);
    assert_eq!(Error::Validation(ValidationError::MalformedPanel { index: 3 }).status(), 400);
    assert_eq!(Error::Validation(ValidationError::MissingVersion).status(), 400);
    assert_eq!(Error::NotFound.status(), 404);
    assert_eq!(Error::AlreadyExists.status(), 409);
    assert_eq!(Error::Conflict.status(), 409);
    assert_eq!(Error::InfrastructureFailure.status(), 503);
}

#[test]
fn only_an_infrastructure_failure_is_worth_a_retry() {
    assert!(Error::InfrastructureFailure.retryable());
    assert!(!Error::Conflict.retryable());
    assert!(!Error::NotFound.retryable());
    assert!(!Error::AlreadyExists.retryable());
    assert!(!Error::Validation(ValidationError::EmptyTitle).retryable());
}

#[test]
fn create_replies_created_with_the_dashboard() {
    let mut repository = DashboardRepository::new();
    let reply = create_dashboard(&mut repository, "acme", details("Sales"), 5);
    assert_eq!(reply.status(), 201);
    assert!(reply.is_success());
    match reply {
        Reply::Created(dashboard) => {
            assert_eq!(dashboard.id, "d1");
            assert_eq!(dashboard.version, 1);
            assert_eq!(dashboard.title, "Sales");
            assert_eq!(dashboard.created_at, 5);
        }
        other => panic!("unexpected reply {:?}", other),
    }
}

#[test]
fn create_replies_bad_request_for_an_invalid_document() {
    let mut repository = DashboardRepository::new();
    let reply = create_dashboard(&mut repository, "acme", details(""), 5);
    assert_eq!(reply, Reply::Failed(Error::Validation(ValidationError::EmptyTitle)));
    assert_eq!(reply.status(), 400);
    assert!(!reply.is_success());
}

#[test]
fn create_replies_conflict_for_a_taken_identifier() {
    let mut repository = DashboardRepository::new();
    let mut first = details("One");
    first.id = Some("main".to_string());
    let mut second = details("Two");
    second.id = Some("main".to_string());
    assert_eq!(create_dashboard(&mut repository, "acme", first, 1).status(), 201);
    let reply = create_dashboard(&mut repository, "acme", second, 2);
    assert_eq!(reply, Reply::Failed(Error::AlreadyExists));
    assert_eq!(reply.status(), 409);
}

#[test]
fn update_replies_with_the_updated_dashboard() {
    let mut repository = DashboardRepository::new();
    create_dashboard(&mut repository, "acme", details("Sales"), 5);
    let reply = update_dashboard(&mut repository, "acme", "d1", &details("Sales Q1"), Some(1), 6);
    assert_eq!(reply.status(), 200);
    match reply {
        Reply::Found(dashboard) => {
            assert_eq!(dashboard.version, 2);
            assert_eq!(dashboard.title, "Sales Q1");
            assert_eq!(dashboard.updated_at, 6);
        }
        other => panic!("unexpected reply {:?}", other),
    }
}

#[test]
fn update_without_a_version_is_a_bad_request() {
    let mut repository = DashboardRepository::new();
    create_dashboard(&mut repository, "acme", details("Sales"), 5);
    let reply = update_dashboard(&mut repository, "acme", "d1", &details("Sales Q1"), None, 6);
    assert_eq!(reply, Reply::Failed(Error::Validation(ValidationError::MissingVersion)));
    assert_eq!(reply.status(), 400);
    // Also where nothing else about the request is right.
    let reply = update_dashboard(&mut repository, "acme", "nothing", &details(""), None, 6);
    assert_eq!(reply, Reply::Failed(Error::Validation(ValidationError::MissingVersion)));
    assert_eq!(repository.get("acme", "d1").unwrap().version, 1);
}

#[test]
fn update_with_a_stale_version_replies_conflict() {
    let mut repository = DashboardRepository::new();
    create_dashboard(&mut repository, "acme", details("Sales"), 5);
    update_dashboard(&mut repository, "acme", "d1", &details("Sales Q1"), Some(1), 6);
    let reply = update_dashboard(&mut repository, "acme", "d1", &details("Sales Q2"), Some(1), 7);
    assert_eq!(reply, Reply::Failed(Error::Conflict));
    assert_eq!(reply.status(), 409);
    assert_eq!(repository.get("acme", "d1").unwrap().title, "Sales Q1");
}

#[test]
fn update_of_a_missing_dashboard_replies_not_found() {
    let mut repository = DashboardRepository::new();
    let reply = update_dashboard(&mut repository, "acme", "d1", &details("Sales"), Some(1), 6);
    assert_eq!(reply, Reply::Failed(Error::NotFound));
    assert_eq!(reply.status(), 404);
}

#[test]
fn get_replies_found_or_not_found() {
    let mut repository = DashboardRepository::new();
    create_dashboard(&mut repository, "acme", details("Sales"), 5);
    let reply = get_dashboard(&repository, "acme", "d1");
    assert_eq!(reply.status(), 200);
    assert!(matches!(reply, Reply::Found(ref dashboard) if dashboard.title == "Sales"));
    let reply = get_dashboard(&repository, "globex", "d1");
    assert_eq!(reply, Reply::Failed(Error::NotFound));
    assert_eq!(reply.status(), 404);
}

#[test]
fn list_replies_with_the_organization_only() {
    let mut repository = DashboardRepository::new();
    create_dashboard(&mut repository, "acme", details("A1"), 1);
    create_dashboard(&mut repository, "globex", details("G1"), 2);
    create_dashboard(&mut repository, "acme", details("A2"), 3);
    let reply = list_dashboards(&repository, "acme");
    assert_eq!(reply.status(), 200);
    match reply {
        Reply::Listing(found) => {
            let titles: Vec<String> = found.into_iter().map(|d| d.title).collect();
            assert_eq!(titles, vec!["A1", "A2"]);
        }
        other => panic!("unexpected reply {:?}", other),
    }
    assert_eq!(list_dashboards(&repository, "nobody"), Reply::Listing(Vec::new()));
}

#[test]
fn delete_replies_deleted_then_not_found() {
    let mut repository = DashboardRepository::new();
    create_dashboard(&mut repository, "acme", details("Sales"), 5);
    let reply = delete_dashboard(&mut repository, "acme", "d1");
    assert_eq!(reply, Reply::Deleted);
    assert_eq!(reply.status(), 200);
    let reply = delete_dashboard(&mut repository, "acme", "d1");
    assert_eq!(reply, Reply::Failed(Error::NotFound));
    assert_eq!(get_dashboard(&repository, "acme", "d1"), Reply::Failed(Error::NotFound));
}
