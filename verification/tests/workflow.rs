use rust_lambda_s3_tagging_sqs::generate_tags::GetObjectTaggingOutput;
use rust_lambda_s3_tagging_sqs::generate_tags::Tag;
use rust_lambda_s3_tagging_sqs::generate_tags::Tagging;
use rust_lambda_s3_tagging_sqs::validation::S3Entity;
use rust_lambda_s3_tagging_sqs::workflow::ObjectLocation;
use rust_lambda_s3_tagging_sqs::workflow::Workflow;
use rust_lambda_s3_tagging_sqs::workflow::WorkflowAction;
use rust_lambda_s3_tagging_sqs::workflow::WorkflowConfig;
use rust_lambda_s3_tagging_sqs::workflow::WorkflowEvent;
use rust_lambda_s3_tagging_sqs::workflow::add_tag_error;
use rust_lambda_s3_tagging_sqs::workflow::get_tags_error;
use rust_lambda_s3_tagging_sqs::workflow::object_location;
use rust_lambda_s3_tagging_sqs::workflow::single_tag_error;

fn event_entity(key: Option<&str>, size: Option<i64>, version: Option<&str>) -> S3Entity {
    S3Entity {
        bucket_name: Some("inspection-bucket".to_string()),
        key: key.map(|k| k.to_string()),
        size,
        version_id: version.map(|v| v.to_string()),
    }
}

fn config() -> WorkflowConfig {
    WorkflowConfig {
        success_queue_url: "https://queue/success".to_string(),
        failure_queue_url: "https://queue/failure".to_string(),
    }
}

fn write_tag_pairs(action: &WorkflowAction) -> Vec<(String, String)> {
    match action {
        WorkflowAction::WriteTags(req) => match &req.tagging {
            Tagging { tag_set: Some(tags) } => {
                tags.iter().map(|t| (t.key.clone(), t.value.clone())).collect()
            }
            Tagging { tag_set: None } => Vec::new(),
        },
        _ => panic!("expected a tag write"),
    }
}

#[test]
fn test_workflow_valid_file_end_to_end() {
    let entity = event_entity(Some("1234-0001-0002-0003.txt"), Some(10), Some("v1"));
    let wf = Workflow::new(entity, "req-1".to_string(), config());

    let (wf, action) = wf.step(WorkflowEvent::Proceed).expect("mark in progress");
    assert_eq!(
        write_tag_pairs(&action),
        vec![("validating".to_string(), "true".to_string())]
    );

    let (wf, action) = wf.step(WorkflowEvent::Proceed).expect("mark validated");
    assert_eq!(
        write_tag_pairs(&action),
        vec![("validated".to_string(), "true".to_string())]
    );

    let (wf, action) = wf.step(WorkflowEvent::Proceed).expect("read current tags");
    match &action {
        WorkflowAction::ReadTags(req) => {
            assert_eq!(req.location.bucket, "inspection-bucket");
            assert_eq!(req.location.key, "1234-0001-0002-0003.txt");
            assert_eq!(req.location.version_id, "v1");
        }
        _ => panic!("expected a tag read"),
    }

    let current = GetObjectTaggingOutput {
        tag_set: Some(vec![Tag {
            key: "validated".to_string(),
            value: "true".to_string(),
        }]),
    };
    let (wf, action) = wf
        .step(WorkflowEvent::TagsFetched(current))
        .expect("append outcome tag");
    assert_eq!(
        write_tag_pairs(&action),
        vec![
            ("validated".to_string(), "true".to_string()),
            ("valid".to_string(), "true".to_string()),
        ]
    );

    let (wf, action) = wf.step(WorkflowEvent::Proceed).expect("send notification");
    match &action {
        WorkflowAction::SendMessage(req) => {
            assert_eq!(req.queue_url, "https://queue/success");
            assert_eq!(req.message_group_id, "ValidationGroup");
            assert_eq!(req.body.workflow, "Validation_Workflow");
            assert_eq!(req.body.exc_id, "req-1");
            assert_eq!(req.body.categories, vec!["CD-TECH", "AM-DEVS"]);
            assert_eq!(req.body.message, "File is valid");
            assert_eq!(req.body.continue_url, None);
            assert_eq!(req.body.abort_url, None);
        }
        _ => panic!("expected a message send"),
    }

    let (_, action) = wf.step(WorkflowEvent::Proceed).expect("complete");
    match &action {
        WorkflowAction::Complete(resp) => {
            assert_eq!(resp.req_id, "req-1");
            assert_eq!(resp.message, "File is valid");
        }
        _ => panic!("expected completion"),
    }
}

#[test]
fn test_workflow_invalid_file_end_to_end() {
    let entity = event_entity(Some("bad.csv"), Some(0), Some("v7"));
    let wf = Workflow::new(entity, "req-2".to_string(), config());

    let (wf, action) = wf.step(WorkflowEvent::Proceed).expect("mark in progress");
    assert_eq!(
        write_tag_pairs(&action),
        vec![("validating".to_string(), "true".to_string())]
    );

    let (wf, action) = wf.step(WorkflowEvent::Proceed).expect("mark validated");
    assert_eq!(
        write_tag_pairs(&action),
        vec![("validated".to_string(), "true".to_string())]
    );

    let (wf, _) = wf.step(WorkflowEvent::Proceed).expect("read current tags");

    let current = GetObjectTaggingOutput {
        tag_set: Some(vec![Tag {
            key: "validated".to_string(),
            value: "true".to_string(),
        }]),
    };
    let (wf, action) = wf
        .step(WorkflowEvent::TagsFetched(current))
        .expect("append quarantine tag");
    assert_eq!(
        write_tag_pairs(&action),
        vec![
            ("validated".to_string(), "true".to_string()),
            ("quarantine".to_string(), "true".to_string()),
        ]
    );

    let (wf, action) = wf.step(WorkflowEvent::Proceed).expect("send notification");
    match &action {
        WorkflowAction::SendMessage(req) => {
            assert_eq!(req.queue_url, "https://queue/failure");
            assert_eq!(req.message_group_id, "ValidationGroup");
            assert!(req.body.message.contains("Invalid file extension, should be .txt"));
            assert!(req.body.message.contains("Invalid size, it should be greater than 0"));
            assert!(req.body.message.contains(", "));
            assert_eq!(
                req.body.continue_url,
                Some("https://example.com/continue".to_string())
            );
            assert_eq!(req.body.abort_url, Some("https://example.com/abort".to_string()));
        }
        _ => panic!("expected a message send"),
    }

    let (_, action) = wf.step(WorkflowEvent::Proceed).expect("complete");
    match &action {
        WorkflowAction::Complete(resp) => {
            assert_eq!(resp.req_id, "req-2");
            assert!(resp.message.contains("Invalid size, it should be greater than 0"));
        }
        _ => panic!("expected completion"),
    }
}

#[test]
fn test_workflow_missing_version_aborts_before_any_call() {
    let entity = event_entity(Some("1-2-3-4.txt"), Some(10), None);
    let wf = Workflow::new(entity, "req-3".to_string(), config());
    let err = wf.step(WorkflowEvent::Proceed).expect_err("must abort");
    assert_eq!(
        err,
        "Object has no version ID defined, is versioning enabled in the bucket?"
    );
}

#[test]
fn test_workflow_missing_bucket_aborts() {
    let entity = S3Entity {
        bucket_name: None,
        key: Some("1-2-3-4.txt".to_string()),
        size: Some(10),
        version_id: Some("v1".to_string()),
    };
    let wf = Workflow::new(entity, "req-4".to_string(), config());
    let err = wf.step(WorkflowEvent::Proceed).expect_err("must abort");
    assert_eq!(err, "Missing bucket name");
}

#[test]
fn test_workflow_refuses_event_outside_the_stage() {
    let entity = event_entity(Some("1-2-3-4.txt"), Some(10), Some("v1"));
    let wf = Workflow::new(entity, "req-5".to_string(), config());
    let current = GetObjectTaggingOutput { tag_set: None };
    let err = wf
        .step(WorkflowEvent::TagsFetched(current))
        .expect_err("a fetched collection is not expected before the read");
    assert_eq!(err, "Workflow event does not match the current stage");
}

#[test]
fn test_object_location_decodes_plus_to_space() {
    let entity = event_entity(Some("report+final+1-2-3-4.txt"), Some(10), Some("v1"));
    let loc = object_location(&entity).expect("all fields present");
    assert_eq!(loc.bucket, "inspection-bucket");
    assert_eq!(loc.key, "report final 1-2-3-4.txt");
    assert_eq!(loc.version_id, "v1");
}

#[test]
fn test_object_location_reports_missing_key() {
    let entity = event_entity(None, Some(10), Some("v1"));
    let err = object_location(&entity).expect_err("key is absent");
    assert_eq!(err, "Missing object key");
}

#[test]
fn test_remote_failure_descriptions() {
    let loc = ObjectLocation {
        bucket: "inspection-bucket".to_string(),
        key: "a b.txt".to_string(),
        version_id: "v9".to_string(),
    };
    assert_eq!(
        single_tag_error("boom", "validating", &loc),
        "Original Error: boom Caused: Could not add tag validating \
         to Object s3://inspection-bucket/a b.txt versionId: v9"
    );
    assert_eq!(
        get_tags_error("boom", &loc),
        "Original Error: boom; Could not get tags from to Object \
         s3://inspection-bucket/a b.txt versionId: v9"
    );
    assert_eq!(
        add_tag_error("boom", "valid", &loc),
        "Original Error: boom; Could not add tag valid to Object \
         s3://inspection-bucket/a b.txt versionId: v9"
    );
}
