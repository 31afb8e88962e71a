//! The per-object workflow: mark in progress, validate, mark the result,
//! notify. Every remote interaction is produced as a request value and an
//! outside driver performs it, feeding the outcome back in; the decisions
//! in between are all here.

use vstd::prelude::*;

use crate::generate_tags::GenerateTags;
use crate::generate_tags::GetObjectTaggingOutput;
use crate::generate_tags::Tagging;
use crate::generate_tags::bool_str;
use crate::generate_tags::tag_model;
use crate::generate_tags::upsert_tags;
use crate::validation::S3Entity;
use crate::validation::S3EntityView;
use crate::validation::is_valid_file;
use crate::validation::spec_file_valid;
use crate::validation::spec_validation_message;

verus! {

/// The identity of the remote object a store call addresses: bucket,
/// decoded key and version.
#[derive(Debug)]
pub struct ObjectLocation {
    pub bucket: String,
    pub key: String,
    pub version_id: String,
}

/// The mathematical value of an [`ObjectLocation`].
#[verifier::ext_equal]
pub ghost struct ObjectLocationView {
    pub bucket: Seq<char>,
    pub key: Seq<char>,
    pub version_id: Seq<char>,
}

impl View for ObjectLocation {
    type V = ObjectLocationView;

    open spec fn view(&self) -> ObjectLocationView {
        ObjectLocationView {
            bucket: self.bucket@,
            key: self.key@,
            version_id: self.version_id@,
        }
    }
}

/// The object key with the transport encoding undone: every literal `+`
/// decoded to a space.
pub open spec fn spec_decode_plus(s: Seq<char>) -> Seq<char> {
    s.map_values(
        |c: char|
            if c == '+' {
                ' '
            } else {
                c
            },
    )
}

/// The error of extracting a location from the event metadata, or `None`
/// when all three fields are present: absence of any is a hard error.
pub open spec fn spec_location_error(e: S3EntityView) -> Option<Seq<char>> {
    if e.bucket_name is None {
        Some("Missing bucket name"@)
    } else if e.key is None {
        Some("Missing object key"@)
    } else if e.version_id is None {
        Some("Object has no version ID defined, is versioning enabled in the bucket?"@)
    } else {
        None
    }
}

/// Whether `loc` is the location the event metadata describes: same
/// bucket and version, and the key decoded.
pub open spec fn location_of(loc: ObjectLocationView, e: S3EntityView) -> bool {
    &&& Some(loc.bucket) == e.bucket_name
    &&& (match e.key {
        Some(k) => loc.key == spec_decode_plus(k),
        None => false,
    })
    &&& Some(loc.version_id) == e.version_id
}

/// Relies on String::push: appends a single character at the end.
#[verifier::external_body]
fn push_char(s: &mut String, c: char)
    ensures
        final(s)@ == old(s)@.push(c),
{
    s.push(c)
}

/// The key with every literal `+` decoded to a space.
fn decode_plus(s: &str) -> (r: String)
    ensures
        r@ == spec_decode_plus(s@),
{
    let n = s.unicode_len();
    let mut out = String::new();
    let mut i: usize = 0;
    while i < n
        invariant
            i <= n,
            n == s@.len(),
            out@ == spec_decode_plus(s@.subrange(0, i as int)),
        decreases n - i,
    {
        let c = s.get_char(i);
        if c == '+' {
            push_char(&mut out, ' ');
        } else {
            push_char(&mut out, c);
        }
        proof {
            assert(spec_decode_plus(s@.subrange(0, i + 1)) =~= spec_decode_plus(
                s@.subrange(0, i as int),
            ).push(
                if s@[i as int] == '+' {
                    ' '
                } else {
                    s@[i as int]
                },
            ));
        }
        i += 1;
    }
    proof {
        assert(s@.subrange(0, n as int) =~= s@);
    }
    out
}

/// The location of the event's object. Absence of bucket, key or version
/// is reported with the field's own message, first absent field first.
pub fn object_location(e: &S3Entity) -> (r: Result<ObjectLocation, String>)
    ensures
        (match r {
            Ok(loc) => spec_location_error(e@) is None && location_of(loc@, e@),
            Err(m) => spec_location_error(e@) == Some(m@),
        }),
{
    let bucket = match &e.bucket_name {
        Some(b) => b.clone(),
        None => {
            return Err(String::from_str("Missing bucket name"));
        },
    };
    let key = match &e.key {
        Some(k) => decode_plus(k.as_str()),
        None => {
            return Err(String::from_str("Missing object key"));
        },
    };
    let version_id = match &e.version_id {
        Some(v) => v.clone(),
        None => {
            return Err(
                String::from_str(
                    "Object has no version ID defined, is versioning enabled in the bucket?",
                ),
            );
        },
    };
    Ok(ObjectLocation { bucket, key, version_id })
}

/// A pending write of a whole tag collection to the object store.
#[derive(Debug)]
pub struct TagWriteRequest {
    pub location: ObjectLocation,
    pub tagging: Tagging,
}

/// A pending read of the object's current tag collection.
#[derive(Debug)]
pub struct TagReadRequest {
    pub location: ObjectLocation,
}

/// The request that stamps the object with the single tag
/// `{tag_name, "true"}`, discarding any prior tag state.
pub fn single_tag_request(e: &S3Entity, tag_name: &str) -> (r: Result<TagWriteRequest, String>)
    ensures
        (match r {
            Ok(req) => spec_location_error(e@) is None && location_of(req.location@, e@)
                && req.tagging@ == Some(seq![tag_model(tag_name@, bool_str(true))]),
            Err(m) => spec_location_error(e@) == Some(m@),
        }),
{
    let location = match object_location(e) {
        Ok(l) => l,
        Err(m) => {
            return Err(m);
        },
    };
    Ok(TagWriteRequest { location, tagging: Tagging::tag_as_true(tag_name) })
}

/// The request that reads the object's current tag collection.
pub fn get_tags_request(e: &S3Entity) -> (r: Result<TagReadRequest, String>)
    ensures
        (match r {
            Ok(req) => spec_location_error(e@) is None && location_of(req.location@, e@),
            Err(m) => spec_location_error(e@) == Some(m@),
        }),
{
    let location = match object_location(e) {
        Ok(l) => l,
        Err(m) => {
            return Err(m);
        },
    };
    Ok(TagReadRequest { location })
}

/// The request that writes back the fetched collection with the tag
/// `{tag_name, "true"}` appended by name, preserving every other tag.
pub fn add_tag_request(e: &S3Entity, current: &GetObjectTaggingOutput, tag_name: &str) -> (r:
    Result<TagWriteRequest, String>)
    ensures
        (match r {
            Ok(req) => spec_location_error(e@) is None && location_of(req.location@, e@)
                && req.tagging@ == Some(upsert_tags(current@, tag_name@, true)),
            Err(m) => spec_location_error(e@) == Some(m@),
        }),
{
    let location = match object_location(e) {
        Ok(l) => l,
        Err(m) => {
            return Err(m);
        },
    };
    Ok(TagWriteRequest { location, tagging: current.add_true_tag(tag_name) })
}

/// The message of a failed single-tag write, wrapping the remote cause
/// with the tag and object it concerned.
pub open spec fn spec_single_tag_error(
    original: Seq<char>,
    tag_name: Seq<char>,
    loc: ObjectLocationView,
) -> Seq<char> {
    "Original Error: "@ + original + " Caused: Could not add tag "@ + tag_name
        + " to Object s3://"@ + loc.bucket + "/"@ + loc.key + " versionId: "@ + loc.version_id
}

/// The message of a failed tag read, wrapping the remote cause with the
/// object it concerned.
pub open spec fn spec_get_tags_error(original: Seq<char>, loc: ObjectLocationView) -> Seq<char> {
    "Original Error: "@ + original + "; Could not get tags from to Object s3://"@ + loc.bucket
        + "/"@ + loc.key + " versionId: "@ + loc.version_id
}

/// The message of a failed merged-tag write, wrapping the remote cause
/// with the tag and object it concerned.
pub open spec fn spec_add_tag_error(
    original: Seq<char>,
    tag_name: Seq<char>,
    loc: ObjectLocationView,
) -> Seq<char> {
    "Original Error: "@ + original + "; Could not add tag "@ + tag_name + " to Object s3://"@
        + loc.bucket + "/"@ + loc.key + " versionId: "@ + loc.version_id
}

/// The failure description of a single-tag write.
pub fn single_tag_error(original: &str, tag_name: &str, loc: &ObjectLocation) -> (r: String)
    ensures
        r@ == spec_single_tag_error(original@, tag_name@, loc@),
{
    let mut out = String::from_str("Original Error: ");
    out.append(original);
    out.append(" Caused: Could not add tag ");
    out.append(tag_name);
    out.append(" to Object s3://");
    out.append(loc.bucket.as_str());
    out.append("/");
    out.append(loc.key.as_str());
    out.append(" versionId: ");
    out.append(loc.version_id.as_str());
    out
}

/// The failure description of a tag read.
pub fn get_tags_error(original: &str, loc: &ObjectLocation) -> (r: String)
    ensures
        r@ == spec_get_tags_error(original@, loc@),
{
    let mut out = String::from_str("Original Error: ");
    out.append(original);
    out.append("; Could not get tags from to Object s3://");
    out.append(loc.bucket.as_str());
    out.append("/");
    out.append(loc.key.as_str());
    out.append(" versionId: ");
    out.append(loc.version_id.as_str());
    out
}

/// The failure description of a merged-tag write.
pub fn add_tag_error(original: &str, tag_name: &str, loc: &ObjectLocation) -> (r: String)
    ensures
        r@ == spec_add_tag_error(original@, tag_name@, loc@),
{
    let mut out = String::from_str("Original Error: ");
    out.append(original);
    out.append("; Could not add tag ");
    out.append(tag_name);
    out.append(" to Object s3://");
    out.append(loc.bucket.as_str());
    out.append("/");
    out.append(loc.key.as_str());
    out.append(" versionId: ");
    out.append(loc.version_id.as_str());
    out
}

/// The two delivery destinations: the channel for objects found valid and
/// the channel for quarantined ones.
#[derive(Debug)]
pub struct WorkflowConfig {
    pub success_queue_url: String,
    pub failure_queue_url: String,
}

/// The structured outcome notification, produced once per event and sent
/// to exactly one channel.
#[derive(Debug)]
pub struct ValidationMessageBody {
    pub workflow: String,
    pub exc_id: String,
    pub categories: Vec<String>,
    pub message: String,
    pub continue_url: Option<String>,
    pub abort_url: Option<String>,
}

/// What the workflow returns to its caller when it completes: the
/// originating request id and the validation message text.
#[derive(Debug)]
pub struct Response {
    pub req_id: String,
    pub message: String,
}

/// A pending delivery of the outcome notification to one channel.
#[derive(Debug)]
pub struct SendMessageRequest {
    pub queue_url: String,
    pub body: ValidationMessageBody,
    pub message_group_id: String,
}

/// Whether `body` is the outcome notification that belongs to this
/// execution id, validation text and validity flag: the workflow and
/// category fields are constant, and the continuation and abort hints
/// are present only on the invalid branch.
pub open spec fn spec_message_body(
    exc_id: Seq<char>,
    message: Seq<char>,
    valid: bool,
    body: ValidationMessageBody,
) -> bool {
    &&& body.workflow@ == "Validation_Workflow"@
    &&& body.exc_id@ == exc_id
    &&& body.categories@.len() == 2
    &&& body.categories@[0]@ == "CD-TECH"@
    &&& body.categories@[1]@ == "AM-DEVS"@
    &&& body.message@ == message
    &&& (if valid {
        body.continue_url is None && body.abort_url is None
    } else {
        (match body.continue_url {
            Some(u) => u@ == "https://example.com/continue"@,
            None => false,
        }) && (match body.abort_url {
            Some(u) => u@ == "https://example.com/abort"@,
            None => false,
        })
    })
}

/// Where the workflow of one event stands. The stages are strictly
/// ordered; there is no branching back.
#[derive(Debug)]
pub enum WorkflowStage {
    /// The event has been accepted; nothing has been stamped yet.
    Received,
    /// The in-progress marker write has been issued.
    InProgress,
    /// The validation outcome is in hand and the finished marker write has been
    /// issued.
    Validated { valid: bool, message: String },
    /// The read of the current tag collection has been issued.
    Merging { valid: bool, message: String },
    /// The merged write carrying the outcome marker has been issued.
    Outcome { valid: bool, message: String },
    /// The outcome notification has been issued.
    Notified { message: String },
    /// The workflow has returned its response.
    Done,
}

/// What the outside driver reports back: a plain acknowledgement of the
/// last request, or the tag collection a read returned.
#[derive(Debug)]
pub enum WorkflowEvent {
    Proceed,
    TagsFetched(GetObjectTaggingOutput),
}

/// The next remote interaction the driver must perform, or the final
/// response.
#[derive(Debug)]
pub enum WorkflowAction {
    WriteTags(TagWriteRequest),
    ReadTags(TagReadRequest),
    SendMessage(SendMessageRequest),
    Complete(Response),
}

/// The workflow of one event: the event's object metadata, the
/// originating request id, the two destinations, and the current stage.
#[derive(Debug)]
pub struct Workflow {
    pub entity: S3Entity,
    pub request_id: String,
    pub config: WorkflowConfig,
    pub stage: WorkflowStage,
}

/// Whether the successor workflow `w2` and the action `action` are what
/// one step from `w` on `event` must produce. For a pair of stage and
/// event outside the machine this is false: such a step fails.
pub open spec fn spec_step_ok(
    w: Workflow,
    event: WorkflowEvent,
    w2: Workflow,
    action: WorkflowAction,
) -> bool {
    &&& w2.entity@ == w.entity@
    &&& w2.request_id@ == w.request_id@
    &&& w2.config.success_queue_url@ == w.config.success_queue_url@
    &&& w2.config.failure_queue_url@ == w.config.failure_queue_url@
    &&& (match (w.stage, event) {
        (WorkflowStage::Received, WorkflowEvent::Proceed) => {
            &&& spec_location_error(w.entity@) is None
            &&& w2.stage is InProgress
            &&& (match action {
                WorkflowAction::WriteTags(req) => location_of(req.location@, w.entity@)
                    && req.tagging@ == Some(seq![tag_model("validating"@, bool_str(true))]),
                _ => false,
            })
        },
        (WorkflowStage::InProgress, WorkflowEvent::Proceed) => {
            &&& spec_location_error(w.entity@) is None
            &&& (match w2.stage {
                WorkflowStage::Validated { valid, message } => valid == spec_file_valid(w.entity@)
                    && message@ == spec_validation_message(w.entity@),
                _ => false,
            })
            &&& (match action {
                WorkflowAction::WriteTags(req) => location_of(req.location@, w.entity@)
                    && req.tagging@ == Some(seq![tag_model("validated"@, bool_str(true))]),
                _ => false,
            })
        },
        (WorkflowStage::Validated { valid, message }, WorkflowEvent::Proceed) => {
            &&& spec_location_error(w.entity@) is None
            &&& (match w2.stage {
                WorkflowStage::Merging { valid: v2, message: m2 } => v2 == valid && m2@
                    == message@,
                _ => false,
            })
            &&& (match action {
                WorkflowAction::ReadTags(req) => location_of(req.location@, w.entity@),
                _ => false,
            })
        },
        (WorkflowStage::Merging { valid, message }, WorkflowEvent::TagsFetched(current)) => {
            &&& spec_location_error(w.entity@) is None
            &&& (match w2.stage {
                WorkflowStage::Outcome { valid: v2, message: m2 } => v2 == valid && m2@
                    == message@,
                _ => false,
            })
            &&& (match action {
                WorkflowAction::WriteTags(req) => location_of(req.location@, w.entity@)
                    && req.tagging@ == Some(
                    upsert_tags(
                        current@,
                        if valid {
                            "valid"@
                        } else {
                            "quarantine"@
                        },
                        true,
                    ),
                ),
                _ => false,
            })
        },
        (WorkflowStage::Outcome { valid, message }, WorkflowEvent::Proceed) => {
            &&& (match w2.stage {
                WorkflowStage::Notified { message: m2 } => m2@ == message@,
                _ => false,
            })
            &&& (match action {
                WorkflowAction::SendMessage(req) => {
                    &&& req.queue_url@ == (if valid {
                        w.config.success_queue_url@
                    } else {
                        w.config.failure_queue_url@
                    })
                    &&& spec_message_body(w.request_id@, message@, valid, req.body)
                    &&& req.message_group_id@ == "ValidationGroup"@
                },
                _ => false,
            })
        },
        (WorkflowStage::Notified { message }, WorkflowEvent::Proceed) => {
            &&& w2.stage is Done
            &&& (match action {
                WorkflowAction::Complete(resp) => resp.req_id@ == w.request_id@ && resp.message@
                    == message@,
                _ => false,
            })
        },
        _ => false,
    })
}

/// Whether `m` is the error one step from `w` on `event` must report: the
/// first missing metadata field where the stage issues a store request,
/// or the fixed protocol message where the event does not belong to the
/// stage. Steps that only compose values never fail.
pub open spec fn spec_step_err(w: Workflow, event: WorkflowEvent, m: Seq<char>) -> bool {
    match (w.stage, event) {
        (WorkflowStage::Received, WorkflowEvent::Proceed) => spec_location_error(w.entity@)
            == Some(m),
        (WorkflowStage::InProgress, WorkflowEvent::Proceed) => spec_location_error(w.entity@)
            == Some(m),
        (WorkflowStage::Validated { .. }, WorkflowEvent::Proceed) => spec_location_error(w.entity@)
            == Some(m),
        (WorkflowStage::Merging { .. }, WorkflowEvent::TagsFetched(_)) => spec_location_error(
            w.entity@,
        ) == Some(m),
        (WorkflowStage::Outcome { .. }, WorkflowEvent::Proceed) => false,
        (WorkflowStage::Notified { .. }, WorkflowEvent::Proceed) => false,
        _ => m == "Workflow event does not match the current stage"@,
    }
}

/// A freshly received workflow whose event carries a bucket and a key
/// but no version id cannot take its first step: no successor and action
/// satisfy the step relation, and the only error the step relation
/// admits is the version message — so the abort precedes every request
/// value, and with it every store and channel call.
pub proof fn lemma_missing_version_aborts(
    w: Workflow,
    w2: Workflow,
    action: WorkflowAction,
    m: Seq<char>,
)
    requires
        w.stage is Received,
        w.entity@.bucket_name is Some,
        w.entity@.key is Some,
        w.entity@.version_id is None,
    ensures
        !spec_step_ok(w, WorkflowEvent::Proceed, w2, action),
        spec_step_err(w, WorkflowEvent::Proceed, m) ==> m
            == "Object has no version ID defined, is versioning enabled in the bucket?"@,
{
}

impl Workflow {
    /// A freshly received workflow for one event.
    pub fn new(entity: S3Entity, request_id: String, config: WorkflowConfig) -> (w: Workflow)
        ensures
            w.entity == entity,
            w.request_id == request_id,
            w.config == config,
            w.stage is Received,
    {
        Workflow { entity, request_id, config, stage: WorkflowStage::Received }
    }

    /// Advance the workflow by one stage, producing the next remote
    /// interaction or the final response. A missing metadata field aborts
    /// with that field's error before any request is produced; an event
    /// that does not belong to the current stage is refused.
    pub fn step(self, event: WorkflowEvent) -> (r: Result<(Workflow, WorkflowAction), String>)
        ensures
            (match r {
                Ok(p) => spec_step_ok(self, event, p.0, p.1),
                Err(m) => spec_step_err(self, event, m@),
            }),
    {
        let Workflow { entity, request_id, config, stage } = self;
        match (stage, event) {
            (WorkflowStage::Received, WorkflowEvent::Proceed) => {
                let req = match single_tag_request(&entity, "validating") {
                    Ok(req) => req,
                    Err(m) => {
                        return Err(m);
                    },
                };
                let next = Workflow { entity, request_id, config, stage: WorkflowStage::InProgress };
                Ok((next, WorkflowAction::WriteTags(req)))
            },
            (WorkflowStage::InProgress, WorkflowEvent::Proceed) => {
                let (valid, message) = is_valid_file(&entity);
                let req = match single_tag_request(&entity, "validated") {
                    Ok(req) => req,
                    Err(m) => {
                        return Err(m);
                    },
                };
                let next = Workflow {
                    entity,
                    request_id,
                    config,
                    stage: WorkflowStage::Validated { valid, message },
                };
                Ok((next, WorkflowAction::WriteTags(req)))
            },
            (WorkflowStage::Validated { valid, message }, WorkflowEvent::Proceed) => {
                let req = match get_tags_request(&entity) {
                    Ok(req) => req,
                    Err(m) => {
                        return Err(m);
                    },
                };
                let next = Workflow {
                    entity,
                    request_id,
                    config,
                    stage: WorkflowStage::Merging { valid, message },
                };
                Ok((next, WorkflowAction::ReadTags(req)))
            },
            (WorkflowStage::Merging { valid, message }, WorkflowEvent::TagsFetched(current)) => {
                let tag_name = if valid {
                    "valid"
                } else {
                    "quarantine"
                };
                let req = match add_tag_request(&entity, &current, tag_name) {
                    Ok(req) => req,
                    Err(m) => {
                        return Err(m);
                    },
                };
                let next = Workflow {
                    entity,
                    request_id,
                    config,
                    stage: WorkflowStage::Outcome { valid, message },
                };
                Ok((next, WorkflowAction::WriteTags(req)))
            },
            (WorkflowStage::Outcome { valid, message }, WorkflowEvent::Proceed) => {
                let mut categories: Vec<String> = Vec::new();
                categories.push(String::from_str("CD-TECH"));
                categories.push(String::from_str("AM-DEVS"));
                let body = ValidationMessageBody {
                    workflow: String::from_str("Validation_Workflow"),
                    exc_id: request_id.clone(),
                    categories,
                    message: message.clone(),
                    continue_url: if valid {
                        None
                    } else {
                        Some(String::from_str("https://example.com/continue"))
                    },
                    abort_url: if valid {
                        None
                    } else {
                        Some(String::from_str("https://example.com/abort"))
                    },
                };
                let queue_url = if valid {
                    config.success_queue_url.clone()
                } else {
                    config.failure_queue_url.clone()
                };
                let req = SendMessageRequest {
                    queue_url,
                    body,
                    message_group_id: String::from_str("ValidationGroup"),
                };
                let next = Workflow {
                    entity,
                    request_id,
                    config,
                    stage: WorkflowStage::Notified { message },
                };
                Ok((next, WorkflowAction::SendMessage(req)))
            },
            (WorkflowStage::Notified { message }, WorkflowEvent::Proceed) => {
                let resp = Response { req_id: request_id.clone(), message };
                let next = Workflow { entity, request_id, config, stage: WorkflowStage::Done };
                Ok((next, WorkflowAction::Complete(resp)))
            },
            _ => Err(String::from_str("Workflow event does not match the current stage")),
        }
    }
}

} // verus!
