//! Cocoons requested through the signaling server: a spawn request becomes a service of
//! the cocoon source, created and then started (and removed again when it does not
//! start); a terminate request deletes that service. The service manager does the work;
//! this state machine decides each next step and the reply.

use vstd::prelude::*;
use crate::crypto::{hex_encode, hmac_sha256_digest, signature};
use crate::defaults::{entries_view, json_view, Json, JsonView};
use crate::signaling_control::CocoonKindInfo;
use crate::text::str_eq;

verus! {

/// A request to spawn a cocoon of kind `kind`, named `name` if given.
#[derive(Debug)]
pub struct SpawnRequest {
    pub request_id: String,
    pub setup_token: String,
    pub name: Option<String>,
    pub kind: String,
}

/// The reply to a spawn request.
#[derive(Debug, PartialEq, Eq)]
pub struct SpawnReply {
    pub request_id: String,
    pub success: bool,
    pub container_id: Option<String>,
    pub error: Option<String>,
}

/// The reply to a terminate request.
#[derive(Debug, PartialEq, Eq)]
pub struct TerminateReply {
    pub request_id: String,
    pub success: bool,
    pub error: Option<String>,
}

/// What the service manager is asked to do next, or the reply that ends the request.
#[derive(Debug)]
pub enum SpawnAction {
    CreateService { source_id: String, name: String, config: Json },
    StartService { fqn: String },
    DeleteService { fqn: String },
    Reply(SpawnReply),
}

/// How the last step went.
#[derive(Debug)]
pub enum SpawnEvent {
    /// The service configuration could not be read.
    ConfigRejected(String),
    CreateFailed(String),
    Created,
    StartFailed(String),
    Started,
    /// The service that did not start was deleted (whether that succeeded or not).
    Deleted,
}

/// Where a spawn stands.
#[derive(Clone, Copy, Debug, PartialEq, Eq, Structural)]
pub enum SpawnPhase {
    Creating,
    Starting,
    CleaningUp,
    Done,
}

/// A spawn in progress.
#[derive(Debug)]
pub struct CocoonSpawn {
    pub request_id: String,
    pub container_name: String,
    pub fqn: String,
    pub phase: SpawnPhase,
    /// Why the spawn failed, while the service is being removed.
    pub failure: String,
}

/// The configuration of a cocoon's service: the `cocoon-spawner` runner with the kind's
/// image, the signaling server's address and the setup token, never restarted.
pub open spec fn spawner_config(image: Seq<char>, signaling_url: Seq<char>, setup_token: Seq<char>) -> JsonView {
    JsonView::Object(
        seq![
            (
                "runner"@,
                JsonView::Object(
                    seq![
                        ("type"@, JsonView::Str("cocoon-spawner"@)),
                        (
                            "cocoon-spawner"@,
                            JsonView::Object(
                                seq![
                                    ("image"@, JsonView::Str(image)),
                                    ("signaling_url"@, JsonView::Str(signaling_url)),
                                    ("setup_token"@, JsonView::Str(setup_token)),
                                ],
                            ),
                        ),
                    ],
                ),
            ),
            ("restart"@, JsonView::Str("never"@)),
        ],
    )
}

/// The position of the first kind with identifier `id`, if any.
pub open spec fn kind_index(kinds: Seq<CocoonKindInfo>, id: Seq<char>) -> Option<int> {
    if exists|i: int| 0 <= i < kinds.len() && #[trigger] kinds[i].id@ == id {
        Some(choose|i: int| 0 <= i < kinds.len() && #[trigger] kinds[i].id@ == id
            && forall|j: int| 0 <= j < i ==> kinds[j].id@ != id)
    } else {
        None
    }
}

/// The name of a cocoon's container: the requested one, else `cocoon-<short id>`.
pub open spec fn container_name_for(name: Option<String>, short_id: Seq<char>) -> Seq<char> {
    match name {
        Some(n) => n@,
        None => "cocoon-"@ + short_id,
    }
}

fn concat(a: &str, b: &str) -> (r: String)
    ensures
        r@ == a@ + b@,
{
    let mut r = a.to_owned();
    r.append(b);
    r
}

fn text(s: &str) -> (r: Json)
    ensures
        json_view(r) == JsonView::Str(s@),
{
    Json::Str(s.to_owned())
}

fn entry(k: &str, v: Json) -> (r: (String, Json))
    ensures
        r.0@ == k@,
        r.1 == v,
{
    (k.to_owned(), v)
}

fn object3(a: (String, Json), b: (String, Json), c: (String, Json)) -> (r: Json)
    ensures
        json_view(r) == JsonView::Object(seq![(a.0@, json_view(a.1)), (b.0@, json_view(b.1)), (c.0@, json_view(c.1))]),
{
    let mut v: Vec<(String, Json)> = Vec::new();
    v.push(a);
    v.push(b);
    v.push(c);
    assert(v@.take(1).drop_last() =~= Seq::<(String, Json)>::empty());
    assert(v@.take(2).drop_last() =~= v@.take(1));
    assert(v@.take(3).drop_last() =~= v@.take(2));
    assert(v@.take(3) =~= v@);
    proof {
        reveal_with_fuel(entries_view, 4);
    }
    assert(entries_view(v@) =~= seq![(a.0@, json_view(a.1)), (b.0@, json_view(b.1)), (c.0@, json_view(c.1))]);
    Json::Object(v)
}

fn object2(a: (String, Json), b: (String, Json)) -> (r: Json)
    ensures
        json_view(r) == JsonView::Object(seq![(a.0@, json_view(a.1)), (b.0@, json_view(b.1))]),
{
    let mut v: Vec<(String, Json)> = Vec::new();
    v.push(a);
    v.push(b);
    assert(v@.take(1).drop_last() =~= Seq::<(String, Json)>::empty());
    assert(v@.take(2).drop_last() =~= v@.take(1));
    assert(v@.take(2) =~= v@);
    proof {
        reveal_with_fuel(entries_view, 3);
    }
    assert(entries_view(v@) =~= seq![(a.0@, json_view(a.1)), (b.0@, json_view(b.1))]);
    Json::Object(v)
}

/// The service configuration of a cocoon (see `spawner_config`).
pub fn cocoon_service_config(image: &str, signaling_url: &str, setup_token: &str) -> (r: Json)
    ensures
        json_view(r) == spawner_config(image@, signaling_url@, setup_token@),
{
    let spawner = object3(
        entry("image", text(image)),
        entry("signaling_url", text(signaling_url)),
        entry("setup_token", text(setup_token)),
    );
    let runner = object2(entry("type", text("cocoon-spawner")), entry("cocoon-spawner", spawner));
    object2(entry("runner", runner), entry("restart", text("never")))
}

/// The full name of a cocoon's service: `<cocoon source>:<container>`.
pub fn cocoon_fqn(source_id: &str, container: &str) -> (r: String)
    ensures
        r@ == source_id@ + ":"@ + container@,
{
    let mut r = concat(source_id, ":");
    r.append(container);
    r
}

fn failed(request_id: String, error: String) -> (r: SpawnReply)
    ensures
        r.request_id == request_id,
        !r.success,
        r.container_id is None,
        r.error == Some(error),
{
    SpawnReply { request_id, success: false, container_id: None, error: Some(error) }
}

/// The signature a hive registers with: `hive` signed with the hive secret (any secret,
/// an empty one too).
pub fn registration_signature(hive_secret: &str) -> (r: String)
    ensures
        r@ == signature("hive"@, hive_secret@),
{
    let tag = hmac_sha256_digest(hive_secret.as_bytes(), "hive".as_bytes());
    hex_encode(&tag)
}

/// `a` ends the request with a failure reply saying `message`.
pub open spec fn replies_failure(a: SpawnAction, request_id: String, message: Seq<char>) -> bool {
    match a {
        SpawnAction::Reply(reply) => {
            &&& reply.request_id == request_id
            &&& !reply.success
            &&& reply.container_id is None
            &&& match reply.error {
                Some(m) => m@ == message,
                None => false,
            }
        },
        _ => false,
    }
}

/// `a` ends the request with a success reply naming the container.
pub open spec fn replies_success(a: SpawnAction, request_id: String, container: Seq<char>) -> bool {
    match a {
        SpawnAction::Reply(reply) => {
            &&& reply.request_id == request_id
            &&& reply.success
            &&& reply.error is None
            &&& match reply.container_id {
                Some(c) => c@ == container,
                None => false,
            }
        },
        _ => false,
    }
}

/// `a` asks to start the service `fqn`.
pub open spec fn asks_start(a: SpawnAction, fqn: Seq<char>) -> bool {
    match a {
        SpawnAction::StartService { fqn: f } => f@ == fqn,
        _ => false,
    }
}

/// `a` asks to delete the service `fqn`.
pub open spec fn asks_delete(a: SpawnAction, fqn: Seq<char>) -> bool {
    match a {
        SpawnAction::DeleteService { fqn: f } => f@ == fqn,
        _ => false,
    }
}

/// `a` asks to create the service `name` of the source `source_id` with configuration
/// `config`.
pub open spec fn asks_create(a: SpawnAction, source_id: Seq<char>, name: Seq<char>, config: JsonView) -> bool {
    match a {
        SpawnAction::CreateService { source_id: s, name: n, config: c } => s@ == source_id && n@ == name
            && json_view(c) == config,
        _ => false,
    }
}

impl CocoonSpawn {
    /// Takes up a spawn request. A kind that `kinds` does not list is refused with
    /// `unknown cocoon kind: <kind>`. Otherwise the service `<container>` is created in
    /// the cocoon source, named as requested or `cocoon-<short_id>`, with the kind's
    /// image (the first kind of that identifier).
    pub fn begin(
        request: SpawnRequest,
        kinds: &Vec<CocoonKindInfo>,
        signaling_url: &str,
        cocoon_source_id: &str,
        short_id: &str,
    ) -> (r: (Option<CocoonSpawn>, SpawnAction))
        ensures
            match kind_index(kinds@, request.kind@) {
                None => {
                    &&& r.0 is None
                    &&& replies_failure(r.1, request.request_id, "unknown cocoon kind: "@ + request.kind@)
                },
                Some(k) => match r.0 {
                    Some(s) => {
                        &&& s.request_id == request.request_id
                        &&& s.container_name@ == container_name_for(request.name, short_id@)
                        &&& s.fqn@ == cocoon_source_id@ + ":"@ + s.container_name@
                        &&& s.phase == SpawnPhase::Creating
                        &&& asks_create(
                            r.1,
                            cocoon_source_id@,
                            s.container_name@,
                            spawner_config(kinds@[k].image@, signaling_url@, request.setup_token@),
                        )
                    },
                    None => false,
                },
            },
    {
        let mut i: usize = 0;
        while i < kinds.len()
            invariant
                i <= kinds@.len(),
                forall|j: int| 0 <= j < i ==> kinds@[j].id@ != request.kind@,
            ensures
                i <= kinds@.len(),
                forall|j: int| 0 <= j < i ==> kinds@[j].id@ != request.kind@,
                i < kinds@.len() ==> kinds@[i as int].id@ == request.kind@,
            decreases kinds@.len() - i,
        {
            if str_eq(kinds[i].id.as_str(), request.kind.as_str()) {
                break;
            }
            i = i + 1;
        }
        if i == kinds.len() {
            let reply = failed(request.request_id, concat("unknown cocoon kind: ", request.kind.as_str()));
            return (None, SpawnAction::Reply(reply));
        }
        proof {
            assert(kinds@[i as int].id@ == request.kind@);
            let k = kind_index(kinds@, request.kind@).unwrap();
            if k < i {
            } else if k > i {
            }
            assert(k == i);
        }
        let container_name = match request.name {
            Some(n) => n,
            None => concat("cocoon-", short_id),
        };
        let fqn = cocoon_fqn(cocoon_source_id, container_name.as_str());
        let config = cocoon_service_config(kinds[i].image.as_str(), signaling_url, request.setup_token.as_str());
        let action = SpawnAction::CreateService {
            source_id: cocoon_source_id.to_owned(),
            name: container_name.clone(),
            config,
        };
        let spawn = CocoonSpawn {
            request_id: request.request_id,
            container_name,
            fqn,
            phase: SpawnPhase::Creating,
            failure: String::new(),
        };
        (Some(spawn), action)
    }

    /// Whether `event` can follow where the spawn stands: the outcome of creating, of
    /// starting, or of removing the service that did not start.
    pub open spec fn expects(&self, event: SpawnEvent) -> bool {
        match self.phase {
            SpawnPhase::Creating => event is ConfigRejected || event is CreateFailed || event is Created,
            SpawnPhase::Starting => event is StartFailed || event is Started,
            SpawnPhase::CleaningUp => event is Deleted,
            SpawnPhase::Done => false,
        }
    }

    /// The next step after `event`. A configuration that could not be read or a failed
    /// creation ends the spawn with `failed to build service config: ...` or
    /// `create service failed: ...`; a created service is started; a service that does
    /// not start is deleted and the spawn then fails with `start service failed: ...`; a
    /// started one ends the spawn successfully with the container's name.
    pub fn step(&mut self, event: SpawnEvent) -> (r: SpawnAction)
        requires
            old(self).expects(event),
        ensures
            final(self).request_id == old(self).request_id,
            final(self).container_name == old(self).container_name,
            final(self).fqn == old(self).fqn,
            match event {
                SpawnEvent::ConfigRejected(e) => final(self).phase == SpawnPhase::Done
                    && replies_failure(r, old(self).request_id, "failed to build service config: "@ + e@),
                SpawnEvent::CreateFailed(e) => final(self).phase == SpawnPhase::Done
                    && replies_failure(r, old(self).request_id, "create service failed: "@ + e@),
                SpawnEvent::Created => final(self).phase == SpawnPhase::Starting && asks_start(r, old(self).fqn@),
                SpawnEvent::StartFailed(e) => final(self).phase == SpawnPhase::CleaningUp
                    && final(self).failure@ == "start service failed: "@ + e@
                    && asks_delete(r, old(self).fqn@),
                SpawnEvent::Started => final(self).phase == SpawnPhase::Done
                    && replies_success(r, old(self).request_id, old(self).container_name@),
                SpawnEvent::Deleted => final(self).phase == SpawnPhase::Done
                    && replies_failure(r, old(self).request_id, old(self).failure@),
            },
    {
        match event {
            SpawnEvent::ConfigRejected(e) => {
                self.phase = SpawnPhase::Done;
                SpawnAction::Reply(failed(self.request_id.clone(), concat("failed to build service config: ", e.as_str())))
            },
            SpawnEvent::CreateFailed(e) => {
                self.phase = SpawnPhase::Done;
                SpawnAction::Reply(failed(self.request_id.clone(), concat("create service failed: ", e.as_str())))
            },
            SpawnEvent::Created => {
                self.phase = SpawnPhase::Starting;
                SpawnAction::StartService { fqn: self.fqn.clone() }
            },
            SpawnEvent::StartFailed(e) => {
                self.phase = SpawnPhase::CleaningUp;
                self.failure = concat("start service failed: ", e.as_str());
                SpawnAction::DeleteService { fqn: self.fqn.clone() }
            },
            SpawnEvent::Started => {
                self.phase = SpawnPhase::Done;
                SpawnAction::Reply(
                    SpawnReply {
                        request_id: self.request_id.clone(),
                        success: true,
                        container_id: Some(self.container_name.clone()),
                        error: None,
                    },
                )
            },
            SpawnEvent::Deleted => {
                self.phase = SpawnPhase::Done;
                SpawnAction::Reply(failed(self.request_id.clone(), self.failure.clone()))
            },
        }
    }
}

/// The reply to a terminate request once the service `<cocoon source>:<container>` was
/// deleted (`outcome`): success, or `delete service failed: ...`.
pub fn terminate_reply(request_id: String, outcome: Result<(), String>) -> (r: TerminateReply)
    ensures
        r.request_id == request_id,
        match outcome {
            Ok(()) => r.success && r.error is None,
            Err(e) => !r.success && match r.error {
                Some(m) => m@ == "delete service failed: "@ + e@,
                None => false,
            },
        },
{
    match outcome {
        Ok(()) => TerminateReply { request_id, success: true, error: None },
        Err(e) => TerminateReply { request_id, success: false, error: Some(concat("delete service failed: ", e.as_str())) },
    }
}

} // verus!
