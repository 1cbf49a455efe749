//! The reconciliation of one source resource: which action its state calls
//! for, and, step by step, what to ask of the platform next.
//!
//! The state machine asks and is told; it performs nothing itself. Its
//! caller performs each request and hands back the response.

use vstd::prelude::*;
use crate::crd::RSecret;
use crate::finalizer::{guarded, is_guarded, lemma_guard_idempotent, released};
use crate::metrics::{counted, Metrics};
use crate::secret::fingerprint;

verus! {

/// After how many seconds a reconciled resource is looked at again.
pub const REQUEUE_SECONDS: u64 = 20;

/// After how many seconds a resource is looked at again when its
/// reconciliation has failed.
pub const ERROR_REQUEUE_SECONDS: u64 = 300;

/// What the state of a source resource calls for.
#[derive(Clone, Copy, Debug, PartialEq, Eq, Structural)]
pub enum RSecretAction {
    Create,
    Delete,
    Update,
}

/// When to look at a resource again.
#[derive(Clone, Copy, Debug, PartialEq, Eq, Structural)]
pub enum Schedule {
    /// After so many seconds.
    Requeue(u64),
    /// When the resource changes.
    AwaitChange,
}

/// The action that a resource calls for: to delete where the platform has
/// begun to tear it down, whatever its finalizers; else to create where it
/// has no finalizer, and to update where it has one.
pub open spec fn action_for(has_deletion_timestamp: bool, has_finalizer: bool) -> RSecretAction {
    if has_deletion_timestamp {
        RSecretAction::Delete
    } else if has_finalizer {
        RSecretAction::Update
    } else {
        RSecretAction::Create
    }
}

/// The action that a resource calls for.
pub fn classify(has_deletion_timestamp: bool, has_finalizer: bool) -> (r: RSecretAction)
    ensures
        r == action_for(has_deletion_timestamp, has_finalizer),
{
    if has_deletion_timestamp {
        RSecretAction::Delete
    } else if has_finalizer {
        RSecretAction::Update
    } else {
        RSecretAction::Create
    }
}

/// Whether a resource has a deletion timestamp.
pub open spec fn is_deleting(rsecret: RSecret) -> bool {
    rsecret.metadata.deletion_timestamp is Some
}

/// Whether a resource has at least one finalizer.
pub open spec fn has_any_finalizer(rsecret: RSecret) -> bool {
    rsecret.metadata.finalizers matches Some(list) && list@.len() > 0
}

/// The action that `rsecret` calls for. It is worked out from the resource
/// as it is now, on every call.
pub fn determine_action(rsecret: &RSecret) -> (r: RSecretAction)
    ensures
        r == action_for(is_deleting(*rsecret), has_any_finalizer(*rsecret)),
{
    let has_finalizer = match &rsecret.metadata.finalizers {
        Some(list) => list.len() > 0,
        None => false,
    };
    classify(rsecret.metadata.deletion_timestamp.is_some(), has_finalizer)
}

/// What the state machine asks of its caller.
#[derive(Clone, Copy, Debug, PartialEq, Eq, Structural)]
pub enum Request {
    /// Guard the source resource with the operator's finalizer.
    AddFinalizer,
    /// Release the source resource from its finalizers.
    RemoveFinalizer,
    /// Look for the target object.
    GetSecret,
    /// Resolve the backends of the resource into a secret map.
    CollectSecretData,
    /// Create the target object with the secret map.
    CreateSecret,
    /// Patch the target object so that it holds the secret map.
    PatchSecret,
    /// Delete the target object.
    DeleteSecret,
}

/// What the caller tells the state machine of a request.
#[derive(Clone, Copy, Debug, PartialEq, Eq, Structural)]
pub enum Response {
    /// The platform has done what was asked.
    Done,
    /// The platform has failed to do what was asked.
    Failed,
    /// The target object is there; the fingerprint that its labels record,
    /// if they record one.
    SecretFound(Option<u64>),
    /// There is no target object.
    SecretAbsent,
    /// The secret map is resolved; its fingerprint.
    Collected(u64),
}

/// How far a reconciliation has come.
#[derive(Clone, Copy, Debug, PartialEq, Eq, Structural)]
pub enum ReconcileState {
    /// Nothing is asked yet.
    Start,
    /// To create: the guard is asked for.
    Guarding,
    /// To create: the secret map is asked for.
    Collecting,
    /// To create: the target object is asked to be created.
    Creating,
    /// To update: the target object is looked for.
    Finding,
    /// To update: the secret map is asked for; the fingerprint that the
    /// target object records.
    Comparing(Option<u64>),
    /// To update: the target object is asked to be patched.
    Patching,
    /// To delete: the target object is looked for.
    FindingDoomed,
    /// To delete: the target object is asked to be deleted.
    Deleting,
    /// To delete: the release is asked for.
    Releasing,
    /// The reconciliation has come to its end.
    Finished(Schedule),
    /// The reconciliation has failed.
    Failed,
}

/// The next state of a reconciliation and what it asks next, given the
/// action that the resource calls for, the state, and the response to what
/// was asked last.
///
/// - To create: guard the resource, resolve the secret map, create the
///   target object; then look again after the fixed interval.
/// - To update: look for the target object. Where it is absent, go on as to
///   create. Where it is there, resolve the secret map and patch the target
///   object only if its labels do not record the fingerprint of the map;
///   then look again after the fixed interval.
/// - To delete: look for the target object, delete it if it is there,
///   release the resource; then wait for the next change.
/// - A failure of the platform, or a response that does not answer what was
///   asked, fails the reconciliation.
pub open spec fn step(action: RSecretAction, state: ReconcileState, response: Option<Response>) -> (
    ReconcileState,
    Option<Request>,
) {
    match state {
        ReconcileState::Start => match action {
            RSecretAction::Create => (ReconcileState::Guarding, Some(Request::AddFinalizer)),
            RSecretAction::Update => (ReconcileState::Finding, Some(Request::GetSecret)),
            RSecretAction::Delete => (ReconcileState::FindingDoomed, Some(Request::GetSecret)),
        },
        ReconcileState::Guarding => match response {
            Some(Response::Done) => (ReconcileState::Collecting, Some(Request::CollectSecretData)),
            _ => (ReconcileState::Failed, None),
        },
        ReconcileState::Collecting => match response {
            Some(Response::Collected(_)) => (ReconcileState::Creating, Some(Request::CreateSecret)),
            _ => (ReconcileState::Failed, None),
        },
        ReconcileState::Creating => match response {
            Some(Response::Done) => (
                ReconcileState::Finished(Schedule::Requeue(REQUEUE_SECONDS)),
                None,
            ),
            _ => (ReconcileState::Failed, None),
        },
        ReconcileState::Finding => match response {
            Some(Response::SecretFound(recorded)) => (
                ReconcileState::Comparing(recorded),
                Some(Request::CollectSecretData),
            ),
            Some(Response::SecretAbsent) => (ReconcileState::Guarding, Some(Request::AddFinalizer)),
            _ => (ReconcileState::Failed, None),
        },
        ReconcileState::Comparing(recorded) => match response {
            Some(Response::Collected(hash_id)) => if recorded == Some(hash_id) {
                (ReconcileState::Finished(Schedule::Requeue(REQUEUE_SECONDS)), None)
            } else {
                (ReconcileState::Patching, Some(Request::PatchSecret))
            },
            _ => (ReconcileState::Failed, None),
        },
        ReconcileState::Patching => match response {
            Some(Response::Done) => (
                ReconcileState::Finished(Schedule::Requeue(REQUEUE_SECONDS)),
                None,
            ),
            _ => (ReconcileState::Failed, None),
        },
        ReconcileState::FindingDoomed => match response {
            Some(Response::SecretFound(_)) => (ReconcileState::Deleting, Some(Request::DeleteSecret)),
            Some(Response::SecretAbsent) => (
                ReconcileState::Releasing,
                Some(Request::RemoveFinalizer),
            ),
            _ => (ReconcileState::Failed, None),
        },
        ReconcileState::Deleting => match response {
            Some(Response::Done) => (ReconcileState::Releasing, Some(Request::RemoveFinalizer)),
            _ => (ReconcileState::Failed, None),
        },
        ReconcileState::Releasing => match response {
            Some(Response::Done) => (ReconcileState::Finished(Schedule::AwaitChange), None),
            _ => (ReconcileState::Failed, None),
        },
        ReconcileState::Finished(schedule) => (ReconcileState::Finished(schedule), None),
        ReconcileState::Failed => (ReconcileState::Failed, None),
    }
}

/// One step of the reconciliation of a resource that calls for `action`:
/// the next state, and what to ask next; nothing where the reconciliation
/// has come to its end or has failed.
pub fn reconcile_step(action: RSecretAction, state: ReconcileState, response: Option<Response>) -> (r: (
    ReconcileState,
    Option<Request>,
))
    ensures
        r == step(action, state, response),
{
    match state {
        ReconcileState::Start => match action {
            RSecretAction::Create => (ReconcileState::Guarding, Some(Request::AddFinalizer)),
            RSecretAction::Update => (ReconcileState::Finding, Some(Request::GetSecret)),
            RSecretAction::Delete => (ReconcileState::FindingDoomed, Some(Request::GetSecret)),
        },
        ReconcileState::Guarding => match response {
            Some(Response::Done) => (ReconcileState::Collecting, Some(Request::CollectSecretData)),
            _ => (ReconcileState::Failed, None),
        },
        ReconcileState::Collecting => match response {
            Some(Response::Collected(_)) => (ReconcileState::Creating, Some(Request::CreateSecret)),
            _ => (ReconcileState::Failed, None),
        },
        ReconcileState::Creating | ReconcileState::Patching => match response {
            Some(Response::Done) => (
                ReconcileState::Finished(Schedule::Requeue(REQUEUE_SECONDS)),
                None,
            ),
            _ => (ReconcileState::Failed, None),
        },
        ReconcileState::Finding => match response {
            Some(Response::SecretFound(recorded)) => (
                ReconcileState::Comparing(recorded),
                Some(Request::CollectSecretData),
            ),
            Some(Response::SecretAbsent) => (ReconcileState::Guarding, Some(Request::AddFinalizer)),
            _ => (ReconcileState::Failed, None),
        },
        ReconcileState::Comparing(recorded) => match response {
            Some(Response::Collected(hash_id)) => {
                let unchanged = match recorded {
                    Some(old_hash_id) => old_hash_id == hash_id,
                    None => false,
                };
                if unchanged {
                    (ReconcileState::Finished(Schedule::Requeue(REQUEUE_SECONDS)), None)
                } else {
                    (ReconcileState::Patching, Some(Request::PatchSecret))
                }
            },
            _ => (ReconcileState::Failed, None),
        },
        ReconcileState::FindingDoomed => match response {
            Some(Response::SecretFound(_)) => (ReconcileState::Deleting, Some(Request::DeleteSecret)),
            Some(Response::SecretAbsent) => (
                ReconcileState::Releasing,
                Some(Request::RemoveFinalizer),
            ),
            _ => (ReconcileState::Failed, None),
        },
        ReconcileState::Deleting => match response {
            Some(Response::Done) => (ReconcileState::Releasing, Some(Request::RemoveFinalizer)),
            _ => (ReconcileState::Failed, None),
        },
        ReconcileState::Releasing => match response {
            Some(Response::Done) => (ReconcileState::Finished(Schedule::AwaitChange), None),
            _ => (ReconcileState::Failed, None),
        },
        ReconcileState::Finished(schedule) => (ReconcileState::Finished(schedule), None),
        ReconcileState::Failed => (ReconcileState::Failed, None),
    }
}

/// One step of the reconciliation of `rsecret`. The action that the resource
/// calls for is worked out anew from the resource at every step.
pub fn reconcile(rsecret: &RSecret, state: ReconcileState, response: Option<Response>) -> (r: (
    ReconcileState,
    Option<Request>,
))
    ensures
        r == step(
            action_for(is_deleting(*rsecret), has_any_finalizer(*rsecret)),
            state,
            response,
        ),
{
    reconcile_step(determine_action(rsecret), state, response)
}

/// What follows a failed reconciliation: the failure is counted, and the
/// resource is looked at again after five minutes.
pub fn error_policy(metrics: &mut Metrics) -> (r: Schedule)
    ensures
        r == Schedule::Requeue(ERROR_REQUEUE_SECONDS),
        final(metrics).failures == counted(old(metrics).failures),
        final(metrics).reconciliations == old(metrics).reconciliations,
{
    metrics.record_failure();
    Schedule::Requeue(ERROR_REQUEUE_SECONDS)
}

/// A failure of the platform fails the reconciliation at once: whatever was
/// asked, nothing more is asked, and the reconciliation does not finish.
pub proof fn lemma_failure_fails(action: RSecretAction, state: ReconcileState)
    requires
        state != ReconcileState::Start,
        !(state is Finished),
    ensures
        step(action, state, Some(Response::Failed)) == (ReconcileState::Failed, None::<Request>),
{
}

/// The part of the platform that a reconciliation touches, for the purpose
/// of stating what reconciliations achieve: the finalizers of the source
/// resource, the target object, and how often it has been created and
/// patched.
pub struct Platform {
    /// The finalizers of the source resource.
    pub finalizers: Seq<Seq<char>>,
    /// The target object, if there is one.
    pub target: Option<Target>,
    /// How often a target object has been created.
    pub creations: nat,
    /// How often the target object has been patched.
    pub patches: nat,
}

/// A target object: its content, and the fingerprint that its labels record.
pub struct Target {
    pub content: Map<Seq<char>, Seq<u8>>,
    pub recorded: Option<u64>,
}

/// The target object that holds `data` and records its fingerprint: what
/// `create_k8s_secret` makes and what the patch of `update_k8s_secret` leaves.
pub open spec fn target_holding(data: Map<Seq<char>, Seq<u8>>) -> Target {
    Target { content: data, recorded: Some(fingerprint(data)) }
}

/// What a platform on which every call succeeds makes of a request, and what
/// it answers, where the backends resolve to `data`.
pub open spec fn served_by(platform: Platform, request: Request, data: Map<Seq<char>, Seq<u8>>) -> (
    Platform,
    Response,
) {
    match request {
        Request::AddFinalizer => (
            Platform { finalizers: guarded(platform.finalizers), ..platform },
            Response::Done,
        ),
        Request::RemoveFinalizer => (
            Platform { finalizers: released(platform.finalizers), ..platform },
            Response::Done,
        ),
        Request::GetSecret => match platform.target {
            Some(target) => (platform, Response::SecretFound(target.recorded)),
            None => (platform, Response::SecretAbsent),
        },
        Request::CollectSecretData => (platform, Response::Collected(fingerprint(data))),
        Request::CreateSecret => (
            Platform {
                target: Some(target_holding(data)),
                creations: platform.creations + 1,
                ..platform
            },
            Response::Done,
        ),
        Request::PatchSecret => (
            Platform {
                target: Some(target_holding(data)),
                patches: platform.patches + 1,
                ..platform
            },
            Response::Done,
        ),
        Request::DeleteSecret => (Platform { target: None, ..platform }, Response::Done),
    }
}

/// The state and the platform after at most `fuel` requests of a
/// reconciliation, each served by the platform.
pub open spec fn run(
    action: RSecretAction,
    platform: Platform,
    data: Map<Seq<char>, Seq<u8>>,
    state: ReconcileState,
    response: Option<Response>,
    fuel: nat,
) -> (ReconcileState, Platform)
    decreases fuel,
{
    let (next, request) = step(action, state, response);
    match request {
        None => (next, platform),
        Some(request) => if fuel == 0 {
            (next, platform)
        } else {
            let (after, answer) = served_by(platform, request, data);
            run(action, after, data, next, Some(answer), (fuel - 1) as nat)
        },
    }
}

/// The state and the platform after one whole reconciliation of a resource
/// that is being deleted or not, on a platform on which every call succeeds.
/// No reconciliation asks more than four requests.
pub open spec fn reconciled(platform: Platform, deleting: bool, data: Map<Seq<char>, Seq<u8>>) -> (
    ReconcileState,
    Platform,
) {
    run(
        action_for(deleting, platform.finalizers.len() > 0),
        platform,
        data,
        ReconcileState::Start,
        None,
        4,
    )
}

/// A resource without finalizers that is not being deleted is reconciled as
/// one to create: afterwards it has the operator's finalizer, and the target
/// object holds the resolved secret map and records its fingerprint.
pub proof fn lemma_create_guards(platform: Platform, data: Map<Seq<char>, Seq<u8>>)
    requires
        platform.finalizers.len() == 0,
    ensures
        action_for(false, platform.finalizers.len() > 0) == RSecretAction::Create,
        reconciled(platform, false, data).0 == ReconcileState::Finished(
            Schedule::Requeue(REQUEUE_SECONDS),
        ),
        is_guarded(reconciled(platform, false, data).1.finalizers),
        reconciled(platform, false, data).1.target == Some(target_holding(data)),
{
    reveal_with_fuel(run, 5);
    lemma_guard_idempotent(platform.finalizers);
}

/// A resource that is being deleted is reconciled as one to delete, whatever
/// its finalizers: afterwards it has no finalizer and there is no target
/// object, and the resource is not looked at again until it changes.
pub proof fn lemma_delete_releases(platform: Platform, data: Map<Seq<char>, Seq<u8>>)
    ensures
        action_for(true, platform.finalizers.len() > 0) == RSecretAction::Delete,
        reconciled(platform, true, data).0 == ReconcileState::Finished(Schedule::AwaitChange),
        reconciled(platform, true, data).1.finalizers.len() == 0,
        reconciled(platform, true, data).1.target is None,
{
    reveal_with_fuel(run, 5);
}

/// An update patches exactly if the target object does not record the
/// fingerprint of the resolved secret map: then once, and the target object
/// holds the map and records its fingerprint afterwards; else not at all,
/// and nothing changes.
pub proof fn lemma_update_patches_on_mismatch(
    platform: Platform,
    target: Target,
    data: Map<Seq<char>, Seq<u8>>,
)
    requires
        platform.finalizers.len() > 0,
        platform.target == Some(target),
    ensures
        reconciled(platform, false, data).0 == ReconcileState::Finished(
            Schedule::Requeue(REQUEUE_SECONDS),
        ),
        target.recorded == Some(fingerprint(data)) ==> reconciled(platform, false, data).1
            == platform,
        target.recorded != Some(fingerprint(data)) ==> reconciled(platform, false, data).1
            == (Platform {
            target: Some(target_holding(data)),
            patches: platform.patches + 1,
            ..platform
        }),
{
    reveal_with_fuel(run, 5);
}

/// An update that finds no target object goes on as a creation: afterwards
/// the resource is guarded and the target object holds the resolved secret
/// map, and nothing was patched.
pub proof fn lemma_update_recreates(platform: Platform, data: Map<Seq<char>, Seq<u8>>)
    requires
        platform.finalizers.len() > 0,
        platform.target is None,
    ensures
        reconciled(platform, false, data).0 == ReconcileState::Finished(
            Schedule::Requeue(REQUEUE_SECONDS),
        ),
        reconciled(platform, false, data).1 == (Platform {
            finalizers: guarded(platform.finalizers),
            target: Some(target_holding(data)),
            creations: platform.creations + 1,
            ..platform
        }),
{
    reveal_with_fuel(run, 5);
}

/// Reconciling twice changes nothing the second time: after one update,
/// another update with the same resolved secret map patches nothing, creates
/// nothing, and leaves the platform as it is.
pub proof fn lemma_update_idempotent(platform: Platform, data: Map<Seq<char>, Seq<u8>>)
    requires
        platform.finalizers.len() > 0,
    ensures
        reconciled(reconciled(platform, false, data).1, false, data).1 == reconciled(
            platform,
            false,
            data,
        ).1,
        reconciled(reconciled(platform, false, data).1, false, data).0
            == ReconcileState::Finished(Schedule::Requeue(REQUEUE_SECONDS)),
{
    let once = reconciled(platform, false, data).1;
    match platform.target {
        Some(target) => {
            lemma_update_patches_on_mismatch(platform, target, data);
            if target.recorded != Some(fingerprint(data)) {
                lemma_update_patches_on_mismatch(once, target_holding(data), data);
            }
        },
        None => {
            lemma_update_recreates(platform, data);
            lemma_guard_idempotent(platform.finalizers);
            assert(guarded(platform.finalizers).len() > 0);
            lemma_update_patches_on_mismatch(once, target_holding(data), data);
        },
    }
}

} // verus!
