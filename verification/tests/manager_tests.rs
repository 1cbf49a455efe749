use rsecrets::crd::{ObjectMeta, RSecret, RSecretdSpec};
use rsecrets::finalizer;
use rsecrets::manager::{
    classify, determine_action, error_policy, reconcile, reconcile_step, RSecretAction,
    ReconcileState, Request, Response, Schedule, ERROR_REQUEUE_SECONDS, REQUEUE_SECONDS,
};
use rsecrets::metrics::{register_custom_metrics, Metrics, State};
use rsecrets::secret::{
    calculate_secret_hash, create_k8s_secret, get_hash_id, update_k8s_secret, Secret,
};
use rsecrets::sorted_map::{Labels, SecretMap};

fn base_rsecret() -> RSecret {
    let spec = RSecretdSpec { resources: vec![], description: None };
    let mut rsecret = RSecret::new("example", spec);
    rsecret.metadata = ObjectMeta { namespace: Some("default".into()), ..ObjectMeta::default() };
    rsecret
}

/// A platform in memory on which every call succeeds.
struct FakePlatform {
    rsecret: RSecret,
    secret: Option<Secret>,
    data: SecretMap,
    log: Vec<Request>,
}

impl FakePlatform {
    fn new(rsecret: RSecret, secret: Option<Secret>, data: SecretMap) -> FakePlatform {
        FakePlatform { rsecret, secret, data, log: Vec::new() }
    }

    fn perform(&mut self, request: Request) -> Response {
        self.log.push(request);
        match request {
            Request::AddFinalizer => {
                self.rsecret.metadata.finalizers = Some(finalizer::add(&self.rsecret));
                Response::Done
            }
            Request::RemoveFinalizer => {
                self.rsecret.metadata.finalizers = Some(finalizer::delete(&self.rsecret));
                Response::Done
            }
            Request::GetSecret => match &self.secret {
                Some(secret) => Response::SecretFound(get_hash_id(secret)),
                None => Response::SecretAbsent,
            },
            Request::CollectSecretData => Response::Collected(calculate_secret_hash(&self.data)),
            Request::CreateSecret => {
                self.secret = Some(create_k8s_secret(&self.rsecret, &self.data));
                Response::Done
            }
            Request::PatchSecret => {
                let secret = self.secret.as_mut().unwrap();
                let patch = update_k8s_secret(secret, &self.data);
                let mut content = secret.data.clone().unwrap_or_else(SecretMap::new);
                let mut kept = SecretMap::new();
                for entry in content.entries() {
                    if !patch.removed.contains(&entry.key) {
                        kept.insert(entry.key.clone(), entry.value.clone());
                    }
                }
                content = kept;
                for entry in patch.data.entries() {
                    content.insert(entry.key.clone(), entry.value.clone());
                }
                secret.data = Some(content);
                let mut labels = secret.metadata.labels.clone().unwrap_or_else(Labels::new);
                labels.insert("hash_id".to_string(), patch.hash_id.clone());
                secret.metadata.labels = Some(labels);
                Response::Done
            }
            Request::DeleteSecret => {
                self.secret = None;
                Response::Done
            }
        }
    }

    /// Runs one whole reconciliation of the resource as it was at the start.
    fn run(&mut self) -> ReconcileState {
        let observed = self.rsecret.clone();
        let mut state = ReconcileState::Start;
        let mut response = None;
        for _ in 0..16 {
            let (next, request) = reconcile(&observed, state, response);
            state = next;
            match request {
                None => return state,
                Some(request) => response = Some(self.perform(request)),
            }
        }
        panic!("reconciliation does not end");
    }

    fn count(&self, request: Request) -> usize {
        self.log.iter().filter(|r| **r == request).count()
    }
}

fn map_of(pairs: &[(&str, &[u8])]) -> SecretMap {
    let mut m = SecretMap::new();
    for (k, v) in pairs {
        m.insert(k.to_string(), v.to_vec());
    }
    m
}

#[test]
fn determine_action_returns_create_when_no_finalizer() {
    let rsecret = base_rsecret();
    assert_eq!(determine_action(&rsecret), RSecretAction::Create);
}

#[test]
fn determine_action_returns_update_when_finalizer_present() {
    let mut rsecret = base_rsecret();
    rsecret.metadata.finalizers = Some(vec!["rsecrets.jerry153fish.com/finalizer".into()]);
    assert_eq!(determine_action(&rsecret), RSecretAction::Update);
}

#[test]
fn determine_action_returns_delete_when_deletion_timestamp_set() {
    let mut rsecret = base_rsecret();
    rsecret.metadata.deletion_timestamp = Some(1_700_000_000);
    assert_eq!(determine_action(&rsecret), RSecretAction::Delete);
}

#[test]
fn determine_action_returns_create_when_finalizer_list_is_empty() {
    let mut rsecret = base_rsecret();
    rsecret.metadata.finalizers = Some(vec![]);
    assert_eq!(determine_action(&rsecret), RSecretAction::Create);
}

#[test]
fn determine_action_returns_delete_with_timestamp_and_finalizer() {
    let mut rsecret = base_rsecret();
    rsecret.metadata.finalizers = Some(vec!["rsecrets.jerry153fish.com/finalizer".into()]);
    rsecret.metadata.deletion_timestamp = Some(0);
    assert_eq!(determine_action(&rsecret), RSecretAction::Delete);
}

#[test]
fn classify_truth_table() {
    assert_eq!(classify(false, false), RSecretAction::Create);
    assert_eq!(classify(false, true), RSecretAction::Update);
    assert_eq!(classify(true, true), RSecretAction::Delete);
    assert_eq!(classify(true, false), RSecretAction::Delete);
}

#[test]
fn create_flow_asks_guard_collect_create() {
    let a = RSecretAction::Create;
    let (s, r) = reconcile_step(a, ReconcileState::Start, None);
    assert_eq!((s, r), (ReconcileState::Guarding, Some(Request::AddFinalizer)));
    let (s, r) = reconcile_step(a, s, Some(Response::Done));
    assert_eq!((s, r), (ReconcileState::Collecting, Some(Request::CollectSecretData)));
    let (s, r) = reconcile_step(a, s, Some(Response::Collected(5)));
    assert_eq!((s, r), (ReconcileState::Creating, Some(Request::CreateSecret)));
    let (s, r) = reconcile_step(a, s, Some(Response::Done));
    assert_eq!((s, r), (ReconcileState::Finished(Schedule::Requeue(20)), None));
    let (s, r) = reconcile_step(a, s, Some(Response::Done));
    assert_eq!((s, r), (ReconcileState::Finished(Schedule::Requeue(20)), None));
    assert_eq!(REQUEUE_SECONDS, 20);
}

#[test]
fn update_with_matching_fingerprint_performs_no_patch() {
    let a = RSecretAction::Update;
    let (s, r) = reconcile_step(a, ReconcileState::Start, None);
    assert_eq!((s, r), (ReconcileState::Finding, Some(Request::GetSecret)));
    let (s, r) = reconcile_step(a, s, Some(Response::SecretFound(Some(42))));
    assert_eq!((s, r), (ReconcileState::Comparing(Some(42)), Some(Request::CollectSecretData)));
    let (s, r) = reconcile_step(a, s, Some(Response::Collected(42)));
    assert_eq!((s, r), (ReconcileState::Finished(Schedule::Requeue(20)), None));
}

#[test]
fn update_with_other_fingerprint_performs_one_patch() {
    let a = RSecretAction::Update;
    let (s, _) = reconcile_step(a, ReconcileState::Start, None);
    let (s, _) = reconcile_step(a, s, Some(Response::SecretFound(Some(42))));
    let (s, r) = reconcile_step(a, s, Some(Response::Collected(99)));
    assert_eq!((s, r), (ReconcileState::Patching, Some(Request::PatchSecret)));
    let (s, r) = reconcile_step(a, s, Some(Response::Done));
    assert_eq!((s, r), (ReconcileState::Finished(Schedule::Requeue(20)), None));
}

#[test]
fn update_without_recorded_fingerprint_patches() {
    let a = RSecretAction::Update;
    let (s, _) = reconcile_step(a, ReconcileState::Start, None);
    let (s, _) = reconcile_step(a, s, Some(Response::SecretFound(None)));
    let (s, r) = reconcile_step(a, s, Some(Response::Collected(0)));
    assert_eq!((s, r), (ReconcileState::Patching, Some(Request::PatchSecret)));
}

#[test]
fn update_of_a_missing_target_goes_on_as_create() {
    let a = RSecretAction::Update;
    let (s, _) = reconcile_step(a, ReconcileState::Start, None);
    let (s, r) = reconcile_step(a, s, Some(Response::SecretAbsent));
    assert_eq!((s, r), (ReconcileState::Guarding, Some(Request::AddFinalizer)));
}

#[test]
fn delete_flow_removes_target_then_releases() {
    let a = RSecretAction::Delete;
    let (s, r) = reconcile_step(a, ReconcileState::Start, None);
    assert_eq!((s, r), (ReconcileState::FindingDoomed, Some(Request::GetSecret)));
    let (s, r) = reconcile_step(a, s, Some(Response::SecretFound(None)));
    assert_eq!((s, r), (ReconcileState::Deleting, Some(Request::DeleteSecret)));
    let (s, r) = reconcile_step(a, s, Some(Response::Done));
    assert_eq!((s, r), (ReconcileState::Releasing, Some(Request::RemoveFinalizer)));
    let (s, r) = reconcile_step(a, s, Some(Response::Done));
    assert_eq!((s, r), (ReconcileState::Finished(Schedule::AwaitChange), None));
}

#[test]
fn delete_of_an_absent_target_is_no_error() {
    let a = RSecretAction::Delete;
    let (s, _) = reconcile_step(a, ReconcileState::Start, None);
    let (s, r) = reconcile_step(a, s, Some(Response::SecretAbsent));
    assert_eq!((s, r), (ReconcileState::Releasing, Some(Request::RemoveFinalizer)));
}

#[test]
fn platform_failure_fails_the_reconciliation() {
    let waiting = [
        ReconcileState::Guarding,
        ReconcileState::Collecting,
        ReconcileState::Creating,
        ReconcileState::Finding,
        ReconcileState::Comparing(Some(1)),
        ReconcileState::Patching,
        ReconcileState::FindingDoomed,
        ReconcileState::Deleting,
        ReconcileState::Releasing,
    ];
    for action in [RSecretAction::Create, RSecretAction::Update, RSecretAction::Delete] {
        for state in waiting {
            assert_eq!(
                reconcile_step(action, state, Some(Response::Failed)),
                (ReconcileState::Failed, None)
            );
            assert_eq!(reconcile_step(action, state, None), (ReconcileState::Failed, None));
        }
        assert_eq!(
            reconcile_step(action, ReconcileState::Failed, Some(Response::Done)),
            (ReconcileState::Failed, None)
        );
    }
    assert_eq!(
        reconcile_step(RSecretAction::Create, ReconcileState::Creating, Some(Response::Collected(1))),
        (ReconcileState::Failed, None)
    );
}

#[test]
fn error_policy_counts_and_backs_off_five_minutes() {
    let mut metrics = Metrics::new();
    assert_eq!(error_policy(&mut metrics), Schedule::Requeue(300));
    assert_eq!(error_policy(&mut metrics), Schedule::Requeue(ERROR_REQUEUE_SECONDS));
    assert_eq!(metrics.failures, 2);
    assert_eq!(metrics.reconciliations, 0);
}

#[test]
fn counters_count_and_do_not_wrap() {
    let mut metrics = register_custom_metrics();
    assert_eq!(metrics, Metrics { reconciliations: 0, failures: 0 });
    metrics.record_reconciliation();
    metrics.record_reconciliation();
    metrics.record_failure();
    assert_eq!(metrics, Metrics { reconciliations: 2, failures: 1 });
    let mut full = Metrics { reconciliations: u64::MAX, failures: u64::MAX };
    full.record_reconciliation();
    full.record_failure();
    assert_eq!(full, Metrics { reconciliations: u64::MAX, failures: u64::MAX });
    assert_eq!(State::new(17).last_event, 17);
}

#[test]
fn finalizer_lifecycle_create_then_delete() {
    let data = map_of(&[("k", b"v")]);
    let mut platform = FakePlatform::new(base_rsecret(), None, data);
    assert_eq!(determine_action(&platform.rsecret), RSecretAction::Create);
    assert_eq!(platform.run(), ReconcileState::Finished(Schedule::Requeue(20)));
    assert_eq!(
        platform.rsecret.metadata.finalizers,
        Some(vec!["rsecrets.jerry153fish.com/finalizer".to_string()])
    );
    assert!(platform.secret.is_some());
    assert_eq!(
        platform.log,
        vec![Request::AddFinalizer, Request::CollectSecretData, Request::CreateSecret]
    );

    platform.rsecret.metadata.deletion_timestamp = Some(1_700_000_000);
    assert_eq!(determine_action(&platform.rsecret), RSecretAction::Delete);
    assert_eq!(platform.run(), ReconcileState::Finished(Schedule::AwaitChange));
    assert_eq!(platform.rsecret.metadata.finalizers, Some(vec![]));
    assert!(platform.secret.is_none());
}

#[test]
fn idempotent_reconciliation_second_update_patches_nothing() {
    let mut rsecret = base_rsecret();
    rsecret.metadata.name = Some("example".to_string());
    rsecret.metadata.finalizers = Some(vec!["rsecrets.jerry153fish.com/finalizer".into()]);
    let stale = create_k8s_secret(&rsecret, &map_of(&[("k", b"old"), ("gone", b"x")]));
    let data = map_of(&[("k", b"new"), ("more", b"y")]);
    let mut platform = FakePlatform::new(rsecret, Some(stale), data);

    assert_eq!(platform.run(), ReconcileState::Finished(Schedule::Requeue(20)));
    assert_eq!(platform.count(Request::PatchSecret), 1);
    let secret = platform.secret.as_ref().unwrap();
    let content = secret.data.as_ref().unwrap();
    assert_eq!(content.len(), 2);
    assert_eq!(content.get("k").unwrap().as_slice(), b"new");
    assert_eq!(content.get("more").unwrap().as_slice(), b"y");
    assert_eq!(get_hash_id(secret), Some(calculate_secret_hash(&platform.data)));
    assert_eq!(secret.metadata.labels.as_ref().unwrap().get("app"), Some(&"example".to_string()));

    platform.log.clear();
    assert_eq!(platform.run(), ReconcileState::Finished(Schedule::Requeue(20)));
    assert_eq!(platform.count(Request::PatchSecret), 0);
    assert_eq!(platform.count(Request::CreateSecret), 0);
    assert_eq!(platform.log, vec![Request::GetSecret, Request::CollectSecretData]);
}

#[test]
fn update_recreates_a_target_deleted_out_of_band() {
    let mut rsecret = base_rsecret();
    rsecret.metadata.finalizers = Some(vec!["rsecrets.jerry153fish.com/finalizer".into()]);
    let mut platform = FakePlatform::new(rsecret, None, map_of(&[("k", b"v")]));
    assert_eq!(platform.run(), ReconcileState::Finished(Schedule::Requeue(20)));
    assert_eq!(
        platform.log,
        vec![
            Request::GetSecret,
            Request::AddFinalizer,
            Request::CollectSecretData,
            Request::CreateSecret
        ]
    );
    assert!(platform.secret.is_some());
}

#[test]
fn existing_target_with_label_42_is_patched_only_on_mismatch() {
    let mut rsecret = base_rsecret();
    rsecret.metadata.finalizers = Some(vec!["rsecrets.jerry153fish.com/finalizer".into()]);
    let data = map_of(&[("k", b"v")]);
    let mut labels = Labels::new();
    labels.insert("hash_id".into(), "42".into());
    let existing = Secret {
        metadata: ObjectMeta { labels: Some(labels), ..ObjectMeta::default() },
        ..Secret::default()
    };
    assert_eq!(get_hash_id(&existing), Some(42));

    // The newly assembled map has the fingerprint 42: no patch.
    let a = determine_action(&rsecret);
    let (s, _) = reconcile(&rsecret, ReconcileState::Start, None);
    let (s, _) = reconcile(&rsecret, s, Some(Response::SecretFound(get_hash_id(&existing))));
    assert_eq!(
        reconcile_step(a, s, Some(Response::Collected(42))),
        (ReconcileState::Finished(Schedule::Requeue(20)), None)
    );
    // It has the fingerprint 99: one patch, with the new content and label.
    assert_eq!(
        reconcile_step(a, s, Some(Response::Collected(99))),
        (ReconcileState::Patching, Some(Request::PatchSecret))
    );
    let patch = update_k8s_secret(&existing, &data);
    assert_eq!(patch.data.get("k").unwrap().as_slice(), b"v");
    assert_eq!(patch.hash_id, calculate_secret_hash(&data).to_string());
}

#[test]
fn guard_and_release_are_idempotent() {
    let mut rsecret = base_rsecret();
    let guard = "rsecrets.jerry153fish.com/finalizer".to_string();
    assert!(!finalizer::has_finalizer(&rsecret));
    assert_eq!(finalizer::add(&rsecret), vec![guard.clone()]);
    rsecret.metadata.finalizers = Some(finalizer::add(&rsecret));
    assert!(finalizer::has_finalizer(&rsecret));
    assert_eq!(finalizer::add(&rsecret), vec![guard.clone()]);

    rsecret.metadata.finalizers = Some(vec!["other".to_string(), guard.clone()]);
    assert_eq!(finalizer::add(&rsecret), vec!["other".to_string(), guard.clone()]);
    rsecret.metadata.finalizers = Some(vec!["other".to_string()]);
    assert_eq!(finalizer::add(&rsecret), vec![guard.clone()]);

    assert_eq!(finalizer::delete(&rsecret), Vec::<String>::new());
    rsecret.metadata.finalizers = Some(finalizer::delete(&rsecret));
    assert_eq!(finalizer::delete(&rsecret), Vec::<String>::new());
    rsecret.metadata.finalizers = None;
    assert_eq!(finalizer::delete(&rsecret), Vec::<String>::new());
}
