use std::collections::hash_map::DefaultHasher;
use std::hash::{Hash, Hasher};
use std::sync::Arc;

use openshell::cluster::{
    bundle_at, bundle_revision, get_cluster_inference, resolve_inference_bundle,
    resolve_managed_cluster_route, set_cluster_inference, upsert_cluster_inference_route,
    GetInferenceBundleResponse, RouteFetch,
};
use openshell::inference::{
    find_provider_api_key, find_provider_config_value, profile_for, resolve_provider_route,
    ClusterInferenceConfig, InferenceProfile, InferenceRoute, InferenceService, Provider,
    ResolvedRoute, ServerState, Status, StatusCode, CLUSTER_INFERENCE_ROUTE_NAME,
};
use openshell::string_map::StringMap;

fn strings(v: &[&str]) -> Vec<String> {
    v.iter().map(|s| s.to_string()).collect()
}

fn map(v: &[(&str, &str)]) -> StringMap {
    let mut m = StringMap::new();
    for (k, x) in v {
        m.insert(k.to_string(), x.to_string());
    }
    m
}

fn copy_map(m: &StringMap) -> StringMap {
    let mut out = StringMap::new();
    for (k, v) in m.entries() {
        out.insert(k.clone(), v.clone());
    }
    out
}

fn copy_provider(p: &Provider) -> Provider {
    Provider {
        id: p.id.clone(),
        name: p.name.clone(),
        provider_type: p.provider_type.clone(),
        credentials: copy_map(&p.credentials),
        config: copy_map(&p.config),
    }
}

fn copy_route(r: &InferenceRoute) -> InferenceRoute {
    InferenceRoute {
        id: r.id.clone(),
        name: r.name.clone(),
        config: r.config.as_ref().map(|c| ClusterInferenceConfig {
            provider_name: c.provider_name.clone(),
            model_id: c.model_id.clone(),
        }),
        version: r.version,
    }
}

fn profiles() -> Vec<InferenceProfile> {
    vec![
        InferenceProfile {
            provider_type: "openai".to_string(),
            default_base_url: "https://api.openai.com/v1".to_string(),
            protocols: strings(&[
                "openai_chat_completions",
                "openai_completions",
                "openai_responses",
                "model_discovery",
            ]),
            credential_key_names: strings(&["OPENAI_API_KEY"]),
            base_url_config_keys: strings(&["OPENAI_BASE_URL"]),
        },
        InferenceProfile {
            provider_type: "blank".to_string(),
            default_base_url: "  ".to_string(),
            protocols: Vec::new(),
            credential_key_names: Vec::new(),
            base_url_config_keys: Vec::new(),
        },
    ]
}

struct Store {
    providers: Vec<Provider>,
    routes: Vec<InferenceRoute>,
}

impl Store {
    fn new() -> Store {
        Store { providers: Vec::new(), routes: Vec::new() }
    }

    fn put_provider(&mut self, p: &Provider) {
        self.providers.retain(|q| q.id != p.id);
        self.providers.push(copy_provider(p));
    }

    fn put_route(&mut self, r: &InferenceRoute) {
        self.routes.retain(|q| q.object_id() != r.object_id());
        self.routes.push(copy_route(r));
    }

    fn provider(&self, name: &str) -> Result<Option<Provider>, String> {
        Ok(self.providers.iter().find(|p| p.name == name).map(copy_provider))
    }

    fn route(&self, name: &str) -> Result<Option<InferenceRoute>, String> {
        Ok(self.routes.iter().find(|r| r.object_name() == name).map(copy_route))
    }

    fn upsert(&mut self, provider_name: &str, model_id: &str) -> Result<InferenceRoute, Status> {
        let fetch = upsert_cluster_inference_route(provider_name, model_id)?;
        let provider = self.provider(&fetch.provider_name);
        let next = fetch.fetched(provider, &profiles())?;
        let next = next.fetched(self.route(CLUSTER_INFERENCE_ROUTE_NAME))?;
        let route = copy_route(&next.route);
        self.put_route(&route);
        next.persisted(Ok(()))
    }

    fn resolve(&self) -> Result<Option<ResolvedRoute>, Status> {
        match resolve_managed_cluster_route(self.route(CLUSTER_INFERENCE_ROUTE_NAME))? {
            None => Ok(None),
            Some(fetch) => {
                let provider = self.provider(&fetch.provider_name);
                fetch.fetched(provider, &profiles()).map(Some)
            }
        }
    }

    fn bundle(&self) -> Result<GetInferenceBundleResponse, Status> {
        Ok(resolve_inference_bundle(self.resolve()?))
    }
}

fn make_route(name: &str, provider_name: &str, model_id: &str) -> InferenceRoute {
    InferenceRoute {
        id: format!("id-{name}"),
        name: name.to_string(),
        config: Some(ClusterInferenceConfig {
            provider_name: provider_name.to_string(),
            model_id: model_id.to_string(),
        }),
        version: 1,
    }
}

fn make_provider(name: &str, provider_type: &str, key_name: &str, key_value: &str) -> Provider {
    Provider {
        id: format!("provider-{name}"),
        name: name.to_string(),
        provider_type: provider_type.to_string(),
        credentials: map(&[(key_name, key_value)]),
        config: StringMap::new(),
    }
}

fn refused<T: std::fmt::Debug>(r: Result<T, Status>) -> (StatusCode, String) {
    let s = r.expect_err("should be refused");
    (s.code, s.message)
}

#[test]
fn upsert_cluster_route_creates_and_increments_version() {
    let mut store = Store::new();

    let provider = make_provider("openai-dev", "openai", "OPENAI_API_KEY", "sk-test");
    store.put_provider(&provider);

    let first = store.upsert("openai-dev", "gpt-4o").expect("first set should succeed");
    assert_eq!(first.name, CLUSTER_INFERENCE_ROUTE_NAME);
    assert_eq!(first.version, 1);

    let second = store.upsert("openai-dev", "gpt-4.1").expect("second set should succeed");
    assert_eq!(second.version, 2);
    assert_eq!(second.id, first.id);

    let config = second.config.as_ref().expect("config");
    assert_eq!(config.provider_name, "openai-dev");
    assert_eq!(config.model_id, "gpt-4.1");
}

#[test]
fn resolve_managed_route_returns_none_when_missing() {
    let store = Store::new();

    let route = store.resolve().expect("resolution should not fail");
    assert!(route.is_none());
}

#[test]
fn bundle_happy_path_returns_managed_route() {
    let mut store = Store::new();

    let provider = make_provider("openai-dev", "openai", "OPENAI_API_KEY", "sk-test");
    store.put_provider(&provider);

    let route = make_route(CLUSTER_INFERENCE_ROUTE_NAME, "openai-dev", "mock/model-a");
    store.put_route(&route);

    let resp = store.bundle().expect("bundle should resolve");

    assert_eq!(resp.routes.len(), 1);
    assert_eq!(resp.routes[0].name, CLUSTER_INFERENCE_ROUTE_NAME);
    assert_eq!(resp.routes[0].model_id, "mock/model-a");
    assert_eq!(resp.routes[0].provider_type, "openai");
    assert_eq!(resp.routes[0].api_key, "sk-test");
    assert_eq!(resp.routes[0].base_url, "https://api.openai.com/v1");
    assert!(!resp.revision.is_empty());
    assert!(resp.generated_at_ms > 0);
}

#[test]
fn bundle_without_cluster_route_returns_empty_routes() {
    let store = Store::new();

    let resp = store.bundle().expect("bundle should resolve");
    assert!(resp.routes.is_empty());
}

#[test]
fn bundle_revision_is_stable_for_same_route() {
    let mut store = Store::new();

    let provider = make_provider("openai-dev", "openai", "OPENAI_API_KEY", "sk-test");
    store.put_provider(&provider);

    let route = make_route(CLUSTER_INFERENCE_ROUTE_NAME, "openai-dev", "mock/model-stable");
    store.put_route(&route);

    let resp1 = store.bundle().expect("first resolve");
    let resp2 = store.bundle().expect("second resolve");

    assert_eq!(
        resp1.revision, resp2.revision,
        "same route should produce same revision"
    );
}

#[test]
fn resolve_managed_route_derives_from_provider() {
    let mut store = Store::new();

    let provider = Provider {
        id: "provider-1".to_string(),
        name: "openai-dev".to_string(),
        provider_type: "openai".to_string(),
        credentials: map(&[("OPENAI_API_KEY", "sk-test")]),
        config: map(&[("OPENAI_BASE_URL", "https://station.example.com/v1")]),
    };
    store.put_provider(&provider);

    let route = InferenceRoute {
        id: "r-1".to_string(),
        name: CLUSTER_INFERENCE_ROUTE_NAME.to_string(),
        config: Some(ClusterInferenceConfig {
            provider_name: "openai-dev".to_string(),
            model_id: "test/model".to_string(),
        }),
        version: 7,
    };
    store.put_route(&route);

    let managed = store
        .resolve()
        .expect("route should resolve")
        .expect("managed route should exist");

    assert_eq!(managed.base_url, "https://station.example.com/v1");
    assert_eq!(managed.api_key, "sk-test");
    assert_eq!(managed.provider_type, "openai");
    assert_eq!(
        managed.protocols,
        vec![
            "openai_chat_completions".to_string(),
            "openai_completions".to_string(),
            "openai_responses".to_string(),
            "model_discovery".to_string(),
        ]
    );
}

#[test]
fn resolve_managed_route_reflects_provider_key_rotation() {
    let mut store = Store::new();

    let provider = make_provider("openai-dev", "openai", "OPENAI_API_KEY", "sk-initial");
    store.put_provider(&provider);

    let route = make_route(CLUSTER_INFERENCE_ROUTE_NAME, "openai-dev", "test/model");
    store.put_route(&route);

    let first = store
        .resolve()
        .expect("route should resolve")
        .expect("managed route should exist");
    assert_eq!(first.api_key, "sk-initial");

    let rotated_provider = Provider {
        id: provider.id,
        name: provider.name,
        provider_type: provider.provider_type,
        credentials: map(&[("OPENAI_API_KEY", "sk-rotated")]),
        config: provider.config,
    };
    store.put_provider(&rotated_provider);

    let second = store
        .resolve()
        .expect("route should resolve")
        .expect("managed route should exist");
    assert_eq!(second.api_key, "sk-rotated");
}

#[test]
fn a_first_route_gets_a_random_id() {
    let mut store = Store::new();
    store.put_provider(&make_provider("p", "openai", "OPENAI_API_KEY", "k"));
    let id = store.upsert("p", "m").unwrap().id;
    assert_eq!(id.len(), 36);
    let parsed = uuid::Uuid::parse_str(&id).unwrap();
    assert_eq!(parsed.get_version_num(), 4);
    assert_eq!(parsed.to_string(), id);
    let mut other = Store::new();
    other.put_provider(&make_provider("p", "openai", "OPENAI_API_KEY", "k"));
    assert_ne!(other.upsert("p", "m").unwrap().id, id);
}

#[test]
fn arguments_are_required() {
    assert_eq!(
        refused(upsert_cluster_inference_route(" \t", "m")),
        (StatusCode::InvalidArgument, "provider_name is required".to_string())
    );
    assert_eq!(
        refused(upsert_cluster_inference_route("p", "\n")),
        (StatusCode::InvalidArgument, "model_id is required".to_string())
    );
}

#[test]
fn setting_a_route_reports_what_is_wrong() {
    let fetch = || upsert_cluster_inference_route("p", "m").unwrap();
    assert_eq!(
        refused(fetch().fetched(Err("down".to_string()), &profiles())),
        (StatusCode::Internal, "fetch provider failed: down".to_string())
    );
    assert_eq!(
        refused(fetch().fetched(Ok(None), &profiles())),
        (StatusCode::FailedPrecondition, "provider 'p' not found".to_string())
    );
    let config = || RouteFetch {
        config: ClusterInferenceConfig {
            provider_name: "p".to_string(),
            model_id: "m".to_string(),
        },
    };
    assert_eq!(
        refused(config().fetched(Err("down".to_string()))),
        (StatusCode::Internal, "fetch route failed: down".to_string())
    );
    let persist = config().fetched_with_id(Ok(None), "id-1".to_string()).unwrap();
    assert_eq!(persist.route.id, "id-1");
    assert_eq!(
        refused(persist.persisted(Err("full".to_string()))),
        (StatusCode::Internal, "persist route failed: full".to_string())
    );
    let mut last = make_route("x", "p", "m");
    last.version = u64::MAX;
    let persist = config().fetched_with_id(Ok(Some(last)), "unused".to_string()).unwrap();
    assert_eq!(persist.route.version, u64::MAX);
    assert_eq!(persist.route.id, "id-x");
    assert_eq!(persist.route.name, "x");
}

#[test]
fn providers_that_cannot_be_used_are_refused() {
    let refuse = |p: &Provider| refused(resolve_provider_route(p, &profiles()));
    assert_eq!(
        refuse(&make_provider("p", " Acme ", "K", "v")),
        (
            StatusCode::InvalidArgument,
            "provider 'p' has unsupported type 'acme' for cluster inference (supported: openai, anthropic, nvidia)".to_string()
        )
    );
    assert_eq!(
        refuse(&make_provider("p", "openai", "OPENAI_API_KEY", "  ")),
        (
            StatusCode::InvalidArgument,
            "provider 'p' has no usable API key credential".to_string()
        )
    );
    assert_eq!(
        refuse(&make_provider("p", "blank", "K", "v")),
        (StatusCode::InvalidArgument, "provider 'p' resolved to empty base_url".to_string())
    );
    let ok = resolve_provider_route(&make_provider("p", " OpenAI ", "ZZZ", "v"), &profiles());
    let ok = ok.unwrap();
    assert_eq!(ok.provider_type, "openai");
    assert_eq!(ok.api_key, "v");
}

#[test]
fn keys_are_looked_for_in_order() {
    let mut p = make_provider("p", "openai", "OPENAI_API_KEY", " ");
    p.credentials.insert("b".to_string(), "second".to_string());
    p.credentials.insert("a".to_string(), "first".to_string());
    p.credentials.insert("A".to_string(), " ".to_string());
    assert_eq!(
        find_provider_api_key(&p, &strings(&["OPENAI_API_KEY"])),
        Some("first".to_string())
    );
    assert_eq!(find_provider_api_key(&p, &strings(&["b", "a"])), Some("second".to_string()));
    assert_eq!(find_provider_api_key(&make_provider("p", "t", "k", ""), &Vec::new()), None);
    p.config.insert("URL".to_string(), " u ".to_string());
    assert_eq!(
        find_provider_config_value(&p, &strings(&["NONE", "URL"])),
        Some(" u ".to_string())
    );
    assert_eq!(find_provider_config_value(&p, &strings(&["NONE"])), None);
}

#[test]
fn the_first_profile_of_a_type_counts() {
    let ps = profiles();
    assert_eq!(profile_for(&ps, "openai").unwrap().default_base_url, "https://api.openai.com/v1");
    assert!(profile_for(&ps, "OpenAI").is_none());
}

#[test]
fn reading_the_route_reports_what_is_wrong() {
    assert_eq!(
        refused(get_cluster_inference(Err("down".to_string()))),
        (StatusCode::Internal, "fetch route failed: down".to_string())
    );
    assert_eq!(
        refused(get_cluster_inference(Ok(None))),
        (
            StatusCode::NotFound,
            "cluster inference is not configured; run 'nemoclaw cluster inference set --provider <name> --model <id>'".to_string()
        )
    );
    assert_eq!(
        refused(get_cluster_inference(Ok(Some(make_route("r", " ", "m"))))),
        (
            StatusCode::FailedPrecondition,
            "managed route is missing provider/model metadata".to_string()
        )
    );
    let mut bare = make_route("r", "p", "m");
    bare.config = None;
    assert_eq!(
        refused(set_cluster_inference(&bare)),
        (StatusCode::Internal, "managed route missing config".to_string())
    );
    assert_eq!(
        refused(get_cluster_inference(Ok(Some(bare)))),
        (StatusCode::Internal, "managed route missing config".to_string())
    );
}

#[test]
fn what_was_set_is_read_back() {
    let mut store = Store::new();
    store.put_provider(&make_provider("p", "openai", "OPENAI_API_KEY", "k"));
    for version in 1..4u64 {
        let route = store.upsert("p", &format!("m{version}")).unwrap();
        let told = set_cluster_inference(&route).unwrap();
        let read = get_cluster_inference(store.route(CLUSTER_INFERENCE_ROUTE_NAME)).unwrap();
        assert_eq!(
            (told.provider_name, told.model_id, told.version),
            ("p".to_string(), format!("m{version}"), version)
        );
        assert_eq!(
            (read.provider_name, read.model_id, read.version),
            ("p".to_string(), format!("m{version}"), version)
        );
    }
}

#[test]
fn resolving_reports_what_is_wrong() {
    assert_eq!(
        refused(resolve_managed_cluster_route(Err("down".to_string()))),
        (StatusCode::Internal, "fetch route failed: down".to_string())
    );
    assert_eq!(
        refused(resolve_managed_cluster_route(Ok(Some(make_route("r", " ", "m"))))),
        (
            StatusCode::FailedPrecondition,
            "managed route is missing provider_name".to_string()
        )
    );
    assert_eq!(
        refused(resolve_managed_cluster_route(Ok(Some(make_route("r", "p", " "))))),
        (StatusCode::FailedPrecondition, "managed route is missing model_id".to_string())
    );
    let mut bare = make_route("r", "p", "m");
    bare.config = None;
    assert!(resolve_managed_cluster_route(Ok(Some(bare))).unwrap().is_none());
    let fetch =
        || resolve_managed_cluster_route(Ok(Some(make_route("r", "p", "m")))).unwrap().unwrap();
    assert_eq!(
        refused(fetch().fetched(Err("down".to_string()), &profiles())),
        (StatusCode::Internal, "fetch provider failed: down".to_string())
    );
    assert_eq!(
        refused(fetch().fetched(Ok(None), &profiles())),
        (
            StatusCode::FailedPrecondition,
            "configured provider 'p' was not found".to_string()
        )
    );
}

fn resolved(model: &str) -> ResolvedRoute {
    ResolvedRoute {
        name: "inference.local".to_string(),
        base_url: "https://h/v1".to_string(),
        model_id: model.to_string(),
        api_key: "sk-é".to_string(),
        protocols: strings(&["a", "b"]),
        provider_type: "openai".to_string(),
    }
}

#[test]
fn the_revision_is_the_hash_that_std_computes() {
    let r = resolved("m");
    let mut hasher = DefaultHasher::new();
    r.name.hash(&mut hasher);
    r.base_url.hash(&mut hasher);
    r.model_id.hash(&mut hasher);
    r.api_key.hash(&mut hasher);
    r.protocols.hash(&mut hasher);
    r.provider_type.hash(&mut hasher);
    let expected = format!("{:016x}", hasher.finish());
    assert_eq!(bundle_revision(&Some(r)), expected);
    assert_eq!(bundle_revision(&None), format!("{:016x}", DefaultHasher::new().finish()));
    assert_ne!(bundle_revision(&Some(resolved("n"))), expected);
}

#[test]
fn a_bundle_carries_its_time() {
    let b = bundle_at(Some(resolved("m")), -5);
    assert_eq!(b.generated_at_ms, -5);
    assert_eq!(b.routes.len(), 1);
    assert_eq!(b.revision, bundle_revision(&Some(resolved("m"))));
}

#[test]
fn the_service_keeps_its_state() {
    let state = Arc::new(ServerState { profiles: profiles() });
    let service = InferenceService::new(state.clone());
    assert_eq!(service.profiles().len(), 2);
    assert_eq!(service.profiles()[0].provider_type, "openai");
    assert_eq!(InferenceRoute::object_type(), "inference_route");
}
