//! The managed inference route of a cluster: setting it, reading it, and the bundle of routes that
//! sandboxes fetch.
//!
//! Records live in a store that is asked over I/O. Each operation is cut into stages where it waits
//! for the store: a stage says what to ask, and takes the answer.

use std::collections::hash_map::DefaultHasher;
use std::hash::Hasher;
use std::time::SystemTime;

use vstd::prelude::*;
use vstd::std_specs::hash::DefaultHasherAdditionalSpecFns;
use vstd::utf8::encode_utf8;

use crate::clock;
use crate::inference::{
    self, ClusterInferenceConfig, ConfigView, InferenceProfile, InferenceRoute, ProfileView,
    Provider, ProviderView, ResolvedRoute, ResolvedView, RouteView, Status, StatusCode,
    CLUSTER_INFERENCE_ROUTE_NAME,
};
use crate::number;
use crate::text;

verus! {

// ---------------------------------------------------------------------------
// Ids
// ---------------------------------------------------------------------------

/// Whether `c` is a lower-case hexadecimal digit.
pub open spec fn is_hex_digit(c: char) -> bool {
    '0' <= c <= '9' || 'a' <= c <= 'f'
}

/// Whether `s` is the text of a random UUID: 32 hexadecimal digits in five groups, with the
/// version and the variant in their places.
pub open spec fn is_random_uuid(s: Seq<char>) -> bool {
    &&& s.len() == 36
    &&& forall|i: int|
        0 <= i < 36 ==> if i == 8 || i == 13 || i == 18 || i == 23 {
            #[trigger] s[i] == '-'
        } else {
            is_hex_digit(s[i])
        }
    &&& s[14] == '4'
    &&& s[19] == '8' || s[19] == '9' || s[19] == 'a' || s[19] == 'b'
}

/// `uuid::Uuid::new_v4` as text. Which one it is, is left to chance.
#[verifier::external_body]
fn fresh_id() -> (s: String)
    ensures
        is_random_uuid(s@),
{
    uuid::Uuid::new_v4().to_string()
}

// ---------------------------------------------------------------------------
// Setting the route
// ---------------------------------------------------------------------------

/// To do: fetch the provider of this name.
#[derive(Debug)]
pub struct ProviderFetch {
    pub provider_name: String,
    pub model_id: String,
}

/// To do: fetch the managed route.
#[derive(Debug)]
pub struct RouteFetch {
    pub config: ClusterInferenceConfig,
}

/// To do: persist this route.
#[derive(Debug)]
pub struct RoutePersist {
    pub route: InferenceRoute,
}

/// Why the arguments of a request to set the route are refused.
pub open spec fn argument_error(provider_name: Seq<char>, model_id: Seq<char>) -> Option<
    (StatusCode, Seq<char>),
> {
    if text::blank(provider_name) {
        Some((StatusCode::InvalidArgument, "provider_name is required"@))
    } else if text::blank(model_id) {
        Some((StatusCode::InvalidArgument, "model_id is required"@))
    } else {
        None
    }
}

/// The setting that a provider and a model lead to, or why they are refused.
pub open spec fn config_of(
    provider_name: Seq<char>,
    model_id: Seq<char>,
    answer: Result<Option<ProviderView>, Seq<char>>,
    profiles: Seq<ProfileView>,
) -> Result<ConfigView, (StatusCode, Seq<char>)> {
    match answer {
        Err(e) => Err((StatusCode::Internal, "fetch provider failed: "@ + e)),
        Ok(None) => Err(
            (
                StatusCode::FailedPrecondition,
                "provider '"@ + provider_name + "' not found"@,
            ),
        ),
        Ok(Some(p)) => match inference::provider_route_of(p, profiles) {
            Err(s) => Err(s),
            Ok(_) => Ok(ConfigView { provider_name: p.name, model_id }),
        },
    }
}

/// The route with a new setting: the next version of the stored one, or a first one with a fresh
/// id.
pub open spec fn next_route(existing: Option<RouteView>, config: ConfigView, id: Seq<char>) -> RouteView {
    match existing {
        Some(r) => RouteView {
            id: r.id,
            name: r.name,
            config: Some(config),
            version: if r.version < u64::MAX {
                (r.version + 1) as u64
            } else {
                u64::MAX
            },
        },
        None => RouteView {
            id,
            name: CLUSTER_INFERENCE_ROUTE_NAME@,
            config: Some(config),
            version: 1,
        },
    }
}

/// The route to persist, or that the stored one could not be read.
pub open spec fn route_to_persist(
    config: ConfigView,
    answer: Result<Option<RouteView>, Seq<char>>,
    id: Seq<char>,
) -> Result<RouteView, (StatusCode, Seq<char>)> {
    match answer {
        Err(e) => Err((StatusCode::Internal, "fetch route failed: "@ + e)),
        Ok(existing) => Ok(next_route(existing, config, id)),
    }
}

/// Begins to set the managed route.
pub fn upsert_cluster_inference_route(provider_name: &str, model_id: &str) -> (r: Result<
    ProviderFetch,
    Status,
>)
    ensures
        match r {
            Ok(next) => argument_error(provider_name@, model_id@) is None && next.provider_name@
                == provider_name@ && next.model_id@ == model_id@,
            Err(s) => argument_error(provider_name@, model_id@) == Some(s@),
        },
{
    if text::is_blank(provider_name) {
        return Err(inference::status(StatusCode::InvalidArgument, "provider_name is required"));
    }
    if text::is_blank(model_id) {
        return Err(inference::status(StatusCode::InvalidArgument, "model_id is required"));
    }
    Ok(ProviderFetch { provider_name: provider_name.to_owned(), model_id: model_id.to_owned() })
}

/// The setting that leads to a model of a provider.
pub fn build_cluster_inference_config(provider: &Provider, model_id: &str) -> (
    c: ClusterInferenceConfig)
    ensures
        c@ == (ConfigView { provider_name: provider@.name, model_id: model_id@ }),
{
    ClusterInferenceConfig { provider_name: provider.name.clone(), model_id: model_id.to_owned() }
}

impl ProviderFetch {
    /// Takes the provider. Its shape is checked here; endpoint and key are resolved from the record
    /// whenever a bundle is made.
    pub fn fetched(
        self,
        answer: Result<Option<Provider>, String>,
        profiles: &Vec<InferenceProfile>,
    ) -> (r: Result<RouteFetch, Status>)
        ensures
            match r {
                Ok(next) => config_of(
                    self.provider_name@,
                    self.model_id@,
                    inference::provider_answer(answer),
                    inference::profile_views(profiles@),
                ) == Ok::<ConfigView, (StatusCode, Seq<char>)>(next.config@),
                Err(s) => config_of(
                    self.provider_name@,
                    self.model_id@,
                    inference::provider_answer(answer),
                    inference::profile_views(profiles@),
                ) == Err::<ConfigView, (StatusCode, Seq<char>)>(s@),
            },
    {
        let provider = match answer {
            Err(e) => {
                return Err(inference::internal("fetch provider failed: ", e.as_str()));
            },
            Ok(None) => {
                return Err(
                    Status {
                        code: StatusCode::FailedPrecondition,
                        message: "provider '".to_owned().concat(
                            self.provider_name.as_str(),
                        ).concat("' not found"),
                    },
                );
            },
            Ok(Some(p)) => p,
        };
        match inference::resolve_provider_route(&provider, profiles) {
            Err(s) => Err(s),
            Ok(_) => Ok(
                RouteFetch {
                    config: build_cluster_inference_config(&provider, self.model_id.as_str()),
                },
            ),
        }
    }
}

impl RouteFetch {
    /// Takes the stored route, and an id for the case that there is none.
    pub fn fetched_with_id(self, answer: Result<Option<InferenceRoute>, String>, id: String) -> (r:
        Result<RoutePersist, Status>)
        ensures
            match r {
                Ok(next) => route_to_persist(self.config@, inference::route_answer(answer), id@)
                    == Ok::<RouteView, (StatusCode, Seq<char>)>(next.route@),
                Err(s) => route_to_persist(self.config@, inference::route_answer(answer), id@)
                    == Err::<RouteView, (StatusCode, Seq<char>)>(s@),
            },
    {
        match answer {
            Err(e) => Err(inference::internal("fetch route failed: ", e.as_str())),
            Ok(Some(existing)) => Ok(
                RoutePersist {
                    route: InferenceRoute {
                        id: existing.id,
                        name: existing.name,
                        config: Some(self.config),
                        version: existing.version.saturating_add(1),
                    },
                },
            ),
            Ok(None) => Ok(
                RoutePersist {
                    route: InferenceRoute {
                        id,
                        name: CLUSTER_INFERENCE_ROUTE_NAME.to_owned(),
                        config: Some(self.config),
                        version: 1,
                    },
                },
            ),
        }
    }

    /// Takes the stored route. A first route gets a random id.
    pub fn fetched(self, answer: Result<Option<InferenceRoute>, String>) -> (r: Result<
        RoutePersist,
        Status,
    >)
        ensures
            exists|id: Seq<char>|
                #![trigger is_random_uuid(id)]
                is_random_uuid(id) && match r {
                    Ok(next) => route_to_persist(self.config@, inference::route_answer(answer), id)
                        == Ok::<RouteView, (StatusCode, Seq<char>)>(next.route@),
                    Err(s) => route_to_persist(self.config@, inference::route_answer(answer), id)
                        == Err::<RouteView, (StatusCode, Seq<char>)>(s@),
                },
    {
        let id = fresh_id();
        let ghost drawn = id@;
        let r = self.fetched_with_id(answer, id);
        assert(is_random_uuid(drawn));
        r
    }
}

impl RoutePersist {
    /// Takes the outcome of persisting the route.
    pub fn persisted(self, outcome: Result<(), String>) -> (r: Result<InferenceRoute, Status>)
        ensures
            match (outcome, r) {
                (Ok(_), Ok(route)) => route@ == self.route@,
                (Err(e), Err(s)) => s@ == (StatusCode::Internal, "persist route failed: "@ + e@),
                _ => false,
            },
    {
        match outcome {
            Ok(_) => Ok(self.route),
            Err(e) => Err(inference::internal("persist route failed: ", e.as_str())),
        }
    }
}

// ---------------------------------------------------------------------------
// Answers to clients
// ---------------------------------------------------------------------------

/// What a client learns of the managed route.
#[derive(Debug)]
pub struct ClusterInference {
    pub provider_name: String,
    pub model_id: String,
    pub version: u64,
}

/// The contents of a [`ClusterInference`].
pub struct ClusterInferenceView {
    pub provider_name: Seq<char>,
    pub model_id: Seq<char>,
    pub version: u64,
}

impl View for ClusterInference {
    type V = ClusterInferenceView;

    open spec fn view(&self) -> ClusterInferenceView {
        ClusterInferenceView {
            provider_name: self.provider_name@,
            model_id: self.model_id@,
            version: self.version,
        }
    }
}

/// The answer to a request that set the route.
pub open spec fn set_answer(route: RouteView) -> Result<
    ClusterInferenceView,
    (StatusCode, Seq<char>),
> {
    match route.config {
        None => Err((StatusCode::Internal, "managed route missing config"@)),
        Some(c) => Ok(
            ClusterInferenceView {
                provider_name: c.provider_name,
                model_id: c.model_id,
                version: route.version,
            },
        ),
    }
}

/// The answer to a request for the route.
pub open spec fn get_answer(answer: Result<Option<RouteView>, Seq<char>>) -> Result<
    ClusterInferenceView,
    (StatusCode, Seq<char>),
> {
    match answer {
        Err(e) => Err((StatusCode::Internal, "fetch route failed: "@ + e)),
        Ok(None) => Err(
            (
                StatusCode::NotFound,
                "cluster inference is not configured; run 'nemoclaw cluster inference set --provider <name> --model <id>'"@,
            ),
        ),
        Ok(Some(route)) => match route.config {
            Some(c) if text::blank(c.provider_name) || text::blank(c.model_id) => Err(
                (
                    StatusCode::FailedPrecondition,
                    "managed route is missing provider/model metadata"@,
                ),
            ),
            _ => set_answer(route),
        },
    }
}

/// Answers a request that set the route.
pub fn set_cluster_inference(route: &InferenceRoute) -> (r: Result<ClusterInference, Status>)
    ensures
        inference::gives(r, set_answer(route@)),
{
    match &route.config {
        None => Err(inference::status(StatusCode::Internal, "managed route missing config")),
        Some(c) => Ok(
            ClusterInference {
                provider_name: c.provider_name.clone(),
                model_id: c.model_id.clone(),
                version: route.version,
            },
        ),
    }
}

/// Answers a request for the route, from what the store holds.
pub fn get_cluster_inference(answer: Result<Option<InferenceRoute>, String>) -> (r: Result<
    ClusterInference,
    Status,
>)
    ensures
        inference::gives(r, get_answer(inference::route_answer(answer))),
{
    let route = match answer {
        Err(e) => {
            return Err(inference::internal("fetch route failed: ", e.as_str()));
        },
        Ok(None) => {
            return Err(
                inference::status(
                    StatusCode::NotFound,
                    "cluster inference is not configured; run 'nemoclaw cluster inference set --provider <name> --model <id>'",
                ),
            );
        },
        Ok(Some(r)) => r,
    };
    if let Some(c) = &route.config {
        if text::is_blank(c.provider_name.as_str()) || text::is_blank(c.model_id.as_str()) {
            return Err(
                inference::status(
                    StatusCode::FailedPrecondition,
                    "managed route is missing provider/model metadata",
                ),
            );
        }
    }
    set_cluster_inference(&route)
}

// ---------------------------------------------------------------------------
// Resolving the route
// ---------------------------------------------------------------------------

/// To do: fetch the provider that the managed route leads to.
#[derive(Debug)]
pub struct ManagedProviderFetch {
    pub provider_name: String,
    pub model_id: String,
}

/// The setting of the stored route, if it has one, or why it cannot be used.
pub open spec fn managed_config(answer: Result<Option<RouteView>, Seq<char>>) -> Result<
    Option<ConfigView>,
    (StatusCode, Seq<char>),
> {
    match answer {
        Err(e) => Err((StatusCode::Internal, "fetch route failed: "@ + e)),
        Ok(None) => Ok(None),
        Ok(Some(route)) => match route.config {
            None => Ok(None),
            Some(c) => if text::blank(c.provider_name) {
                Err((StatusCode::FailedPrecondition, "managed route is missing provider_name"@))
            } else if text::blank(c.model_id) {
                Err((StatusCode::FailedPrecondition, "managed route is missing model_id"@))
            } else {
                Ok(Some(c))
            },
        },
    }
}

/// The route that a setting and its provider resolve to.
pub open spec fn managed_route(
    config: ConfigView,
    answer: Result<Option<ProviderView>, Seq<char>>,
    profiles: Seq<ProfileView>,
) -> Result<ResolvedView, (StatusCode, Seq<char>)> {
    match answer {
        Err(e) => Err((StatusCode::Internal, "fetch provider failed: "@ + e)),
        Ok(None) => Err(
            (
                StatusCode::FailedPrecondition,
                "configured provider '"@ + config.provider_name + "' was not found"@,
            ),
        ),
        Ok(Some(p)) => match inference::provider_route_of(p, profiles) {
            Err(s) => Err(s),
            Ok(r) => Ok(
                ResolvedView {
                    name: CLUSTER_INFERENCE_ROUTE_NAME@,
                    base_url: r.base_url,
                    model_id: config.model_id,
                    api_key: r.api_key,
                    protocols: r.protocols,
                    provider_type: r.provider_type,
                },
            ),
        },
    }
}

/// Takes the stored route. `Ok(None)`: there is no managed route to resolve.
pub fn resolve_managed_cluster_route(answer: Result<Option<InferenceRoute>, String>) -> (r: Result<
    Option<ManagedProviderFetch>,
    Status,
>)
    ensures
        match r {
            Ok(Some(next)) => managed_config(inference::route_answer(answer)) == Ok::<
                Option<ConfigView>,
                (StatusCode, Seq<char>),
            >(Some(ConfigView { provider_name: next.provider_name@, model_id: next.model_id@ })),
            Ok(None) => managed_config(inference::route_answer(answer)) == Ok::<
                Option<ConfigView>,
                (StatusCode, Seq<char>),
            >(None),
            Err(s) => managed_config(inference::route_answer(answer)) == Err::<
                Option<ConfigView>,
                (StatusCode, Seq<char>),
            >(s@),
        },
{
    let route = match answer {
        Err(e) => {
            return Err(inference::internal("fetch route failed: ", e.as_str()));
        },
        Ok(None) => {
            return Ok(None);
        },
        Ok(Some(r)) => r,
    };
    let config = match route.config {
        None => {
            return Ok(None);
        },
        Some(c) => c,
    };
    if text::is_blank(config.provider_name.as_str()) {
        return Err(
            inference::status(
                StatusCode::FailedPrecondition,
                "managed route is missing provider_name",
            ),
        );
    }
    if text::is_blank(config.model_id.as_str()) {
        return Err(
            inference::status(StatusCode::FailedPrecondition, "managed route is missing model_id"),
        );
    }
    Ok(
        Some(
            ManagedProviderFetch { provider_name: config.provider_name, model_id: config.model_id },
        ),
    )
}

impl ManagedProviderFetch {
    /// Takes the provider.
    pub fn fetched(
        self,
        answer: Result<Option<Provider>, String>,
        profiles: &Vec<InferenceProfile>,
    ) -> (r: Result<ResolvedRoute, Status>)
        ensures
            inference::gives(
                r,
                managed_route(
                    ConfigView { provider_name: self.provider_name@, model_id: self.model_id@ },
                    inference::provider_answer(answer),
                    inference::profile_views(profiles@),
                ),
            ),
    {
        let provider = match answer {
            Err(e) => {
                return Err(inference::internal("fetch provider failed: ", e.as_str()));
            },
            Ok(None) => {
                return Err(
                    Status {
                        code: StatusCode::FailedPrecondition,
                        message: "configured provider '".to_owned().concat(
                            self.provider_name.as_str(),
                        ).concat("' was not found"),
                    },
                );
            },
            Ok(Some(p)) => p,
        };
        match inference::resolve_provider_route(&provider, profiles) {
            Err(s) => Err(s),
            Ok(resolved) => Ok(
                ResolvedRoute {
                    name: CLUSTER_INFERENCE_ROUTE_NAME.to_owned(),
                    base_url: resolved.base_url,
                    model_id: self.model_id,
                    api_key: resolved.api_key,
                    protocols: resolved.protocols,
                    provider_type: resolved.provider_type,
                },
            ),
        }
    }
}

// ---------------------------------------------------------------------------
// The bundle
// ---------------------------------------------------------------------------

/// What a sandbox fetches: the routes, a revision to tell whether they changed, and the time.
#[derive(Debug)]
pub struct GetInferenceBundleResponse {
    pub routes: Vec<ResolvedRoute>,
    pub revision: String,
    pub generated_at_ms: i64,
}

/// What a string adds to a hash.
pub open spec fn string_writes(s: Seq<char>) -> Seq<Seq<u8>> {
    seq![encode_utf8(s), seq![0xffu8]]
}

/// What a list of strings adds to a hash: its length, then each string.
pub open spec fn strings_writes(v: Seq<Seq<char>>) -> Seq<Seq<u8>> {
    seq![vstd::bytes::spec_u64_to_le_bytes(v.len() as u64)] + each_string_writes(v)
}

/// What the strings of a list add to a hash.
pub open spec fn each_string_writes(v: Seq<Seq<char>>) -> Seq<Seq<u8>>
    decreases v.len(),
{
    if v.len() == 0 {
        Seq::empty()
    } else {
        each_string_writes(v.drop_last()) + string_writes(v.last())
    }
}

/// What a route adds to a hash.
pub open spec fn route_writes(r: ResolvedView) -> Seq<Seq<u8>> {
    string_writes(r.name) + string_writes(r.base_url) + string_writes(r.model_id) + string_writes(
        r.api_key,
    ) + strings_writes(r.protocols) + string_writes(r.provider_type)
}

/// The revision of a bundle: a hash of all that its route holds.
pub open spec fn revision_of(route: Option<ResolvedView>) -> Seq<char> {
    number::hex_digits(
        DefaultHasher::spec_finish(
            match route {
                Some(r) => route_writes(r),
                None => Seq::empty(),
            },
        ) as nat,
        16,
    )
}

fn write_string(hasher: &mut DefaultHasher, s: &str)
    ensures
        final(hasher)@ == old(hasher)@ + string_writes(s@),
{
    hasher.write(s.as_bytes());
    let mut end: Vec<u8> = Vec::new();
    end.push(0xff);
    hasher.write(end.as_slice());
    assert(end@ =~= seq![0xffu8]);
    assert(hasher@ =~= old(hasher)@ + string_writes(s@));
}

fn write_strings(hasher: &mut DefaultHasher, v: &Vec<String>)
    ensures
        final(hasher)@ == old(hasher)@ + strings_writes(text::views(v@)),
{
    let prefix = vstd::bytes::u64_to_le_bytes(v.len() as u64);
    hasher.write(prefix.as_slice());
    let ghost start = hasher@;
    let ghost all = text::views(v@);
    let mut i: usize = 0;
    assert(start + each_string_writes(all.take(0)) =~= start);
    while i < v.len()
        invariant
            i <= v@.len(),
            all == text::views(v@),
            hasher@ == start + each_string_writes(all.take(i as int)),
        decreases v@.len() - i,
    {
        write_string(hasher, v[i].as_str());
        proof {
            let t = all.take(i + 1);
            assert(t.drop_last() =~= all.take(i as int));
            assert(t.last() == v@[i as int]@);
            assert(hasher@ =~= start + each_string_writes(t));
        }
        i += 1;
    }
    assert(all.take(i as int) =~= all);
    assert(hasher@ =~= old(hasher)@ + strings_writes(all));
}

/// The revision of a bundle with this route.
pub fn bundle_revision(route: &Option<ResolvedRoute>) -> (s: String)
    ensures
        s@ == revision_of(
            match *route {
                Some(r) => Some(r@),
                None => None,
            },
        ),
{
    let mut hasher = DefaultHasher::new();
    if let Some(r) = route {
        write_string(&mut hasher, r.name.as_str());
        write_string(&mut hasher, r.base_url.as_str());
        write_string(&mut hasher, r.model_id.as_str());
        write_string(&mut hasher, r.api_key.as_str());
        write_strings(&mut hasher, &r.protocols);
        write_string(&mut hasher, r.provider_type.as_str());
        assert(hasher@ =~= route_writes(r@));
    }
    number::render_hex16(hasher.finish())
}

/// The bundle for a managed route, made at a given time.
pub fn bundle_at(route: Option<ResolvedRoute>, now_ms: i64) -> (b: GetInferenceBundleResponse)
    ensures
        match route {
            Some(r) => b.routes@ == seq![r] && b.revision@ == revision_of(Some(r@)),
            None => b.routes@ == Seq::<ResolvedRoute>::empty() && b.revision@ == revision_of(None),
        },
        b.generated_at_ms == now_ms,
{
    let revision = bundle_revision(&route);
    let mut routes: Vec<ResolvedRoute> = Vec::new();
    if let Some(r) = route {
        routes.push(r);
    }
    assert(route matches Some(r) ==> routes@ =~= seq![r]);
    GetInferenceBundleResponse { routes, revision, generated_at_ms: now_ms }
}

/// The bundle for a managed route, made now.
pub fn resolve_inference_bundle(route: Option<ResolvedRoute>) -> (b: GetInferenceBundleResponse)
    ensures
        match route {
            Some(r) => b.routes@ == seq![r] && b.revision@ == revision_of(Some(r@)),
            None => b.routes@ == Seq::<ResolvedRoute>::empty() && b.revision@ == revision_of(None),
        },
        exists|t: SystemTime| b.generated_at_ms == #[trigger] clock::millis_at(t),
{
    bundle_at(route, clock::unix_millis())
}

} // verus!
