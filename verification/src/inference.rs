//! Cluster inference: the records, and how a provider record resolves to an endpoint and a key.

use std::sync::Arc;

use vstd::prelude::*;

use crate::string_map::{self, StringMap};
use crate::text;

verus! {

/// The name of the managed route.
pub const CLUSTER_INFERENCE_ROUTE_NAME: &'static str = "inference.local";

// ---------------------------------------------------------------------------
// Statuses
// ---------------------------------------------------------------------------

/// The kind of a refusal.
#[derive(Debug, Clone, Copy, PartialEq, Eq, Structural)]
pub enum StatusCode {
    InvalidArgument,
    NotFound,
    FailedPrecondition,
    Internal,
}

/// Why a request is refused.
#[derive(Debug)]
pub struct Status {
    pub code: StatusCode,
    pub message: String,
}

impl View for Status {
    type V = (StatusCode, Seq<char>);

    open spec fn view(&self) -> (StatusCode, Seq<char>) {
        (self.code, self.message@)
    }
}

pub(crate) fn status(code: StatusCode, message: &str) -> (s: Status)
    ensures
        s@ == (code, message@),
{
    Status { code, message: message.to_owned() }
}

pub(crate) fn internal(context: &str, error: &str) -> (s: Status)
    ensures
        s@ == (StatusCode::Internal, context@ + error@),
{
    Status { code: StatusCode::Internal, message: context.to_owned().concat(error) }
}

// ---------------------------------------------------------------------------
// Records
// ---------------------------------------------------------------------------

/// An account with an inference provider.
#[derive(Debug)]
pub struct Provider {
    pub id: String,
    pub name: String,
    pub provider_type: String,
    pub credentials: StringMap,
    pub config: StringMap,
}

/// The contents of a [`Provider`].
pub struct ProviderView {
    pub id: Seq<char>,
    pub name: Seq<char>,
    pub provider_type: Seq<char>,
    pub credentials: Map<Seq<char>, Seq<char>>,
    pub config: Map<Seq<char>, Seq<char>>,
}

impl View for Provider {
    type V = ProviderView;

    open spec fn view(&self) -> ProviderView {
        ProviderView {
            id: self.id@,
            name: self.name@,
            provider_type: self.provider_type@,
            credentials: self.credentials@,
            config: self.config@,
        }
    }
}

/// What is known of a type of provider.
#[derive(Debug)]
pub struct InferenceProfile {
    pub provider_type: String,
    pub default_base_url: String,
    pub protocols: Vec<String>,
    /// The credentials that may hold the API key, best first.
    pub credential_key_names: Vec<String>,
    /// The settings that may hold the base URL, best first.
    pub base_url_config_keys: Vec<String>,
}

/// The contents of an [`InferenceProfile`].
pub struct ProfileView {
    pub provider_type: Seq<char>,
    pub default_base_url: Seq<char>,
    pub protocols: Seq<Seq<char>>,
    pub credential_key_names: Seq<Seq<char>>,
    pub base_url_config_keys: Seq<Seq<char>>,
}

impl View for InferenceProfile {
    type V = ProfileView;

    open spec fn view(&self) -> ProfileView {
        ProfileView {
            provider_type: self.provider_type@,
            default_base_url: self.default_base_url@,
            protocols: text::views(self.protocols@),
            credential_key_names: text::views(self.credential_key_names@),
            base_url_config_keys: text::views(self.base_url_config_keys@),
        }
    }
}

/// Which provider and model the managed route leads to.
#[derive(Debug)]
pub struct ClusterInferenceConfig {
    pub provider_name: String,
    pub model_id: String,
}

/// The contents of a [`ClusterInferenceConfig`].
pub struct ConfigView {
    pub provider_name: Seq<char>,
    pub model_id: Seq<char>,
}

impl View for ClusterInferenceConfig {
    type V = ConfigView;

    open spec fn view(&self) -> ConfigView {
        ConfigView { provider_name: self.provider_name@, model_id: self.model_id@ }
    }
}

/// A route as it is stored.
#[derive(Debug)]
pub struct InferenceRoute {
    pub id: String,
    pub name: String,
    pub config: Option<ClusterInferenceConfig>,
    pub version: u64,
}

/// The contents of an [`InferenceRoute`].
pub struct RouteView {
    pub id: Seq<char>,
    pub name: Seq<char>,
    pub config: Option<ConfigView>,
    pub version: u64,
}

impl View for InferenceRoute {
    type V = RouteView;

    open spec fn view(&self) -> RouteView {
        RouteView {
            id: self.id@,
            name: self.name@,
            config: match self.config {
                Some(c) => Some(c@),
                None => None,
            },
            version: self.version,
        }
    }
}

impl InferenceRoute {
    /// The kind of record that routes are stored as.
    pub fn object_type() -> (s: &'static str)
        ensures
            s@ == "inference_route"@,
    {
        "inference_route"
    }

    /// The id that the route is stored under.
    pub fn object_id(&self) -> (s: &str)
        ensures
            s@ == self@.id,
    {
        self.id.as_str()
    }

    /// The name that the route is found by.
    pub fn object_name(&self) -> (s: &str)
        ensures
            s@ == self@.name,
    {
        self.name.as_str()
    }
}

/// A route as sandboxes get it.
#[derive(Debug)]
pub struct ResolvedRoute {
    pub name: String,
    pub base_url: String,
    pub model_id: String,
    pub api_key: String,
    pub protocols: Vec<String>,
    pub provider_type: String,
}

/// The contents of a [`ResolvedRoute`].
pub struct ResolvedView {
    pub name: Seq<char>,
    pub base_url: Seq<char>,
    pub model_id: Seq<char>,
    pub api_key: Seq<char>,
    pub protocols: Seq<Seq<char>>,
    pub provider_type: Seq<char>,
}

impl View for ResolvedRoute {
    type V = ResolvedView;

    open spec fn view(&self) -> ResolvedView {
        ResolvedView {
            name: self.name@,
            base_url: self.base_url@,
            model_id: self.model_id@,
            api_key: self.api_key@,
            protocols: text::views(self.protocols@),
            provider_type: self.provider_type@,
        }
    }
}

/// What the server shares between its services.
#[derive(Debug)]
pub struct ServerState {
    /// The types of provider that inference can use.
    pub profiles: Vec<InferenceProfile>,
}

/// The inference service.
#[derive(Debug)]
pub struct InferenceService {
    state: Arc<ServerState>,
}

impl InferenceService {
    /// The state that the service works on.
    pub closed spec fn shared(&self) -> ServerState {
        *self.state
    }

    /// A service on the server's state.
    pub fn new(state: Arc<ServerState>) -> (s: InferenceService)
        ensures
            s.shared() == *state,
    {
        InferenceService { state }
    }

    /// The types of provider that the service can use.
    pub fn profiles(&self) -> (p: &Vec<InferenceProfile>)
        ensures
            *p == self.shared().profiles,
    {
        &self.state.profiles
    }
}

/// The contents of an answer of the store.
pub open spec fn provider_answer(r: Result<Option<Provider>, String>) -> Result<
    Option<ProviderView>,
    Seq<char>,
> {
    match r {
        Ok(Some(p)) => Ok(Some(p@)),
        Ok(None) => Ok(None),
        Err(e) => Err(e@),
    }
}

/// The contents of an answer of the store.
pub open spec fn route_answer(r: Result<Option<InferenceRoute>, String>) -> Result<
    Option<RouteView>,
    Seq<char>,
> {
    match r {
        Ok(Some(p)) => Ok(Some(p@)),
        Ok(None) => Ok(None),
        Err(e) => Err(e@),
    }
}

// ---------------------------------------------------------------------------
// From a provider to a route
// ---------------------------------------------------------------------------

/// The contents of a provider record that inference uses.
#[derive(Debug)]
pub struct ResolvedProviderRoute {
    pub provider_type: String,
    pub base_url: String,
    pub protocols: Vec<String>,
    pub api_key: String,
}

/// The contents of a [`ResolvedProviderRoute`].
pub struct ProviderRouteView {
    pub provider_type: Seq<char>,
    pub base_url: Seq<char>,
    pub protocols: Seq<Seq<char>>,
    pub api_key: Seq<char>,
}

impl View for ResolvedProviderRoute {
    type V = ProviderRouteView;

    open spec fn view(&self) -> ProviderRouteView {
        ProviderRouteView {
            provider_type: self.provider_type@,
            base_url: self.base_url@,
            protocols: text::views(self.protocols@),
            api_key: self.api_key@,
        }
    }
}

/// The contents of a list of profiles.
pub open spec fn profile_views(v: Seq<InferenceProfile>) -> Seq<ProfileView> {
    Seq::new(v.len(), |i: int| v[i]@)
}

/// The first profile of a type.
pub open spec fn profile_of(profiles: Seq<ProfileView>, provider_type: Seq<char>) -> Option<
    ProfileView,
>
    decreases profiles.len(),
{
    if profiles.len() == 0 {
        None
    } else if profiles[0].provider_type == provider_type {
        Some(profiles[0])
    } else {
        profile_of(profiles.drop_first(), provider_type)
    }
}

/// The value of the first of `keys` whose value in `m` is not blank.
pub open spec fn first_usable(keys: Seq<Seq<char>>, m: Map<Seq<char>, Seq<char>>) -> Option<
    Seq<char>,
>
    decreases keys.len(),
{
    if keys.len() == 0 {
        None
    } else if m.dom().contains(keys[0]) && !text::blank(m[keys[0]]) {
        Some(m[keys[0]])
    } else {
        first_usable(keys.drop_first(), m)
    }
}

/// The API key of a provider: under the preferred names, else under the first name in the
/// alphabet that holds one.
pub open spec fn api_key_of(
    credentials: Map<Seq<char>, Seq<char>>,
    preferred: Seq<Seq<char>>,
) -> Option<Seq<char>> {
    match first_usable(preferred, credentials) {
        Some(v) => Some(v),
        None => first_usable(string_map::sorted_keys(credentials), credentials),
    }
}

/// The base URL of a provider: from its settings, else the default of its type.
pub open spec fn base_url_of(config: Map<Seq<char>, Seq<char>>, profile: ProfileView) -> Seq<char> {
    text::trimmed(
        match first_usable(profile.base_url_config_keys, config) {
            Some(v) => v,
            None => profile.default_base_url,
        },
    )
}

/// The type of a provider in the form that profiles have it.
pub open spec fn normal_type(p: ProviderView) -> Seq<char> {
    text::lowered(text::trimmed(p.provider_type))
}

/// What a provider record resolves to, or why it cannot be used.
pub open spec fn provider_route_of(p: ProviderView, profiles: Seq<ProfileView>) -> Result<
    ProviderRouteView,
    (StatusCode, Seq<char>),
> {
    match profile_of(profiles, normal_type(p)) {
        None => Err(
            (
                StatusCode::InvalidArgument,
                "provider '"@ + p.name + "' has unsupported type '"@ + normal_type(p)
                    + "' for cluster inference (supported: openai, anthropic, nvidia)"@,
            ),
        ),
        Some(profile) => match api_key_of(p.credentials, profile.credential_key_names) {
            None => Err(
                (
                    StatusCode::InvalidArgument,
                    "provider '"@ + p.name + "' has no usable API key credential"@,
                ),
            ),
            Some(api_key) => if base_url_of(p.config, profile).len() == 0 {
                Err(
                    (
                        StatusCode::InvalidArgument,
                        "provider '"@ + p.name + "' resolved to empty base_url"@,
                    ),
                )
            } else {
                Ok(
                    ProviderRouteView {
                        provider_type: normal_type(p),
                        base_url: base_url_of(p.config, profile),
                        protocols: profile.protocols,
                        api_key,
                    },
                )
            },
        },
    }
}

/// The profile of a type of provider.
pub fn profile_for<'a>(profiles: &'a Vec<InferenceProfile>, provider_type: &str) -> (r: Option<
    &'a InferenceProfile,
>)
    ensures
        match r {
            Some(p) => profile_of(profile_views(profiles@), provider_type@) == Some(p@),
            None => profile_of(profile_views(profiles@), provider_type@) is None,
        },
{
    let ghost all = profile_views(profiles@);
    let mut i: usize = 0;
    assert(all.skip(0) =~= all);
    while i < profiles.len()
        invariant
            i <= profiles@.len(),
            all == profile_views(profiles@),
            profile_of(all, provider_type@) == profile_of(all.skip(i as int), provider_type@),
        decreases profiles@.len() - i,
    {
        assert(all.skip(i as int).drop_first() =~= all.skip(i + 1));
        assert(all.skip(i as int)[0] == profiles@[i as int]@);
        if text::same(profiles[i].provider_type.as_str(), provider_type) {
            return Some(&profiles[i]);
        }
        i += 1;
    }
    None
}

fn find_usable(keys: &Vec<String>, m: &StringMap) -> (r: Option<String>)
    ensures
        text::opt_view(r) == first_usable(text::views(keys@), m@),
{
    let ghost all = text::views(keys@);
    let mut i: usize = 0;
    assert(all.skip(0) =~= all);
    while i < keys.len()
        invariant
            i <= keys@.len(),
            all == text::views(keys@),
            first_usable(all, m@) == first_usable(all.skip(i as int), m@),
        decreases keys@.len() - i,
    {
        assert(all.skip(i as int).drop_first() =~= all.skip(i + 1));
        assert(all.skip(i as int)[0] == keys@[i as int]@);
        if let Some(value) = m.get(keys[i].as_str()) {
            if !text::is_blank(value.as_str()) {
                return Some(value.clone());
            }
        }
        i += 1;
    }
    None
}

/// The API key of a provider.
pub fn find_provider_api_key(provider: &Provider, preferred_key_names: &Vec<String>) -> (r: Option<
    String,
>)
    ensures
        text::opt_view(r) == api_key_of(provider@.credentials, text::views(preferred_key_names@)),
{
    if let Some(value) = find_usable(preferred_key_names, &provider.credentials) {
        return Some(value);
    }
    let keys = provider.credentials.keys();
    proof {
        let m = provider.credentials@;
        assert(string_map::lists(text::views(keys@), m.dom()));
        string_map::lemma_lists_unique(text::views(keys@), string_map::sorted_keys(m), m.dom());
    }
    find_usable(&keys, &provider.credentials)
}

/// The value of the first of the preferred settings that is not blank.
pub fn find_provider_config_value(provider: &Provider, preferred_keys: &Vec<String>) -> (r: Option<
    String,
>)
    ensures
        text::opt_view(r) == first_usable(text::views(preferred_keys@), provider@.config),
{
    find_usable(preferred_keys, &provider.config)
}

fn copy_strings(v: &Vec<String>) -> (r: Vec<String>)
    ensures
        text::views(r@) == text::views(v@),
{
    let mut r: Vec<String> = Vec::new();
    let mut i: usize = 0;
    while i < v.len()
        invariant
            i <= v@.len(),
            r@.len() == i,
            forall|j: int| 0 <= j < i ==> (#[trigger] r@[j])@ == v@[j]@,
        decreases v@.len() - i,
    {
        r.push(v[i].clone());
        i += 1;
    }
    assert(text::views(r@) =~= text::views(v@));
    r
}

/// Whether a result is what a specification says.
pub open spec fn gives<T: View>(
    r: Result<T, Status>,
    spec: Result<T::V, (StatusCode, Seq<char>)>,
) -> bool {
    match r {
        Ok(t) => spec == Ok::<T::V, (StatusCode, Seq<char>)>(t@),
        Err(s) => spec == Err::<T::V, (StatusCode, Seq<char>)>(s@),
    }
}

/// Resolves a provider record.
pub fn resolve_provider_route(provider: &Provider, profiles: &Vec<InferenceProfile>) -> (r: Result<
    ResolvedProviderRoute,
    Status,
>)
    ensures
        gives(r, provider_route_of(provider@, profile_views(profiles@))),
{
    let provider_type = text::to_ascii_lowercase(
        text::trim(provider.provider_type.as_str()).as_str(),
    );
    let profile = match profile_for(profiles, provider_type.as_str()) {
        Some(p) => p,
        None => {
            return Err(
                Status {
                    code: StatusCode::InvalidArgument,
                    message: "provider '".to_owned().concat(provider.name.as_str()).concat(
                        "' has unsupported type '",
                    ).concat(provider_type.as_str()).concat(
                        "' for cluster inference (supported: openai, anthropic, nvidia)",
                    ),
                },
            );
        },
    };
    let api_key = match find_provider_api_key(provider, &profile.credential_key_names) {
        Some(k) => k,
        None => {
            return Err(
                Status {
                    code: StatusCode::InvalidArgument,
                    message: "provider '".to_owned().concat(provider.name.as_str()).concat(
                        "' has no usable API key credential",
                    ),
                },
            );
        },
    };
    let configured = match find_provider_config_value(provider, &profile.base_url_config_keys) {
        Some(v) => v,
        None => profile.default_base_url.clone(),
    };
    let base_url = text::trim(configured.as_str());
    if base_url.as_str().is_empty() {
        return Err(
            Status {
                code: StatusCode::InvalidArgument,
                message: "provider '".to_owned().concat(provider.name.as_str()).concat(
                    "' resolved to empty base_url",
                ),
            },
        );
    }
    Ok(
        ResolvedProviderRoute {
            provider_type,
            base_url,
            protocols: copy_strings(&profile.protocols),
            api_key,
        },
    )
}

// ---------------------------------------------------------------------------
// Laws
// ---------------------------------------------------------------------------

/// Whether the value under a key can be used: it is there, and not blank.
pub open spec fn usable(key: Seq<char>, m: Map<Seq<char>, Seq<char>>) -> bool {
    m.dom().contains(key) && !text::blank(m[key])
}

/// Of a list of keys the first that can be used gives the value, as it stands there and whatever it
/// holds; there is none exactly if none of the keys can be used.
pub proof fn law_first_usable_key_gives_the_value(
    keys: Seq<Seq<char>>,
    m: Map<Seq<char>, Seq<char>>,
    i: int,
)
    ensures
        0 <= i < keys.len() && usable(keys[i], m) && (forall|j: int|
            0 <= j < i ==> !usable(#[trigger] keys[j], m)) ==> first_usable(keys, m) == Some(
            m[keys[i]],
        ),
        first_usable(keys, m) is None <==> forall|j: int|
            0 <= j < keys.len() ==> !usable(#[trigger] keys[j], m),
    decreases keys.len(),
{
    if keys.len() > 0 {
        let rest = keys.drop_first();
        law_first_usable_key_gives_the_value(rest, m, i - 1);
        assert forall|j: int| 0 <= j < rest.len() implies #[trigger] rest[j] == keys[j + 1] by {}
        if forall|j: int| 0 <= j < keys.len() ==> !usable(#[trigger] keys[j], m) {
            assert(!usable(keys[0], m));
            assert forall|j: int| 0 <= j < rest.len() implies !usable(#[trigger] rest[j], m) by {
                assert(!usable(keys[j + 1], m));
            }
        }
        if first_usable(keys, m) is None {
            assert forall|j: int| 0 <= j < keys.len() implies !usable(#[trigger] keys[j], m) by {
                if j > 0 {
                    assert(!usable(rest[j - 1], m));
                }
            }
        }
        if 0 < i < keys.len() && usable(keys[i], m) && (forall|j: int|
            0 <= j < i ==> !usable(#[trigger] keys[j], m)) {
            assert(!usable(keys[0], m));
            assert forall|j: int| 0 <= j < i - 1 implies !usable(#[trigger] rest[j], m) by {
                assert(!usable(keys[j + 1], m));
            }
            assert(rest[i - 1] == keys[i]);
        }
    }
}

/// A provider's own setting of the base URL wins: the trimmed value of the first of the profile's
/// keys that has one, whatever it holds. The profile's default is taken only if none has.
pub proof fn law_own_base_url_wins(
    config: Map<Seq<char>, Seq<char>>,
    profile: ProfileView,
    i: int,
)
    ensures
        0 <= i < profile.base_url_config_keys.len() && usable(
            profile.base_url_config_keys[i],
            config,
        ) && (forall|j: int|
            0 <= j < i ==> !usable(#[trigger] profile.base_url_config_keys[j], config))
            ==> base_url_of(config, profile) == text::trimmed(
            config[profile.base_url_config_keys[i]],
        ),
        (forall|j: int|
            0 <= j < profile.base_url_config_keys.len() ==> !usable(
                #[trigger] profile.base_url_config_keys[j],
                config,
            )) ==> base_url_of(config, profile) == text::trimmed(profile.default_base_url),
{
    law_first_usable_key_gives_the_value(profile.base_url_config_keys, config, i);
}

/// The API key is the value of the first preferred name that has one, as it stands there. Only if
/// no preferred name has one it is that of the first name in the alphabet that has; and there is
/// none only if no name at all has one.
pub proof fn law_api_key_by_preference_then_alphabet(
    credentials: Map<Seq<char>, Seq<char>>,
    preferred: Seq<Seq<char>>,
    names: Seq<Seq<char>>,
    i: int,
)
    requires
        string_map::lists(names, credentials.dom()),
    ensures
        0 <= i < preferred.len() && usable(preferred[i], credentials) && (forall|j: int|
            0 <= j < i ==> !usable(#[trigger] preferred[j], credentials)) ==> api_key_of(
            credentials,
            preferred,
        ) == Some(credentials[preferred[i]]),
        (forall|j: int| 0 <= j < preferred.len() ==> !usable(#[trigger] preferred[j], credentials))
            && 0 <= i < names.len() && usable(names[i], credentials) && (forall|j: int|
            0 <= j < i ==> !usable(#[trigger] names[j], credentials)) ==> api_key_of(
            credentials,
            preferred,
        ) == Some(credentials[names[i]]),
        api_key_of(credentials, preferred) is None <==> forall|name: Seq<char>|
            !#[trigger] usable(name, credentials),
{
    string_map::lemma_lists_unique(names, string_map::sorted_keys(credentials), credentials.dom());
    law_first_usable_key_gives_the_value(preferred, credentials, i);
    law_first_usable_key_gives_the_value(names, credentials, i);
    if api_key_of(credentials, preferred) is None {
        assert forall|name: Seq<char>| !#[trigger] usable(name, credentials) by {
            if credentials.dom().contains(name) {
                assert(names.contains(name));
                let k = choose|k: int| 0 <= k < names.len() && names[k] == name;
                assert(!usable(names[k], credentials));
            }
        }
    }
}

/// The profile of a provider is the first of its type; there is none exactly if no profile has that
/// type.
pub proof fn law_first_profile_of_the_type(
    profiles: Seq<ProfileView>,
    provider_type: Seq<char>,
    i: int,
)
    ensures
        0 <= i < profiles.len() && profiles[i].provider_type == provider_type && (forall|j: int|
            0 <= j < i ==> (#[trigger] profiles[j]).provider_type != provider_type) ==> profile_of(
            profiles,
            provider_type,
        ) == Some(profiles[i]),
        profile_of(profiles, provider_type) is None <==> forall|j: int|
            0 <= j < profiles.len() ==> (#[trigger] profiles[j]).provider_type != provider_type,
    decreases profiles.len(),
{
    if profiles.len() > 0 {
        let rest = profiles.drop_first();
        law_first_profile_of_the_type(rest, provider_type, i - 1);
        assert forall|j: int| 0 <= j < rest.len() implies #[trigger] rest[j] == profiles[j + 1] by {}
        if profile_of(profiles, provider_type) is None {
            assert forall|j: int| 0 <= j < profiles.len() implies (
            #[trigger] profiles[j]).provider_type != provider_type by {
                if j > 0 {
                    assert(rest[j - 1].provider_type != provider_type);
                }
            }
        }
        if forall|j: int|
            0 <= j < profiles.len() ==> (#[trigger] profiles[j]).provider_type != provider_type {
            assert(profiles[0].provider_type != provider_type);
            assert forall|j: int| 0 <= j < rest.len() implies (#[trigger] rest[j]).provider_type
                != provider_type by {
                assert(profiles[j + 1].provider_type != provider_type);
            }
        }
        if 0 < i < profiles.len() && profiles[i].provider_type == provider_type && (forall|j: int|
            0 <= j < i ==> (#[trigger] profiles[j]).provider_type != provider_type) {
            assert(profiles[0].provider_type != provider_type);
            assert forall|j: int| 0 <= j < i - 1 implies (#[trigger] rest[j]).provider_type
                != provider_type by {
                assert(profiles[j + 1].provider_type != provider_type);
            }
            assert(rest[i - 1] == profiles[i]);
        }
    }
}

/// The type of a provider counts without white space around it and in whatever case.
pub proof fn law_type_counts_in_any_form(p: ProviderView, q: ProviderView)
    ensures
        text::lowered(text::trimmed(p.provider_type)) == text::lowered(
            text::trimmed(q.provider_type),
        ) <==> normal_type(p) == normal_type(q),
        text::lowered(normal_type(p)) == normal_type(p),
        text::trimmed(p.provider_type) == "openai"@ ==> normal_type(p) == "openai"@,
        normal_type(p) == text::lowered(text::trimmed(p.provider_type)),
{
    text::lemma_lowered_idempotent(text::trimmed(p.provider_type));
    reveal_strlit("openai");
    assert(text::lowered("openai"@) =~= "openai"@);
}

/// A provider resolves exactly if there is a profile of its type, one of its credentials can be used
/// as a key, and its base URL is not blank; what it resolves to is made of these and of the
/// profile's protocols, all of them. Whatever is missing first is what the refusal names.
pub proof fn law_provider_resolves_to_its_record(
    p: ProviderView,
    profiles: Seq<ProfileView>,
    profile: ProfileView,
    api_key: Seq<char>,
)
    ensures
        profile_of(profiles, normal_type(p)) is None ==> provider_route_of(p, profiles) == Err::<
            ProviderRouteView,
            (StatusCode, Seq<char>),
        >(
            (
                StatusCode::InvalidArgument,
                "provider '"@ + p.name + "' has unsupported type '"@ + normal_type(p)
                    + "' for cluster inference (supported: openai, anthropic, nvidia)"@,
            ),
        ),
        profile_of(profiles, normal_type(p)) == Some(profile) && api_key_of(
            p.credentials,
            profile.credential_key_names,
        ) is None ==> provider_route_of(p, profiles) == Err::<
            ProviderRouteView,
            (StatusCode, Seq<char>),
        >(
            (
                StatusCode::InvalidArgument,
                "provider '"@ + p.name + "' has no usable API key credential"@,
            ),
        ),
        profile_of(profiles, normal_type(p)) == Some(profile) && api_key_of(
            p.credentials,
            profile.credential_key_names,
        ) == Some(api_key) ==> (if text::blank(base_url_of(p.config, profile)) {
            provider_route_of(p, profiles) == Err::<ProviderRouteView, (StatusCode, Seq<char>)>(
                (
                    StatusCode::InvalidArgument,
                    "provider '"@ + p.name + "' resolved to empty base_url"@,
                ),
            )
        } else {
            &&& provider_route_of(p, profiles) matches Ok(r)
            &&& r.provider_type == normal_type(p)
            &&& r.base_url == base_url_of(p.config, profile)
            &&& r.protocols == profile.protocols
            &&& r.api_key == api_key
        }),
{
    let url = match first_usable(profile.base_url_config_keys, p.config) {
        Some(v) => v,
        None => profile.default_base_url,
    };
    text::lemma_trimmed_empty(url);
    let base = base_url_of(p.config, profile);
    text::lemma_run(url, text::spaces());
    let t = url.skip(text::run(url, text::spaces()) as int);
    text::lemma_trim_end(t, text::spaces());
    if base.len() > 0 {
        assert(!text::is_space(base[base.len() - 1]));
    }
}

/// A result is what is specified exactly if it succeeds with those contents or is refused with that
/// code and that message.
pub proof fn law_results_are_as_specified<T: View>(
    t: T,
    s: Status,
    specified: Result<T::V, (StatusCode, Seq<char>)>,
)
    ensures
        gives(Ok::<T, Status>(t), specified) <==> specified == Ok::<
            T::V,
            (StatusCode, Seq<char>),
        >(t@),
        gives(Err::<T, Status>(s), specified) <==> specified == Err::<
            T::V,
            (StatusCode, Seq<char>),
        >((s.code, s.message@)),
{
}

/// The contents of a list of profiles are those of its members, one for one.
pub proof fn law_contents_of_profiles(profiles: Seq<InferenceProfile>, i: int)
    requires
        0 <= i < profiles.len(),
    ensures
        profile_views(profiles).len() == profiles.len(),
        profile_views(profiles)[i].provider_type == profiles[i].provider_type@,
        profile_views(profiles)[i].default_base_url == profiles[i].default_base_url@,
        profile_views(profiles)[i].protocols == text::views(profiles[i].protocols@),
        profile_views(profiles)[i].credential_key_names == text::views(
            profiles[i].credential_key_names@,
        ),
        profile_views(profiles)[i].base_url_config_keys == text::views(
            profiles[i].base_url_config_keys@,
        ),
{
}

/// The answers of the store keep what they hold.
pub proof fn law_answers_keep_their_contents(provider: Provider, route: InferenceRoute, e: String)
    ensures
        provider_answer(Ok(Some(provider))) == Ok::<Option<ProviderView>, Seq<char>>(
            Some(provider@),
        ),
        provider_answer(Ok(None)) == Ok::<Option<ProviderView>, Seq<char>>(None),
        provider_answer(Err(e)) == Err::<Option<ProviderView>, Seq<char>>(e@),
        route_answer(Ok(Some(route))) == Ok::<Option<RouteView>, Seq<char>>(Some(route@)),
        route_answer(Ok(None)) == Ok::<Option<RouteView>, Seq<char>>(None),
        route_answer(Err(e)) == Err::<Option<RouteView>, Seq<char>>(e@),
        route@.version == route.version,
        route.config matches Some(c) ==> (route@.config matches Some(v) && v.provider_name
            == c.provider_name@ && v.model_id == c.model_id@),
        route.config is None ==> route@.config is None,
        provider@.name == provider.name@,
        provider@.credentials == provider.credentials@,
        provider@.config == provider.config@,
        provider@.provider_type == provider.provider_type@,
{
}

} // verus!
