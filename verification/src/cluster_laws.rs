//! What holds of the managed route over several operations, with a store that answers with what was
//! written to it.

use std::collections::hash_map::DefaultHasher;

use vstd::prelude::*;
use vstd::std_specs::hash::DefaultHasherAdditionalSpecFns;
use vstd::utf8::{encode_utf8, encode_utf8_decode_utf8};

use crate::cluster::{self, ClusterInferenceView};
use crate::inference::{
    self, ConfigView, ProfileView, ProviderView, ResolvedView, RouteView, StatusCode,
    CLUSTER_INFERENCE_ROUTE_NAME,
};
use crate::number;
use crate::string_map;
use crate::text;

verus! {

/// The records of a store, by name.
pub struct StoreModel {
    pub providers: Map<Seq<char>, ProviderView>,
    pub routes: Map<Seq<char>, RouteView>,
}

impl StoreModel {
    /// Every record is found under its own name.
    pub open spec fn well_formed(self) -> bool {
        &&& forall|k: Seq<char>| #[trigger]
            self.providers.dom().contains(k) ==> self.providers[k].name == k
        &&& forall|k: Seq<char>| #[trigger]
            self.routes.dom().contains(k) ==> self.routes[k].name == k
    }

    /// The answer to a question for a provider.
    pub open spec fn provider(self, name: Seq<char>) -> Result<Option<ProviderView>, Seq<char>> {
        Ok(
            if self.providers.dom().contains(name) {
                Some(self.providers[name])
            } else {
                None
            },
        )
    }

    /// The answer to a question for the managed route.
    pub open spec fn route(self) -> Result<Option<RouteView>, Seq<char>> {
        Ok(
            if self.routes.dom().contains(CLUSTER_INFERENCE_ROUTE_NAME@) {
                Some(self.routes[CLUSTER_INFERENCE_ROUTE_NAME@])
            } else {
                None
            },
        )
    }

    /// The outcome of setting the managed route, up to persisting it.
    pub open spec fn set(
        self,
        profiles: Seq<ProfileView>,
        provider_name: Seq<char>,
        model_id: Seq<char>,
        id: Seq<char>,
    ) -> Result<RouteView, (StatusCode, Seq<char>)> {
        match cluster::argument_error(provider_name, model_id) {
            Some(s) => Err(s),
            None => match cluster::config_of(
                provider_name,
                model_id,
                self.provider(provider_name),
                profiles,
            ) {
                Err(s) => Err(s),
                Ok(c) => cluster::route_to_persist(c, self.route(), id),
            },
        }
    }

    /// The store after a route was persisted.
    pub open spec fn with_route(self, route: RouteView) -> StoreModel {
        StoreModel { providers: self.providers, routes: self.routes.insert(route.name, route) }
    }

    /// The store after a provider was persisted.
    pub open spec fn with_provider(self, provider: ProviderView) -> StoreModel {
        StoreModel {
            providers: self.providers.insert(provider.name, provider),
            routes: self.routes,
        }
    }

    /// The outcome of resolving the managed route.
    pub open spec fn resolve(self, profiles: Seq<ProfileView>) -> Result<
        Option<ResolvedView>,
        (StatusCode, Seq<char>),
    > {
        match cluster::managed_config(self.route()) {
            Err(s) => Err(s),
            Ok(None) => Ok(None),
            Ok(Some(c)) => match cluster::managed_route(
                c,
                self.provider(c.provider_name),
                profiles,
            ) {
                Err(s) => Err(s),
                Ok(r) => Ok(Some(r)),
            },
        }
    }
}

/// What was set is what is read: after a successful set, the client that asks for the route gets
/// the provider and model that were set, and the version that the setter was told.
pub proof fn law_get_returns_what_was_set(
    store: StoreModel,
    profiles: Seq<ProfileView>,
    provider_name: Seq<char>,
    model_id: Seq<char>,
    id: Seq<char>,
    route: RouteView,
)
    requires
        store.well_formed(),
        store.set(profiles, provider_name, model_id, id) == Ok::<
            RouteView,
            (StatusCode, Seq<char>),
        >(route),
    ensures
        store.with_route(route).well_formed(),
        cluster::get_answer(store.with_route(route).route()) == Ok::<
            ClusterInferenceView,
            (StatusCode, Seq<char>),
        >(ClusterInferenceView { provider_name, model_id, version: route.version }),
        cluster::set_answer(route) == cluster::get_answer(store.with_route(route).route()),
{
    assert(route.name == CLUSTER_INFERENCE_ROUTE_NAME@);
    assert(store.with_route(route).routes.dom().contains(CLUSTER_INFERENCE_ROUTE_NAME@));
}

/// The first route that is set has version 1 and the fresh id; every later one has the next
/// version, up to the largest number, and keeps the id and the name.
pub proof fn law_set_counts_versions(
    store: StoreModel,
    profiles: Seq<ProfileView>,
    provider_name: Seq<char>,
    model_id: Seq<char>,
    id: Seq<char>,
    route: RouteView,
)
    requires
        store.well_formed(),
        store.set(profiles, provider_name, model_id, id) == Ok::<
            RouteView,
            (StatusCode, Seq<char>),
        >(route),
    ensures
        route.name == CLUSTER_INFERENCE_ROUTE_NAME@,
        store.route() == Ok::<Option<RouteView>, Seq<char>>(None) ==> route.version == 1 && route.id
            == id,
        store.route() matches Ok(Some(old)) ==> route.id == old.id && (old.version < u64::MAX
            ==> route.version == old.version + 1) && (old.version == u64::MAX ==> route.version
            == u64::MAX),
{
}

/// Setting twice in a row raises the version by one and keeps the id.
pub proof fn law_second_set_is_next_version(
    store: StoreModel,
    profiles: Seq<ProfileView>,
    first_provider: Seq<char>,
    first_model: Seq<char>,
    first_id: Seq<char>,
    first: RouteView,
    second_provider: Seq<char>,
    second_model: Seq<char>,
    second_id: Seq<char>,
    second: RouteView,
)
    requires
        store.well_formed(),
        store.set(profiles, first_provider, first_model, first_id) == Ok::<
            RouteView,
            (StatusCode, Seq<char>),
        >(first),
        store.with_route(first).set(profiles, second_provider, second_model, second_id) == Ok::<
            RouteView,
            (StatusCode, Seq<char>),
        >(second),
        first.version < u64::MAX,
    ensures
        second.version == first.version + 1,
        second.id == first.id,
{
    law_get_returns_what_was_set(store, profiles, first_provider, first_model, first_id, first);
    law_set_counts_versions(
        store.with_route(first),
        profiles,
        second_provider,
        second_model,
        second_id,
        second,
    );
}

/// A route that was set resolves, to the model that was set and to what its provider's record says.
pub proof fn law_set_route_resolves(
    store: StoreModel,
    profiles: Seq<ProfileView>,
    provider_name: Seq<char>,
    model_id: Seq<char>,
    id: Seq<char>,
    route: RouteView,
)
    requires
        store.well_formed(),
        store.set(profiles, provider_name, model_id, id) == Ok::<
            RouteView,
            (StatusCode, Seq<char>),
        >(route),
    ensures
        match (
            inference::provider_route_of(store.providers[provider_name], profiles),
            store.with_route(route).resolve(profiles),
        ) {
            (Ok(p), Ok(Some(r))) => r == (ResolvedView {
                name: CLUSTER_INFERENCE_ROUTE_NAME@,
                base_url: p.base_url,
                model_id,
                api_key: p.api_key,
                protocols: p.protocols,
                provider_type: p.provider_type,
            }),
            _ => false,
        },
{
    law_get_returns_what_was_set(store, profiles, provider_name, model_id, id, route);
    let after = store.with_route(route);
    assert(after.routes[CLUSTER_INFERENCE_ROUTE_NAME@] == route);
    assert(after.provider(provider_name) == store.provider(provider_name));
}

/// The resolved route follows the provider's record: once the record of the configured provider is
/// replaced, the route resolves to what the new record says.
pub proof fn law_resolution_follows_the_provider(
    store: StoreModel,
    profiles: Seq<ProfileView>,
    config: ConfigView,
    provider: ProviderView,
)
    requires
        cluster::managed_config(store.route()) == Ok::<
            Option<ConfigView>,
            (StatusCode, Seq<char>),
        >(Some(config)),
        provider.name == config.provider_name,
    ensures
        match inference::provider_route_of(provider, profiles) {
            Ok(p) => store.with_provider(provider).resolve(profiles) == Ok::<
                Option<ResolvedView>,
                (StatusCode, Seq<char>),
            >(
                Some(
                    ResolvedView {
                        name: CLUSTER_INFERENCE_ROUTE_NAME@,
                        base_url: p.base_url,
                        model_id: config.model_id,
                        api_key: p.api_key,
                        protocols: p.protocols,
                        provider_type: p.provider_type,
                    },
                ),
            ),
            Err(s) => store.with_provider(provider).resolve(profiles) == Err::<
                Option<ResolvedView>,
                (StatusCode, Seq<char>),
            >(s),
        },
{
    let after = store.with_provider(provider);
    assert(after.route() == store.route());
    assert(after.providers.dom().contains(config.provider_name));
}

/// Without a managed route there is nothing to resolve, and that is no error.
pub proof fn law_no_route_resolves_to_none(store: StoreModel, profiles: Seq<ProfileView>)
    requires
        !store.routes.dom().contains(CLUSTER_INFERENCE_ROUTE_NAME@),
    ensures
        store.resolve(profiles) == Ok::<Option<ResolvedView>, (StatusCode, Seq<char>)>(None),
{
}

/// A resolved provider has an API key and a base URL that are not blank.
pub proof fn law_resolved_provider_is_usable(
    provider: ProviderView,
    profiles: Seq<ProfileView>,
    route: inference::ProviderRouteView,
)
    requires
        inference::provider_route_of(provider, profiles) == Ok::<
            inference::ProviderRouteView,
            (StatusCode, Seq<char>),
        >(route),
    ensures
        !text::blank(route.api_key),
        route.base_url.len() > 0,
{
    let profile = inference::profile_of(profiles, inference::normal_type(provider))->0;
    lemma_first_usable(profile.credential_key_names, provider.credentials);
    lemma_first_usable(string_map::sorted_keys(provider.credentials), provider.credentials);
}

/// A usable key of a preferred name wins over all others.
pub proof fn law_preferred_key_wins(
    credentials: Map<Seq<char>, Seq<char>>,
    preferred: Seq<Seq<char>>,
)
    requires
        preferred.len() > 0,
        credentials.dom().contains(preferred[0]),
        !text::blank(credentials[preferred[0]]),
    ensures
        inference::api_key_of(credentials, preferred) == Some(credentials[preferred[0]]),
{
}

proof fn lemma_first_usable(keys: Seq<Seq<char>>, m: Map<Seq<char>, Seq<char>>)
    ensures
        inference::first_usable(keys, m) matches Some(v) ==> !text::blank(v),
    decreases keys.len(),
{
    if keys.len() > 0 {
        lemma_first_usable(keys.drop_first(), m);
    }
}

/// Setting the route is refused, with what is missing, where a name is blank, where there is no
/// such provider, or where its record cannot be used; and it succeeds everywhere else.
pub proof fn law_set_is_refused_for_a_reason(
    store: StoreModel,
    profiles: Seq<ProfileView>,
    provider_name: Seq<char>,
    model_id: Seq<char>,
    id: Seq<char>,
)
    ensures
        text::blank(provider_name) ==> store.set(profiles, provider_name, model_id, id) == Err::<
            RouteView,
            (StatusCode, Seq<char>),
        >((StatusCode::InvalidArgument, "provider_name is required"@)),
        !text::blank(provider_name) && text::blank(model_id) ==> store.set(
            profiles,
            provider_name,
            model_id,
            id,
        ) == Err::<RouteView, (StatusCode, Seq<char>)>(
            (StatusCode::InvalidArgument, "model_id is required"@),
        ),
        !text::blank(provider_name) && !text::blank(model_id) ==> (
        if !store.providers.dom().contains(provider_name) {
            store.set(profiles, provider_name, model_id, id) == Err::<
                RouteView,
                (StatusCode, Seq<char>),
            >((StatusCode::FailedPrecondition, "provider '"@ + provider_name + "' not found"@))
        } else {
            match inference::provider_route_of(store.providers[provider_name], profiles) {
                Err(s) => store.set(profiles, provider_name, model_id, id) == Err::<
                    RouteView,
                    (StatusCode, Seq<char>),
                >(s),
                Ok(_) => store.set(profiles, provider_name, model_id, id) matches Ok(route)
                    && route.config == Some(
                    ConfigView { provider_name: store.providers[provider_name].name, model_id },
                ),
            }
        }),
{
}

/// A store that fails is what the answer blames, whichever question it failed on.
pub proof fn law_store_failures_are_told(
    provider_name: Seq<char>,
    model_id: Seq<char>,
    config: ConfigView,
    profiles: Seq<ProfileView>,
    id: Seq<char>,
    e: Seq<char>,
)
    ensures
        cluster::config_of(provider_name, model_id, Err(e), profiles) == Err::<
            ConfigView,
            (StatusCode, Seq<char>),
        >((StatusCode::Internal, "fetch provider failed: "@ + e)),
        cluster::managed_route(config, Err(e), profiles) == Err::<
            ResolvedView,
            (StatusCode, Seq<char>),
        >((StatusCode::Internal, "fetch provider failed: "@ + e)),
        cluster::route_to_persist(config, Err(e), id) == Err::<RouteView, (StatusCode, Seq<char>)>(
            (StatusCode::Internal, "fetch route failed: "@ + e),
        ),
        cluster::get_answer(Err(e)) == Err::<ClusterInferenceView, (StatusCode, Seq<char>)>(
            (StatusCode::Internal, "fetch route failed: "@ + e),
        ),
        cluster::managed_config(Err(e)) == Err::<Option<ConfigView>, (StatusCode, Seq<char>)>(
            (StatusCode::Internal, "fetch route failed: "@ + e),
        ),
{
}

/// What a client is told of the stored route is its provider, its model and its version, all as
/// they are stored, unless one of the names is blank, the setting is missing, or there is no route.
pub proof fn law_get_tells_what_is_stored(route: RouteView, config: ConfigView)
    ensures
        cluster::get_answer(Ok(None)) == Err::<ClusterInferenceView, (StatusCode, Seq<char>)>(
            (
                StatusCode::NotFound,
                "cluster inference is not configured; run 'nemoclaw cluster inference set --provider <name> --model <id>'"@,
            ),
        ),
        route.config is None ==> cluster::get_answer(Ok(Some(route))) == Err::<
            ClusterInferenceView,
            (StatusCode, Seq<char>),
        >((StatusCode::Internal, "managed route missing config"@)),
        route.config is None ==> cluster::set_answer(route) == Err::<
            ClusterInferenceView,
            (StatusCode, Seq<char>),
        >((StatusCode::Internal, "managed route missing config"@)),
        route.config == Some(config) ==> cluster::set_answer(route) == Ok::<
            ClusterInferenceView,
            (StatusCode, Seq<char>),
        >(
            ClusterInferenceView {
                provider_name: config.provider_name,
                model_id: config.model_id,
                version: route.version,
            },
        ),
        route.config == Some(config) && (text::blank(config.provider_name) || text::blank(
            config.model_id,
        )) ==> cluster::get_answer(Ok(Some(route))) == Err::<
            ClusterInferenceView,
            (StatusCode, Seq<char>),
        >(
            (
                StatusCode::FailedPrecondition,
                "managed route is missing provider/model metadata"@,
            ),
        ),
        route.config == Some(config) && !text::blank(config.provider_name) && !text::blank(
            config.model_id,
        ) ==> cluster::get_answer(Ok(Some(route))) == cluster::set_answer(route),
{
}

/// A stored route leads to its provider and its model as they are stored. A setting without a
/// provider or without a model is an error that says which; a route without a setting leads nowhere.
pub proof fn law_stored_route_leads_to_its_provider(route: RouteView, config: ConfigView)
    ensures
        route.config is None ==> cluster::managed_config(Ok(Some(route))) == Ok::<
            Option<ConfigView>,
            (StatusCode, Seq<char>),
        >(None),
        route.config == Some(config) && text::blank(config.provider_name)
            ==> cluster::managed_config(Ok(Some(route))) == Err::<
            Option<ConfigView>,
            (StatusCode, Seq<char>),
        >((StatusCode::FailedPrecondition, "managed route is missing provider_name"@)),
        route.config == Some(config) && !text::blank(config.provider_name) && text::blank(
            config.model_id,
        ) ==> cluster::managed_config(Ok(Some(route))) == Err::<
            Option<ConfigView>,
            (StatusCode, Seq<char>),
        >((StatusCode::FailedPrecondition, "managed route is missing model_id"@)),
        route.config == Some(config) && !text::blank(config.provider_name) && !text::blank(
            config.model_id,
        ) ==> cluster::managed_config(Ok(Some(route))) == Ok::<
            Option<ConfigView>,
            (StatusCode, Seq<char>),
        >(Some(config)),
{
}

/// A setting whose provider is gone resolves to an error that names the provider.
pub proof fn law_lost_provider_is_named(config: ConfigView, profiles: Seq<ProfileView>)
    ensures
        cluster::managed_route(config, Ok(None), profiles) == Err::<
            ResolvedView,
            (StatusCode, Seq<char>),
        >(
            (
                StatusCode::FailedPrecondition,
                "configured provider '"@ + config.provider_name + "' was not found"@,
            ),
        ),
{
}

/// The managed route goes by one name.
pub proof fn law_managed_route_has_one_name()
    ensures
        CLUSTER_INFERENCE_ROUTE_NAME@ == "inference.local"@,
{
}

/// The revision of a bundle goes by all that its route holds: routes that differ in anything are
/// hashed from different writes, and so are a route and none.
pub proof fn law_revision_covers_the_whole_route(a: ResolvedView, b: ResolvedView)
    ensures
        cluster::route_writes(a) == cluster::route_writes(b) ==> a == b,
        cluster::route_writes(a).len() > 0,
        cluster::revision_of(Some(a)).len() == 16,
        cluster::revision_of(Some(a)) == number::hex_digits(
            DefaultHasher::spec_finish(cluster::route_writes(a)) as nat,
            16,
        ),
        cluster::revision_of(None) == number::hex_digits(
            DefaultHasher::spec_finish(Seq::empty()) as nat,
            16,
        ),
{
    number::law_hex_shows_each_digit(
        DefaultHasher::spec_finish(cluster::route_writes(a)) as nat,
        16,
    );
    lemma_route_writes(a);
    lemma_route_writes(b);
    if cluster::route_writes(a) == cluster::route_writes(b) {
        assert(a.protocols.len() == b.protocols.len());
        assert forall|i: int| 0 <= i < a.protocols.len() implies a.protocols[i]
            == b.protocols[i] by {
            assert(encode_utf8(a.protocols[i]) == cluster::route_writes(a)[9 + 2 * i]);
            assert(encode_utf8(b.protocols[i]) == cluster::route_writes(b)[9 + 2 * i]);
            lemma_encoding_is_unique(a.protocols[i], b.protocols[i]);
        }
        assert(a.protocols =~= b.protocols);
        lemma_encoding_is_unique(a.name, b.name);
        lemma_encoding_is_unique(a.base_url, b.base_url);
        lemma_encoding_is_unique(a.model_id, b.model_id);
        lemma_encoding_is_unique(a.api_key, b.api_key);
        lemma_encoding_is_unique(a.provider_type, b.provider_type);
    }
}

proof fn lemma_encoding_is_unique(a: Seq<char>, b: Seq<char>)
    ensures
        encode_utf8(a) == encode_utf8(b) ==> a == b,
{
    encode_utf8_decode_utf8(a);
    encode_utf8_decode_utf8(b);
}

proof fn lemma_each_string_writes(v: Seq<Seq<char>>)
    ensures
        cluster::each_string_writes(v).len() == 2 * v.len(),
        forall|i: int|
            0 <= i < v.len() ==> cluster::each_string_writes(v)[2 * i] == encode_utf8(
                #[trigger] v[i],
            ),
    decreases v.len(),
{
    if v.len() > 0 {
        let front = v.drop_last();
        lemma_each_string_writes(front);
        assert forall|i: int| 0 <= i < v.len() implies cluster::each_string_writes(v)[2 * i]
            == encode_utf8(#[trigger] v[i]) by {
            if i < front.len() {
                assert(front[i] == v[i]);
                assert(cluster::each_string_writes(front)[2 * i] == encode_utf8(front[i]));
            }
        }
    }
}

proof fn lemma_route_writes(r: ResolvedView)
    ensures
        ({
            let w = cluster::route_writes(r);
            let n = r.protocols.len() as int;
            &&& w.len() == 11 + 2 * n
            &&& w[0] == encode_utf8(r.name)
            &&& w[2] == encode_utf8(r.base_url)
            &&& w[4] == encode_utf8(r.model_id)
            &&& w[6] == encode_utf8(r.api_key)
            &&& w[9 + 2 * n] == encode_utf8(r.provider_type)
            &&& forall|i: int|
                0 <= i < n ==> w[9 + 2 * i] == encode_utf8(#[trigger] r.protocols[i])
        }),
{
    lemma_each_string_writes(r.protocols);
    let w = cluster::route_writes(r);
    assert forall|i: int| 0 <= i < r.protocols.len() implies w[9 + 2 * i] == encode_utf8(
        #[trigger] r.protocols[i],
    ) by {
        assert(w[9 + 2 * i] == cluster::each_string_writes(r.protocols)[2 * i]);
    }
}

/// A first route and a later one hold the new setting, and keep what identifies a route.
pub proof fn law_next_route_holds_the_setting(
    existing: RouteView,
    config: ConfigView,
    id: Seq<char>,
)
    ensures
        cluster::next_route(None, config, id) == (RouteView {
            id,
            name: "inference.local"@,
            config: Some(config),
            version: 1,
        }),
        cluster::next_route(Some(existing), config, id).config == Some(config),
        cluster::next_route(Some(existing), config, id).id == existing.id,
        cluster::next_route(Some(existing), config, id).name == existing.name,
        existing.version < u64::MAX ==> cluster::next_route(Some(existing), config, id).version
            == existing.version + 1,
        existing.version == u64::MAX ==> cluster::next_route(Some(existing), config, id).version
            == u64::MAX,
{
}

} // verus!
