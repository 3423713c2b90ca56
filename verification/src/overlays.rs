//! The layered header and payload overlays of a dispatch target.

use vstd::prelude::*;

use crate::collisions::collides;
use crate::collisions::path_views;
use crate::collisions::paths_ordered;
use crate::config::Config;
use crate::dispatch::DispatchTarget;
use crate::json::colliding_paths;
use crate::json::deep_merge_value;
use crate::json::merged;
use crate::json::Json;
use crate::json::JsonObject;
use crate::json::JsonView;
use crate::names::lemma_entry;
use crate::names::lemma_named;
use crate::names::map_of;
use crate::names::ordered;
use crate::names::place_of;
use crate::names::NameTable;
use crate::request::ChatRequest;
use crate::request::RoutectlInternal;
use crate::text::eq_ignore_ascii_case;
use crate::text::push_pieces;
use crate::text::same_name;
use crate::text::split;
use crate::text::split_all;
use crate::text::split_each;
use crate::text::split_on;
use crate::text::texts;
use crate::text::with_pieces;

verus! {

// ---------------------------------------------------------------------------
// Reserved and list-valued headers
// ---------------------------------------------------------------------------

/// Whether a header carries a credential or its version, so that only a
/// provider entry may set it.
pub open spec fn auth_reserved(name: Seq<char>) -> bool {
    ||| same_name(name, "authorization"@)
    ||| same_name(name, "x-api-key"@)
    ||| same_name(name, "anthropic-version"@)
}

/// Whether a header belongs to the transport.
pub open spec fn managed_reserved(name: Seq<char>) -> bool {
    ||| same_name(name, "host"@)
    ||| same_name(name, "content-type"@)
    ||| same_name(name, "content-length"@)
}

/// Whether a header is the list-valued beta header, in any case.
pub open spec fn beta_header(name: Seq<char>) -> bool {
    same_name(name, "anthropic-beta"@)
}

/// Whether a header carries a credential or its version.
pub fn is_auth_reserved(name: &str) -> (yes: bool)
    ensures
        yes == auth_reserved(name@),
{
    eq_ignore_ascii_case(name, "authorization") || eq_ignore_ascii_case(name, "x-api-key")
        || eq_ignore_ascii_case(name, "anthropic-version")
}

/// Whether a header belongs to the transport.
pub fn is_managed_reserved(name: &str) -> (yes: bool)
    ensures
        yes == managed_reserved(name@),
{
    eq_ignore_ascii_case(name, "host") || eq_ignore_ascii_case(name, "content-type")
        || eq_ignore_ascii_case(name, "content-length")
}

fn is_beta_header(name: &str) -> (yes: bool)
    ensures
        yes == beta_header(name@),
{
    eq_ignore_ascii_case(name, "anthropic-beta")
}

// ---------------------------------------------------------------------------
// Beta flags
// ---------------------------------------------------------------------------

/// The value of the first beta header in the order of names; empty where there
/// is none.
pub open spec fn beta_value(entries: Seq<(Seq<char>, String)>) -> Seq<char>
    decreases entries.len(),
{
    if entries.len() == 0 {
        Seq::empty()
    } else if beta_header(entries[0].0) {
        entries[0].1@
    } else {
        beta_value(entries.drop_first())
    }
}

/// The entries of a header table that may be absent.
pub open spec fn layer(table: Option<&NameTable<String>>) -> Seq<(Seq<char>, String)> {
    match table {
        Some(t) => t@,
        None => Seq::empty(),
    }
}

/// `list` with the flags of the provider's beta header and then those of the
/// model's appended.
pub open spec fn with_configured_betas(
    list: Seq<Seq<char>>,
    provider: Seq<(Seq<char>, String)>,
    model: Seq<(Seq<char>, String)>,
) -> Seq<Seq<char>> {
    with_pieces(
        with_pieces(list, split_on(beta_value(provider), ',')),
        split_on(beta_value(model), ','),
    )
}

/// The beta flags of a request: its own, each entry read as a comma-separated
/// list, then the provider's, then the model's.
pub open spec fn beta_union(
    ingress: Seq<Seq<char>>,
    provider: Seq<(Seq<char>, String)>,
    model: Seq<(Seq<char>, String)>,
) -> Seq<Seq<char>> {
    with_configured_betas(
        with_pieces(Seq::empty(), split_each(ingress, ',')),
        provider,
        model,
    )
}

/// The value of the first beta header in the order of names.
fn beta_value_of(table: &NameTable<String>) -> (value: String)
    ensures
        value@ == beta_value(table@),
        forall|i: int|
            0 <= i < table@.len() && same_name((#[trigger] table@[i]).0, "anthropic-beta"@) && (
            forall|k: int| 0 <= k < i ==> !same_name((#[trigger] table@[k]).0, "anthropic-beta"@))
                ==> value@ == table@[i].1@,
        (forall|i: int|
            0 <= i < table@.len() ==> !same_name((#[trigger] table@[i]).0, "anthropic-beta"@))
            ==> value@.len() == 0,
{
    let n = table.len();
    let mut i: usize = 0;
    assert(table@.skip(0) =~= table@);
    while i < n
        invariant
            n == table@.len(),
            i <= n,
            beta_value(table@) == beta_value(table@.skip(i as int)),
            forall|k: int|
                0 <= k < i ==> !same_name((#[trigger] table@[k]).0, "anthropic-beta"@),
        decreases n - i,
    {
        let ghost rest = table@.skip(i as int);
        if is_beta_header(table.name_at(i)) {
            return table.value_at(i).clone();
        }
        assert(rest.drop_first() =~= table@.skip(i as int + 1));
        i = i + 1;
    }
    String::new()
}

/// Appends the flags of the provider's beta header and then those of the
/// model's.
fn push_configured_betas(
    list: &mut Vec<String>,
    provider_extras: Option<&NameTable<String>>,
    model_extras: &NameTable<String>,
)
    ensures
        texts(final(list)@) == with_configured_betas(
            texts(old(list)@),
            layer(provider_extras),
            model_extras@,
        ),
{
    let provider_value: String = match provider_extras {
        Some(table) => beta_value_of(table),
        None => String::new(),
    };
    let model_value: String = beta_value_of(model_extras);
    let pieces = split(provider_value.as_str(), ',');
    push_pieces(list, &pieces);
    let more = split(model_value.as_str(), ',');
    push_pieces(list, &more);
}

/// The operator's beta floor: the flags that the provider's and the model's
/// headers configure, trimmed, each once, in the order of their first mention.
/// The client's own flags are left out.
pub fn operator_betas(
    provider_extras: Option<&NameTable<String>>,
    model_extras: &NameTable<String>,
) -> (out: Vec<String>)
    ensures
        texts(out@) == with_configured_betas(
            Seq::empty(),
            layer(provider_extras),
            model_extras@,
        ),
{
    let mut out: Vec<String> = Vec::new();
    assert(texts(out@) =~= Seq::<Seq<char>>::empty());
    push_configured_betas(&mut out, provider_extras, model_extras);
    out
}

// ---------------------------------------------------------------------------
// Headers
// ---------------------------------------------------------------------------

/// Whether a model's header may be sent: it is not reserved.
pub open spec fn model_may_set(name: Seq<char>) -> bool {
    !auth_reserved(name) && !managed_reserved(name)
}

/// The headers composed from a provider's and a model's: the model's win, the
/// reserved ones among the model's are dropped, and the beta header is left
/// out because it rides on the request.
pub open spec fn composed_headers(
    provider: Map<Seq<char>, String>,
    model: Map<Seq<char>, String>,
) -> Map<Seq<char>, String> {
    Map::new(
        |name: Seq<char>|
            !beta_header(name) && (provider.dom().contains(name) || (model.dom().contains(name)
                && model_may_set(name))),
        |name: Seq<char>|
            if model.dom().contains(name) && model_may_set(name) {
                model[name]
            } else {
                provider[name]
            },
    )
}

/// The names among `entries` that `reserved` picks, in order.
pub open spec fn names_where(
    entries: Seq<(Seq<char>, String)>,
    reserved: spec_fn(Seq<char>) -> bool,
) -> Seq<Seq<char>>
    decreases entries.len(),
{
    if entries.len() == 0 {
        Seq::empty()
    } else {
        let before = names_where(entries.drop_last(), reserved);
        if reserved(entries.last().0) {
            before.push(entries.last().0)
        } else {
            before
        }
    }
}

/// The reserved headers that a model configured and that were dropped.
pub struct DroppedHeaders {
    /// Those that carry a credential or its version.
    pub auth: Vec<String>,
    /// Those that belong to the transport.
    pub managed: Vec<String>,
}

/// Composes the provider's and the model's headers onto the request.
///
/// The composed headers are published under `routectl_internal`. The beta
/// flags of the request become the union of its own, the provider's and the
/// model's, each split at its commas, trimmed, each once, in that order; where
/// that union is empty they stay as they are. Returns the reserved headers that the model configured.
pub fn merge_header_extras(
    provider_extras: Option<&NameTable<String>>,
    model_extras: &NameTable<String>,
    req: &mut ChatRequest,
) -> (dropped: DroppedHeaders)
    ensures
        ({
            let provider = layer(provider_extras);
            let union = beta_union(texts(old(req).anthropic_beta@), provider, model_extras@);
            &&& texts(final(req).anthropic_beta@) == (if union.len() == 0 {
                texts(old(req).anthropic_beta@)
            } else {
                union
            })
            &&& final(req).routectl_internal.header_extras is Some
            &&& final(req).routectl_internal.header_extras->0.map() == composed_headers(
                map_of(provider),
                model_extras.map(),
            )
        }),
        final(req).routectl_internal == (RoutectlInternal {
            header_extras: final(req).routectl_internal.header_extras,
            ..old(req).routectl_internal
        }),
        final(req).provider_extras == old(req).provider_extras,
        final(req).same_body(*old(req)),
        texts(dropped.auth@) == names_where(model_extras@, |name: Seq<char>| auth_reserved(name)),
        texts(dropped.managed@) == names_where(
            model_extras@,
            |name: Seq<char>| !auth_reserved(name) && managed_reserved(name),
        ),
{
    let ghost provider = layer(provider_extras);
    let mut headers: NameTable<String> = match provider_extras {
        Some(table) => provider_headers(table),
        None => {
            proof {
                assert(map_of(Seq::<(Seq<char>, String)>::empty()) =~= Map::empty());
                assert(without_betas(Map::<Seq<char>, String>::empty()) =~= Map::empty());
            }
            NameTable::new()
        },
    };
    let dropped = lay_model_headers(&mut headers, model_extras);
    assert(headers.map() =~= composed_headers(map_of(provider), model_extras.map()));

    let mut union: Vec<String> = Vec::new();
    assert(texts(union@) =~= Seq::<Seq<char>>::empty());
    let own = split_all(&req.anthropic_beta, ',');
    push_pieces(&mut union, &own);
    push_configured_betas(&mut union, provider_extras, model_extras);
    if union.len() > 0 {
        req.anthropic_beta = union;
    }
    req.routectl_internal.header_extras = Some(headers);
    dropped
}

/// Headers without the beta header.
spec fn without_betas(headers: Map<Seq<char>, String>) -> Map<Seq<char>, String> {
    Map::new(
        |name: Seq<char>| headers.dom().contains(name) && !beta_header(name),
        |name: Seq<char>| headers[name],
    )
}

/// The provider's own headers without the beta header.
fn provider_headers(table: &NameTable<String>) -> (out: NameTable<String>)
    ensures
        out.map() == without_betas(table.map()),
{
    let mut out: NameTable<String> = NameTable::new();
    let n = table.len();
    let mut i: usize = 0;
    while i < n
        invariant
            n == table@.len(),
            i <= n,
            ordered(table@),
            forall|name: Seq<char>|
                #[trigger] out.map().dom().contains(name) <==> (table.map().dom().contains(name)
                    && !beta_header(name) && place_of(table@, name) < i),
            forall|name: Seq<char>| #[trigger]
                out.map().dom().contains(name) ==> out.map()[name] == table.map()[name],
        decreases n - i,
    {
        proof {
            lemma_entry(table@, i as int);
        }
        let name = table.name_at(i);
        let ghost before = out.map();
        let ghost added = name@;
        if !is_beta_header(name) {
            out.insert(name.to_owned(), table.value_at(i).clone());
        }
        i = i + 1;
        assert forall|other: Seq<char>| #[trigger]
            out.map().dom().contains(other) <==> (table.map().dom().contains(other)
            && !beta_header(other) && place_of(table@, other) < i) by {
            if table.map().dom().contains(other) {
                lemma_named(table@, other);
            }
        }
    }
    assert(out.map() =~= without_betas(table.map())) by {
        assert forall|name: Seq<char>| #[trigger] out.map().dom().contains(name) == without_betas(
            table.map(),
        ).dom().contains(name) by {
            if table.map().dom().contains(name) {
                lemma_named(table@, name);
            }
        }
    }
    out
}

/// Lays the model's headers over `headers`, dropping the reserved ones and
/// leaving out the beta header.
fn lay_model_headers(headers: &mut NameTable<String>, model_extras: &NameTable<String>) -> (dropped:
    DroppedHeaders)
    requires
        forall|name: Seq<char>| #[trigger]
            old(headers).map().dom().contains(name) ==> !beta_header(name),
    ensures
        final(headers).map() == composed_headers(old(headers).map(), model_extras.map()),
        texts(dropped.auth@) == names_where(model_extras@, |name: Seq<char>| auth_reserved(name)),
        texts(dropped.managed@) == names_where(
            model_extras@,
            |name: Seq<char>| !auth_reserved(name) && managed_reserved(name),
        ),
{
    let ghost below = headers.map();
    let ghost auth_rule = |name: Seq<char>| auth_reserved(name);
    let ghost managed_rule = |name: Seq<char>| !auth_reserved(name) && managed_reserved(name);
    let mut auth: Vec<String> = Vec::new();
    let mut managed: Vec<String> = Vec::new();
    let n = model_extras.len();
    let mut i: usize = 0;
    proof {
        assert(model_extras@.take(0) =~= Seq::<(Seq<char>, String)>::empty());
        assert(texts(auth@) =~= Seq::<Seq<char>>::empty());
        assert(texts(managed@) =~= Seq::<Seq<char>>::empty());
    }
    while i < n
        invariant
            n == model_extras@.len(),
            i <= n,
            ordered(model_extras@),
            auth_rule == (|name: Seq<char>| auth_reserved(name)),
            managed_rule == (|name: Seq<char>| !auth_reserved(name) && managed_reserved(name)),
            forall|name: Seq<char>| #[trigger]
                below.dom().contains(name) ==> !beta_header(name),
            forall|name: Seq<char>| #[trigger]
                headers.map().dom().contains(name) <==> (below.dom().contains(name) || laid(
                    model_extras@,
                    i as int,
                    name,
                )),
            forall|name: Seq<char>| #[trigger]
                headers.map().dom().contains(name) ==> headers.map()[name] == (if laid(
                    model_extras@,
                    i as int,
                    name,
                ) {
                    model_extras.map()[name]
                } else {
                    below[name]
                }),
            texts(auth@) == names_where(model_extras@.take(i as int), auth_rule),
            texts(managed@) == names_where(model_extras@.take(i as int), managed_rule),
        decreases n - i,
    {
        proof {
            lemma_entry(model_extras@, i as int);
            assert(model_extras@.take(i as int + 1).drop_last() =~= model_extras@.take(i as int));
        }
        let ghost before_auth = texts(auth@);
        let ghost before_managed = texts(managed@);
        let name = model_extras.name_at(i);
        let ghost added = name@;
        if is_auth_reserved(name) {
            auth.push(name.to_owned());
            assert(texts(auth@) =~= before_auth.push(added));
        } else if is_managed_reserved(name) {
            managed.push(name.to_owned());
            assert(texts(managed@) =~= before_managed.push(added));
        } else if !is_beta_header(name) {
            headers.insert(name.to_owned(), model_extras.value_at(i).clone());
        }
        i = i + 1;
        assert forall|other: Seq<char>| other != added implies laid(model_extras@, i as int, other)
            == laid(model_extras@, i as int - 1, other) by {
            if map_of(model_extras@).dom().contains(other) {
                lemma_named(model_extras@, other);
            }
        }
    }
    proof {
        assert(model_extras@.take(i as int) =~= model_extras@);
        assert forall|name: Seq<char>| #[trigger] laid(model_extras@, i as int, name) == (
        model_extras.map().dom().contains(name) && model_may_set(name) && !beta_header(name)) by {
            if model_extras.map().dom().contains(name) {
                lemma_named(model_extras@, name);
            }
        }
        assert(headers.map() =~= composed_headers(below, model_extras.map()));
    }
    DroppedHeaders { auth, managed }
}

/// Whether the header stands among the first `upto` of a model's and is sent.
spec fn laid(entries: Seq<(Seq<char>, String)>, upto: int, name: Seq<char>) -> bool {
    &&& map_of(entries).dom().contains(name)
    &&& place_of(entries, name) < upto
    &&& model_may_set(name)
    &&& !beta_header(name)
}

// ---------------------------------------------------------------------------
// Payload
// ---------------------------------------------------------------------------

/// What an optional JSON value is.
pub open spec fn json_layer(value: Option<Json>) -> Option<JsonView> {
    match value {
        Some(v) => Some(v@),
        None => None,
    }
}

/// What an optional borrowed JSON value is.
pub open spec fn json_layer_ref(value: Option<&Json>) -> Option<JsonView> {
    match value {
        Some(v) => Some(v@),
        None => None,
    }
}

/// `layer` laid over `below`, or `below` where there is none.
pub open spec fn laid_over_json(below: JsonView, layer: Option<JsonView>) -> JsonView {
    match layer {
        Some(over) => merged(below, over),
        None => below,
    }
}

/// The object without members.
pub open spec fn no_members() -> JsonView {
    JsonView::Object(Map::empty())
}

/// The payload of a request with the provider's laid over its own and the
/// model's over both. Where neither configures one it stays as it is, and an
/// empty object is not put where there was none.
pub open spec fn layered_payload(
    ingress: Option<JsonView>,
    provider: Option<JsonView>,
    model: Option<JsonView>,
) -> Option<JsonView> {
    if provider is None && model is None {
        ingress
    } else {
        let whole = laid_over_json(laid_over_json(own_payload(ingress), provider), model);
        if whole == no_members() && ingress is None {
            None
        } else {
            Some(whole)
        }
    }
}

/// Lays the provider's and then the model's payload over the request's own.
pub fn merge_payload_extras(
    provider_extras: Option<&Json>,
    model_extras: Option<&Json>,
    req: &mut ChatRequest,
)
    ensures
        json_layer(final(req).provider_extras) == layered_payload(
            json_layer(old(req).provider_extras),
            json_layer_ref(provider_extras),
            json_layer_ref(model_extras),
        ),
        final(req).anthropic_beta == old(req).anthropic_beta,
        final(req).routectl_internal == old(req).routectl_internal,
        final(req).same_body(*old(req)),
{
    if provider_extras.is_none() && model_extras.is_none() {
        return;
    }
    let had_own = req.provider_extras.is_some();
    let mut whole: Json = match &req.provider_extras {
        Some(own) => own.copy(),
        None => Json::object(JsonObject::new()),
    };
    if let Some(layer) = provider_extras {
        deep_merge_value(&mut whole, layer);
    }
    if let Some(layer) = model_extras {
        deep_merge_value(&mut whole, layer);
    }
    if !had_own && whole.is_empty_object() {
        return;
    }
    req.provider_extras = Some(whole);
}

/// Where the payload layers of a target replace a value, by layer.
pub struct PayloadCollisions {
    /// Where the provider's replaces one of the request's own.
    pub provider: Vec<Vec<String>>,
    /// Where the model's replaces one of what lies below it.
    pub model: Vec<Vec<String>>,
}

/// Whether `paths` are those at which `layer` replaces a value of `below`, in
/// order.
pub open spec fn replaced_at(
    paths: Seq<Vec<String>>,
    below: JsonView,
    layer: Option<JsonView>,
) -> bool {
    &&& paths_ordered(path_views(paths))
    &&& forall|path: Seq<Seq<char>>| #[trigger]
        path_views(paths).contains(path) <==> layer is Some && collides(below, layer->0, path)
}

/// The payload that a request starts with.
pub open spec fn own_payload(ingress: Option<JsonView>) -> JsonView {
    match ingress {
        Some(own) => own,
        None => no_members(),
    }
}

/// Where [`merge_payload_extras`] is about to replace values, layer by layer.
pub fn payload_collisions(
    provider_extras: Option<&Json>,
    model_extras: Option<&Json>,
    req: &ChatRequest,
) -> (out: PayloadCollisions)
    ensures
        ({
            let own = own_payload(json_layer(req.provider_extras));
            let provider = json_layer_ref(provider_extras);
            &&& replaced_at(out.provider@, own, provider)
            &&& replaced_at(
                out.model@,
                laid_over_json(own, provider),
                json_layer_ref(model_extras),
            )
        }),
{
    let mut below: Json = match &req.provider_extras {
        Some(own) => own.copy(),
        None => Json::object(JsonObject::new()),
    };
    let mut provider: Vec<Vec<String>> = Vec::new();
    let mut model: Vec<Vec<String>> = Vec::new();
    assert(path_views(provider@) =~= Seq::<Seq<Seq<char>>>::empty());
    if let Some(layer) = provider_extras {
        provider = colliding_paths(&below, layer);
        deep_merge_value(&mut below, layer);
    }
    if let Some(layer) = model_extras {
        model = colliding_paths(&below, layer);
    }
    PayloadCollisions { provider, model }
}

// ---------------------------------------------------------------------------
// All overlays of a target
// ---------------------------------------------------------------------------

/// Composes the overlays of a target into the request of one attempt: headers
/// and beta flags, payload, and what rides along in process.
///
/// What the ingress captured survives (client headers, provenance, session
/// key, forwarded bearer, SDK fingerprint, replayed input); the target's knobs
/// are set from the target; everything else that rides along starts afresh.
/// Returns the reserved headers that the model configured.
pub fn apply_layered_overlays<P>(
    config: &Config,
    target: &DispatchTarget<P>,
    req: &mut ChatRequest,
) -> (dropped: DroppedHeaders)
    ensures
        ({
            let entries = config.providers.map();
            let known = entries.dom().contains(target.provider_name@);
            let provider = if known {
                entries[target.provider_name@].header_extras@
            } else {
                Seq::empty()
            };
            let payload = if known {
                json_layer(entries[target.provider_name@].payload_extras)
            } else {
                None
            };
            let model = target.model.header_extras@;
            let union = beta_union(texts(old(req).anthropic_beta@), provider, model);
            let carried = old(req).routectl_internal;
            let internal = final(req).routectl_internal;
            &&& texts(final(req).anthropic_beta@) == (if union.len() == 0 {
                texts(old(req).anthropic_beta@)
            } else {
                union
            })
            &&& json_layer(final(req).provider_extras) == layered_payload(
                json_layer(old(req).provider_extras),
                payload,
                json_layer(target.model.payload_extras),
            )
            &&& internal.header_extras is Some
            &&& internal.header_extras->0.map() == composed_headers(
                map_of(provider),
                map_of(model),
            )
            &&& internal.claude_code_headers == carried.claude_code_headers
            &&& internal.provenance == carried.provenance
            &&& internal.inbound_session_key == carried.inbound_session_key
            &&& internal.forwarded_bearer == carried.forwarded_bearer
            &&& internal.stainless_headers == carried.stainless_headers
            &&& internal.responses_input_passthrough == carried.responses_input_passthrough
            &&& internal.reasoning_dialect == target.reasoning_dialect
            &&& internal.history_reasoning == target.history_reasoning
            &&& internal.supports_adaptive_thinking == target.supports_adaptive_thinking
            &&& internal.effort_levels == target.effort_levels
            &&& internal.max_thinking_budget == target.max_thinking_budget
            &&& internal.max_output_tokens == target.max_output_tokens
            &&& texts(internal.operator_betas@) == with_configured_betas(
                Seq::empty(),
                provider,
                model,
            )
            &&& internal.anthropic_thinking_display is None
            &&& internal.originating_claude_code_session is None
            &&& !internal.background_probe
        }),
        final(req).same_body(*old(req)),
        texts(dropped.auth@) == names_where(
            target.model.header_extras@,
            |name: Seq<char>| auth_reserved(name),
        ),
        texts(dropped.managed@) == names_where(
            target.model.header_extras@,
            |name: Seq<char>| !auth_reserved(name) && managed_reserved(name),
        ),
{
    let entry = config.providers.get(target.provider_name.as_str());
    let provider_headers: Option<&NameTable<String>> = match entry {
        Some(e) => Some(&e.header_extras),
        None => None,
    };
    let provider_payload: Option<&Json> = match entry {
        Some(e) => e.payload_extras.as_ref(),
        None => None,
    };
    let dropped = merge_header_extras(provider_headers, &target.model.header_extras, req);
    merge_payload_extras(provider_payload, target.model.payload_extras.as_ref(), req);

    let mut carried = RoutectlInternal::default();
    std::mem::swap(&mut req.routectl_internal, &mut carried);
    req.routectl_internal = RoutectlInternal {
        reasoning_dialect: target.reasoning_dialect.clone(),
        history_reasoning: target.history_reasoning.clone(),
        claude_code_headers: carried.claude_code_headers,
        provenance: carried.provenance,
        header_extras: carried.header_extras,
        inbound_session_key: carried.inbound_session_key,
        forwarded_bearer: carried.forwarded_bearer,
        stainless_headers: carried.stainless_headers,
        responses_input_passthrough: carried.responses_input_passthrough,
        supports_adaptive_thinking: target.supports_adaptive_thinking,
        effort_levels: target.effort_levels.clone(),
        max_thinking_budget: target.max_thinking_budget,
        max_output_tokens: target.max_output_tokens,
        operator_betas: operator_betas(provider_headers, &target.model.header_extras),
        ..RoutectlInternal::default()
    };
    dropped
}

} // verus!
