use std::sync::Arc;

use routectl_router::config::Config;
use routectl_router::config::ProviderEntry;
use routectl_router::config::RuntimePolicy;
use routectl_router::dispatch::DispatchMeta;
use routectl_router::dispatch::DispatchTarget;
use routectl_router::dispatch::RouterOptions;
use routectl_router::json::Json;
use routectl_router::json::JsonObject;
use routectl_router::names::NameTable;
use routectl_router::overlays::apply_layered_overlays;
use routectl_router::overlays::is_auth_reserved;
use routectl_router::overlays::is_managed_reserved;
use routectl_router::overlays::merge_header_extras;
use routectl_router::overlays::merge_payload_extras;
use routectl_router::overlays::operator_betas;
use routectl_router::overlays::payload_collisions;
use routectl_router::request::ChatRequest;
use routectl_router::request::RequestProvenance;
use routectl_router::resolved::ResolvedModel;

fn headers(entries: &[(&str, &str)]) -> NameTable<String> {
    let mut table = NameTable::new();
    for (name, value) in entries {
        table.insert(name.to_string(), value.to_string());
    }
    table
}

fn request(betas: &[&str]) -> ChatRequest {
    let mut req = ChatRequest::for_model("m");
    req.anthropic_beta = betas.iter().map(|b| b.to_string()).collect();
    req
}

fn composed(req: &ChatRequest) -> Vec<(String, String)> {
    let table = req.routectl_internal.header_extras.as_ref().expect("headers were composed");
    (0..table.len())
        .map(|i| (table.name_at(i).to_string(), table.value_at(i).clone()))
        .collect()
}

fn pairs(entries: &[(&str, &str)]) -> Vec<(String, String)> {
    entries.iter().map(|(n, v)| (n.to_string(), v.to_string())).collect()
}

fn object(members: &[(&str, &str)]) -> Json {
    let mut out = JsonObject::new();
    for (key, value) in members {
        out.insert(key.to_string(), Json::Text(value.to_string()));
    }
    Json::object(out)
}

fn member<'a>(value: &'a Option<Json>, key: &str) -> Option<&'a str> {
    match value {
        Some(Json::Object(members)) => match members.get(key) {
            Some(Json::Text(text)) => Some(text.as_str()),
            _ => None,
        },
        _ => None,
    }
}

#[test]
fn reserved_headers_are_known_in_any_case() {
    for name in ["authorization", "X-Api-Key", "Anthropic-VERSION"] {
        assert!(is_auth_reserved(name));
        assert!(!is_managed_reserved(name));
    }
    for name in ["HOST", "content-type", "Content-Length"] {
        assert!(is_managed_reserved(name));
        assert!(!is_auth_reserved(name));
    }
    for name in ["anthropic-beta", "x-org", "authorization2", ""] {
        assert!(!is_auth_reserved(name));
        assert!(!is_managed_reserved(name));
    }
}

#[test]
fn the_model_wins_and_may_not_set_reserved_headers() {
    let provider = headers(&[("Authorization", "Bearer p"), ("Host", "h"), ("x-org", "p")]);
    let model = headers(&[
        ("Authorization", "Bearer m"),
        ("content-type", "text/plain"),
        ("x-api-key", "k"),
        ("x-org", "m"),
        ("x-team", "t"),
    ]);
    let mut req = request(&[]);

    let dropped = merge_header_extras(Some(&provider), &model, &mut req);

    assert_eq!(
        composed(&req),
        pairs(&[("Authorization", "Bearer p"), ("Host", "h"), ("x-org", "m"), ("x-team", "t")]),
    );
    assert_eq!(dropped.auth, vec!["Authorization", "x-api-key"]);
    assert_eq!(dropped.managed, vec!["content-type"]);
}

#[test]
fn beta_flags_are_joined_in_order_and_never_sent_as_a_header() {
    let provider = headers(&[("Anthropic-Beta", " p1 , c1,,p2"), ("x-org", "p")]);
    let model = headers(&[("anthropic-beta", "m1,p2, c1")]);
    let mut req = request(&["c1", " c2 ", "c1", ""]);

    merge_header_extras(Some(&provider), &model, &mut req);

    assert_eq!(req.anthropic_beta, vec!["c1", "c2", "p1", "p2", "m1"]);
    assert_eq!(composed(&req), pairs(&[("x-org", "p")]));
    assert_eq!(operator_betas(Some(&provider), &model), vec!["p1", "c1", "p2", "m1"]);
    for flag in operator_betas(Some(&provider), &model) {
        assert!(req.anthropic_beta.contains(&flag));
    }

    let once = req.anthropic_beta.clone();
    merge_header_extras(Some(&provider), &model, &mut req);
    assert_eq!(req.anthropic_beta, once);
}

#[test]
fn a_comma_in_a_client_entry_parts_two_flags() {
    let mut req = request(&["a,b"]);
    merge_header_extras(
        Some(&headers(&[("anthropic-beta", "a")])),
        &NameTable::new(),
        &mut req,
    );
    assert_eq!(req.anthropic_beta, vec!["a", "b"]);

    let mut req = request(&[" c2 ,c1", "c1,,c3 , ", "c2"]);
    merge_header_extras(None, &headers(&[("anthropic-beta", "m1,c3")]), &mut req);
    assert_eq!(req.anthropic_beta, vec!["c2", "c1", "c3", "m1"]);
    assert!(req.anthropic_beta.iter().all(|flag| !flag.contains(',')));
    let once = req.anthropic_beta.clone();
    merge_header_extras(None, &headers(&[("anthropic-beta", "m1,c3")]), &mut req);
    assert_eq!(req.anthropic_beta, once);
}

#[test]
fn the_first_beta_header_in_the_order_of_names_counts() {
    let provider = headers(&[("anthropic-beta", "low"), ("Anthropic-Beta", "high")]);

    assert_eq!(operator_betas(Some(&provider), &NameTable::new()), vec!["high"]);
}

#[test]
fn nothing_configured_leaves_nothing_composed() {
    let mut req = request(&[]);
    let dropped = merge_header_extras(None, &NameTable::new(), &mut req);

    assert_eq!(composed(&req), pairs(&[]));
    assert!(req.anthropic_beta.is_empty());
    assert!(dropped.auth.is_empty());
    assert!(dropped.managed.is_empty());
    assert!(operator_betas(None, &NameTable::new()).is_empty());
}

#[test]
fn blank_flags_of_the_client_stay_where_nothing_else_is_left() {
    let mut req = request(&[" ", ""]);

    merge_header_extras(None, &headers(&[("anthropic-beta", " , ")]), &mut req);

    assert_eq!(req.anthropic_beta, vec![" ", ""]);
}

#[test]
fn payloads_are_laid_over_in_the_order_of_their_layers() {
    let mut req = request(&[]);
    req.provider_extras = Some(object(&[("a", "client"), ("b", "client"), ("c", "client")]));

    merge_payload_extras(
        Some(&object(&[("b", "provider"), ("c", "provider")])),
        Some(&object(&[("c", "model"), ("d", "model")])),
        &mut req,
    );

    assert_eq!(member(&req.provider_extras, "a"), Some("client"));
    assert_eq!(member(&req.provider_extras, "b"), Some("provider"));
    assert_eq!(member(&req.provider_extras, "c"), Some("model"));
    assert_eq!(member(&req.provider_extras, "d"), Some("model"));
}

#[test]
fn collisions_are_told_by_layer() {
    let mut req = request(&[]);
    req.provider_extras = Some(object(&[("a", "client"), ("b", "client")]));
    let provider = object(&[("b", "provider"), ("c", "provider")]);
    let model = object(&[("a", "model"), ("c", "model"), ("d", "model")]);

    let out = payload_collisions(Some(&provider), Some(&model), &req);
    assert_eq!(out.provider, vec![vec!["b"]]);
    assert_eq!(out.model, vec![vec!["a"], vec!["c"]]);

    let none = payload_collisions(None, None, &req);
    assert!(none.provider.is_empty());
    assert!(none.model.is_empty());
}

#[test]
fn an_empty_payload_configured_adds_none() {
    let mut req = request(&[]);

    merge_payload_extras(Some(&object(&[])), Some(&object(&[])), &mut req);
    assert!(req.provider_extras.is_none());

    merge_payload_extras(None, None, &mut req);
    assert!(req.provider_extras.is_none());

    req.provider_extras = Some(object(&[]));
    merge_payload_extras(Some(&object(&[])), None, &mut req);
    assert!(req.provider_extras.is_some());
}

fn target(provider_name: &str, model: ResolvedModel<u8>) -> DispatchTarget<u8> {
    let mut capabilities = NameTable::new();
    capabilities.insert("thinking".to_string(), true);
    capabilities.insert("tools".to_string(), false);
    DispatchTarget {
        provider_name: provider_name.to_string(),
        provider_kind: Some("anthropic-api"),
        use_forwarded_credential: false,
        state_key: "m1".to_string(),
        seat: Some("account".to_string()),
        upstream: "wire".to_string(),
        provider: None,
        supports_adaptive_thinking: true,
        effort_levels: Arc::new(vec!["low".to_string(), "high".to_string()]),
        nickname: Some("m1".to_string()),
        model: Arc::new(model),
        reasoning_dialect: Some("dialect".to_string()),
        history_reasoning: Some("keep".to_string()),
        max_thinking_budget: 31,
        max_output_tokens: 32,
        selection_decision: Some("pinned"),
        capabilities,
    }
}

#[test]
fn a_target_composes_its_overlays_and_its_knobs() {
    let mut config = Config::empty();
    config.providers.insert(
        "p1".to_string(),
        ProviderEntry {
            kind: "anthropic-api",
            header_extras: headers(&[("anthropic-beta", "floor"), ("x-org", "p")]),
            payload_extras: Some(object(&[("a", "provider")])),
            runtime: RuntimePolicy::default(),
            forwarded_base_url: None,
            attributable: true,
        },
    );
    let mut model = ResolvedModel::direct("m1", "p1", Arc::new(0u8), "wire");
    model.header_extras = headers(&[("x-team", "t"), ("host", "h")]);
    model.payload_extras = Some(object(&[("b", "model")]));
    let mut req = request(&["client"]);
    req.routectl_internal.inbound_session_key = Some("session".to_string());
    req.routectl_internal.forwarded_bearer = Some("bearer".to_string());
    req.routectl_internal.provenance = RequestProvenance::Ingress("messages");
    req.routectl_internal.background_probe = true;
    req.routectl_internal.anthropic_thinking_display = Some("summarized".to_string());

    let dropped = apply_layered_overlays(&config, &target("p1", model), &mut req);

    assert_eq!(dropped.managed, vec!["host"]);
    assert_eq!(composed(&req), pairs(&[("x-org", "p"), ("x-team", "t")]));
    assert_eq!(req.anthropic_beta, vec!["client", "floor"]);
    assert_eq!(member(&req.provider_extras, "a"), Some("provider"));
    assert_eq!(member(&req.provider_extras, "b"), Some("model"));
    let internal = &req.routectl_internal;
    assert_eq!(internal.inbound_session_key.as_deref(), Some("session"));
    assert_eq!(internal.forwarded_bearer.as_deref(), Some("bearer"));
    assert!(matches!(internal.provenance, RequestProvenance::Ingress("messages")));
    assert_eq!(internal.reasoning_dialect.as_deref(), Some("dialect"));
    assert_eq!(internal.history_reasoning.as_deref(), Some("keep"));
    assert!(internal.supports_adaptive_thinking);
    assert_eq!(*internal.effort_levels, vec!["low", "high"]);
    assert_eq!(internal.max_thinking_budget, 31);
    assert_eq!(internal.max_output_tokens, 32);
    assert_eq!(internal.operator_betas, vec!["floor"]);
    assert!(internal.anthropic_thinking_display.is_none());
    assert!(!internal.background_probe);
    assert_eq!(req.model, "m");
}

#[test]
fn a_target_without_a_provider_entry_has_the_layers_of_its_model() {
    let mut model = ResolvedModel::direct("m1", "gone", Arc::new(0u8), "wire");
    model.header_extras = headers(&[("x-team", "t")]);
    let mut req = request(&["client"]);

    apply_layered_overlays(&Config::empty(), &target("gone", model), &mut req);

    assert_eq!(composed(&req), pairs(&[("x-team", "t")]));
    assert_eq!(req.anthropic_beta, vec!["client"]);
    assert!(req.provider_extras.is_none());
    assert!(req.routectl_internal.operator_betas.is_empty());
}

#[test]
fn metadata_names_the_target_that_served() {
    let mut served = target("p1", ResolvedModel::direct("m1", "p1", Arc::new(0u8), "wire"));
    let mut meta = DispatchMeta::for_alias("smart");
    assert_eq!(meta.resolved_alias, "smart");
    assert_eq!(meta.attempt_count, 0);

    meta.mark_target(&served, "requested");
    assert_eq!(meta.served_provider.as_deref(), Some("p1"));
    assert_eq!(meta.served_provider_kind.as_deref(), Some("anthropic-api"));
    assert_eq!(meta.served_model.as_deref(), Some("m1"));
    assert_eq!(meta.served_upstream.as_deref(), Some("wire"));
    assert_eq!(meta.served_seat.as_deref(), Some("account"));
    assert_eq!(meta.selection_decision, Some("pinned"));
    assert!(!meta.served_forwarded_credential);

    served.use_forwarded_credential = true;
    meta.mark_target(&served, "requested");
    assert_eq!(meta.served_upstream.as_deref(), Some("requested"));
    assert_eq!(meta.served_seat, None);
    assert!(meta.served_forwarded_credential);
}

#[test]
fn what_is_known_of_a_feature_comes_from_the_target() {
    let known = target("p1", ResolvedModel::direct("m1", "p1", Arc::new(0u8), "wire"));

    assert_eq!(known.capability_prior("thinking"), Some(true));
    assert_eq!(known.capability_prior("tools"), Some(false));
    assert_eq!(known.capability_prior("vision"), None);
    assert!(!RouterOptions::new().disable_fallbacks);
    assert!(!RouterOptions::default().disable_fallbacks);
}
