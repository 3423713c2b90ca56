//! Laws of the overlays: of the beta flags, the headers and the payload.

use vstd::prelude::*;

use crate::collisions::collides;
use crate::collisions::path_before;
use crate::collisions::path_views;
use crate::json::lemma_merged_objects;
use crate::json::merged;
use crate::json::overlaid;
use crate::json::Json;
use crate::json::JsonView;
use crate::names::NameTable;
use crate::overlays::auth_reserved;
use crate::overlays::beta_header;
use crate::overlays::beta_union;
use crate::overlays::beta_value;
use crate::overlays::composed_headers;
use crate::overlays::json_layer;
use crate::overlays::json_layer_ref;
use crate::overlays::laid_over_json;
use crate::overlays::layer;
use crate::overlays::layered_payload;
use crate::overlays::managed_reserved;
use crate::overlays::model_may_set;
use crate::overlays::names_where;
use crate::overlays::no_members;
use crate::overlays::own_payload;
use crate::overlays::replaced_at;
use crate::overlays::with_configured_betas;
use crate::text::comes_before;
use crate::text::is_white_space;
use crate::text::lemma_pushed;
use crate::text::same_name;
use crate::text::split_each;
use crate::text::split_on;
use crate::text::texts;
use crate::text::trim_end;
use crate::text::trim_start;
use crate::text::trimmed;
use crate::text::with_pieces;
use crate::text::with_token;
use crate::text_laws::law_pieces_in_order;

verus! {

// ---------------------------------------------------------------------------
// Flags
// ---------------------------------------------------------------------------

/// Whether a list holds proper flags: none empty, none with whitespace at its
/// ends, none twice.
pub open spec fn proper_flags(list: Seq<Seq<char>>) -> bool {
    &&& list.no_duplicates()
    &&& forall|i: int|
        0 <= i < list.len() ==> (#[trigger] list[i]).len() > 0 && trimmed(list[i]) == list[i]
}

proof fn lemma_trim_end_keeps_start(s: Seq<char>)
    ensures
        trim_end(s).len() <= s.len(),
        trim_end(s) == s.take(trim_end(s).len() as int),
        trim_end(s).len() > 0 ==> !is_white_space(trim_end(s).last()),
    decreases s.len(),
{
    if s.len() > 0 && is_white_space(s.last()) {
        lemma_trim_end_keeps_start(s.drop_last());
        let n = trim_end(s).len() as int;
        assert(s.drop_last().take(n) =~= s.take(n));
    } else {
        assert(s.take(s.len() as int) =~= s);
    }
}

proof fn lemma_trim_start(s: Seq<char>)
    ensures
        trim_start(s).len() > 0 ==> !is_white_space(trim_start(s)[0]),
    decreases s.len(),
{
    if s.len() > 0 && is_white_space(s[0]) {
        lemma_trim_start(s.drop_first());
    }
}

/// Trimming twice is trimming once.
pub proof fn law_trim_idempotent(s: Seq<char>)
    ensures
        trimmed(trimmed(s)) == trimmed(s),
{
    let t = trimmed(s);
    lemma_trim_start(s);
    lemma_trim_end_keeps_start(trim_start(s));
    if t.len() > 0 {
        assert(t[0] == trim_start(s)[0]);
        assert(trim_start(t) == t);
        assert(trim_end(t) == t);
    }
}

/// Appending pieces keeps the list as it was at its front, keeps it proper,
/// and brings in every trimmed piece that is not empty and nothing else.
pub proof fn law_pieces_appended(list: Seq<Seq<char>>, pieces: Seq<Seq<char>>)
    requires
        proper_flags(list),
    ensures
        proper_flags(with_pieces(list, pieces)),
        list.len() <= with_pieces(list, pieces).len(),
        with_pieces(list, pieces).take(list.len() as int) == list,
        forall|t: Seq<char>| #[trigger]
            with_pieces(list, pieces).contains(t) <==> list.contains(t) || (t.len() > 0 && exists|
                i: int,
            |
                0 <= i < pieces.len() && trimmed(#[trigger] pieces[i]) == t),
    decreases pieces.len(),
{
    let all = with_pieces(list, pieces);
    if pieces.len() == 0 {
        assert(all.take(list.len() as int) =~= list);
    } else {
        let shorter = pieces.drop_last();
        let before = with_pieces(list, shorter);
        let token = trimmed(pieces.last());
        law_pieces_appended(list, shorter);
        law_trim_idempotent(pieces.last());
        assert(all == with_token(before, token));
        if token.len() > 0 && !before.contains(token) {
            assert(all.take(list.len() as int) =~= before.take(list.len() as int));
            assert forall|i: int, j: int| 0 <= i < all.len() && 0 <= j < all.len() && i != j implies all[i]
                != all[j] by {
                if i < before.len() && j < before.len() {
                    assert(before[i] != before[j]);
                } else if i < before.len() {
                    assert(before.contains(before[i]));
                } else {
                    assert(before.contains(before[j]));
                }
            }
        }
        assert forall|t: Seq<char>| #[trigger] all.contains(t) <==> list.contains(t) || (t.len()
            > 0 && exists|i: int| 0 <= i < pieces.len() && trimmed(#[trigger] pieces[i]) == t) by {
            if before.contains(t) {
                let k = choose|k: int| 0 <= k < before.len() && before[k] == t;
                assert(all[k] == t);
                if !list.contains(t) {
                    let i = choose|i: int|
                        0 <= i < shorter.len() && trimmed(#[trigger] shorter[i]) == t;
                    assert(trimmed(pieces[i]) == t);
                }
            }
            if all.contains(t) && !before.contains(t) {
                let k = choose|k: int| 0 <= k < all.len() && all[k] == t;
                if k < before.len() {
                    assert(before[k] == t);
                }
                assert(t == token);
                assert(trimmed(pieces[pieces.len() - 1]) == t);
            }
            if t.len() > 0 && exists|i: int|
                0 <= i < pieces.len() && trimmed(#[trigger] pieces[i]) == t {
                let i = choose|i: int| 0 <= i < pieces.len() && trimmed(#[trigger] pieces[i]) == t;
                if i < shorter.len() {
                    assert(trimmed(shorter[i]) == t);
                    assert(before.contains(t));
                } else {
                    assert(t == token);
                    if !before.contains(token) {
                        assert(all[before.len() as int] == t);
                    }
                }
            }
            if list.contains(t) {
                assert(before.contains(t));
            }
        }
    }
}

proof fn lemma_nothing_new(list: Seq<Seq<char>>, pieces: Seq<Seq<char>>)
    requires
        proper_flags(list),
        forall|i: int|
            0 <= i < pieces.len() ==> trimmed(#[trigger] pieces[i]).len() == 0 || list.contains(
                trimmed(pieces[i]),
            ),
    ensures
        with_pieces(list, pieces) == list,
    decreases pieces.len(),
{
    if pieces.len() > 0 {
        let shorter = pieces.drop_last();
        assert forall|i: int| 0 <= i < shorter.len() implies trimmed(
            #[trigger] shorter[i],
        ).len() == 0 || list.contains(trimmed(shorter[i])) by {
            assert(shorter[i] == pieces[i]);
        }
        lemma_nothing_new(list, shorter);
        assert(pieces.last() == pieces[pieces.len() - 1]);
    }
}

proof fn lemma_proper_from_nothing(list: Seq<Seq<char>>)
    requires
        proper_flags(list),
    ensures
        with_pieces(Seq::empty(), list) == list,
    decreases list.len(),
{
    if list.len() == 0 {
        assert(list =~= Seq::<Seq<char>>::empty());
    } else {
        let shorter = list.drop_last();
        assert(proper_flags(shorter)) by {
            assert forall|i: int| 0 <= i < shorter.len() implies (#[trigger] shorter[i]).len() > 0
                && trimmed(shorter[i]) == shorter[i] by {
                assert(shorter[i] == list[i]);
            }
            assert forall|i: int, j: int|
                0 <= i < shorter.len() && 0 <= j < shorter.len() && i != j implies shorter[i]
                != shorter[j] by {
                assert(list[i] != list[j]);
            }
        }
        lemma_proper_from_nothing(shorter);
        let last = list[list.len() - 1];
        assert(list.last() == last && trimmed(last) == last && last.len() > 0);
        if shorter.contains(last) {
            let k = choose|k: int| 0 <= k < shorter.len() && shorter[k] == last;
            assert(list[k] == list[list.len() - 1]);
        }
        assert(shorter.push(last) =~= list);
    }
}

// ---------------------------------------------------------------------------
// Commas
// ---------------------------------------------------------------------------

/// Whether no text of a list holds a comma.
pub open spec fn comma_free(list: Seq<Seq<char>>) -> bool {
    forall|i: int| 0 <= i < list.len() ==> !(#[trigger] list[i]).contains(',')
}

proof fn lemma_split_comma_free(s: Seq<char>)
    ensures
        split_on(s, ',').len() > 0,
        comma_free(split_on(s, ',')),
    decreases s.len(),
{
    if s.len() > 0 {
        let before = split_on(s.drop_last(), ',');
        let after = split_on(s, ',');
        lemma_split_comma_free(s.drop_last());
        assert forall|i: int| 0 <= i < after.len() implies !(#[trigger] after[i]).contains(',') by {
            if i < after.len() - 1 {
                assert(after[i] == before[i]);
            } else if s.last() != ',' {
                let piece = before[before.len() - 1];
                assert(after[i] == piece.push(s.last()));
                lemma_pushed(piece, s.last(), ',');
            }
        }
    }
}

proof fn lemma_split_each_comma_free(entries: Seq<Seq<char>>)
    ensures
        comma_free(split_each(entries, ',')),
    decreases entries.len(),
{
    if entries.len() > 0 {
        lemma_split_each_comma_free(entries.drop_last());
        lemma_split_comma_free(entries.last());
    }
}

/// A text without a comma is its own only piece.
proof fn lemma_split_whole(s: Seq<char>)
    requires
        !s.contains(','),
    ensures
        split_on(s, ',') == seq![s],
    decreases s.len(),
{
    if s.len() == 0 {
        assert(s =~= Seq::<char>::empty());
    } else {
        assert forall|i: int| 0 <= i < s.drop_last().len() implies s.drop_last()[i] != ',' by {
            assert(s[i] != ',');
        }
        lemma_split_whole(s.drop_last());
        assert(s[s.len() - 1] != ',');
        assert(s.drop_last().push(s.last()) =~= s);
        assert(split_on(s, ',') =~= seq![s]);
    }
}

proof fn lemma_split_each_whole(entries: Seq<Seq<char>>)
    requires
        comma_free(entries),
    ensures
        split_each(entries, ',') == entries,
    decreases entries.len(),
{
    if entries.len() > 0 {
        let shorter = entries.drop_last();
        assert forall|i: int| 0 <= i < shorter.len() implies !(#[trigger] shorter[i]).contains(
            ',',
        ) by {
            assert(shorter[i] == entries[i]);
        }
        lemma_split_each_whole(shorter);
        assert(!entries[entries.len() - 1].contains(','));
        lemma_split_whole(entries.last());
    }
    assert(split_each(entries, ',') =~= entries);
}

proof fn lemma_trim_start_suffix(s: Seq<char>)
    ensures
        trim_start(s).len() <= s.len(),
        trim_start(s) == s.skip(s.len() - trim_start(s).len()),
    decreases s.len(),
{
    if s.len() > 0 && is_white_space(s[0]) {
        lemma_trim_start_suffix(s.drop_first());
        let n = trim_start(s).len();
        assert(s.drop_first().skip(s.len() - 1 - n) =~= s.skip(s.len() - n));
    } else {
        assert(s.skip(0) =~= s);
    }
}

/// Trimming brings in no character.
proof fn lemma_trim_keeps_out(s: Seq<char>, c: char)
    requires
        !s.contains(c),
    ensures
        !trimmed(s).contains(c),
{
    let front = trim_start(s);
    let t = trimmed(s);
    lemma_trim_start_suffix(s);
    lemma_trim_end_keeps_start(front);
    if t.contains(c) {
        let i = t.index_of(c);
        assert(t[i] == front[i]);
        assert(front[i] == s[s.len() - front.len() + i]);
    }
}

proof fn lemma_pieces_comma_free(list: Seq<Seq<char>>, pieces: Seq<Seq<char>>)
    requires
        comma_free(list),
        comma_free(pieces),
    ensures
        comma_free(with_pieces(list, pieces)),
    decreases pieces.len(),
{
    if pieces.len() > 0 {
        let shorter = pieces.drop_last();
        assert forall|i: int| 0 <= i < shorter.len() implies !(#[trigger] shorter[i]).contains(
            ',',
        ) by {
            assert(shorter[i] == pieces[i]);
        }
        lemma_pieces_comma_free(list, shorter);
        assert(!pieces[pieces.len() - 1].contains(','));
        lemma_trim_keeps_out(pieces.last(), ',');
    }
}

/// No flag of the union holds a comma, whoever wrote it: where several are
/// written in one entry, each becomes a flag of its own.
pub proof fn law_beta_union_comma_free(
    ingress: Seq<Seq<char>>,
    provider: Seq<(Seq<char>, String)>,
    model: Seq<(Seq<char>, String)>,
)
    ensures
        comma_free(beta_union(ingress, provider, model)),
{
    let own = with_pieces(Seq::empty(), split_each(ingress, ','));
    lemma_split_each_comma_free(ingress);
    lemma_split_comma_free(beta_value(provider));
    lemma_split_comma_free(beta_value(model));
    lemma_pieces_comma_free(Seq::empty(), split_each(ingress, ','));
    lemma_pieces_comma_free(own, split_on(beta_value(provider), ','));
    lemma_pieces_comma_free(
        with_pieces(own, split_on(beta_value(provider), ',')),
        split_on(beta_value(model), ','),
    );
}

// ---------------------------------------------------------------------------
// The union
// ---------------------------------------------------------------------------

/// The flags of a request are proper and keep their order: first its own, then
/// those that the provider's header adds, then those that the model's adds.
pub proof fn law_beta_union_ordered(
    ingress: Seq<Seq<char>>,
    provider: Seq<(Seq<char>, String)>,
    model: Seq<(Seq<char>, String)>,
)
    ensures
        ({
            let own = with_pieces(Seq::empty(), split_each(ingress, ','));
            let with_provider = with_pieces(own, split_on(beta_value(provider), ','));
            let union = beta_union(ingress, provider, model);
            &&& proper_flags(union)
            &&& own.len() <= with_provider.len() <= union.len()
            &&& union.take(own.len() as int) == own
            &&& union.take(with_provider.len() as int) == with_provider
        }),
{
    let own = with_pieces(Seq::empty(), split_each(ingress, ','));
    let with_provider = with_pieces(own, split_on(beta_value(provider), ','));
    let union = beta_union(ingress, provider, model);
    law_pieces_appended(Seq::empty(), split_each(ingress, ','));
    law_pieces_appended(own, split_on(beta_value(provider), ','));
    law_pieces_appended(with_provider, split_on(beta_value(model), ','));
    assert(union.take(own.len() as int) =~= with_provider.take(own.len() as int));
}

/// A flag is in the union exactly if the request, the provider's header or the
/// model's header names it.
pub proof fn law_beta_union_complete(
    ingress: Seq<Seq<char>>,
    provider: Seq<(Seq<char>, String)>,
    model: Seq<(Seq<char>, String)>,
    flag: Seq<char>,
)
    ensures
        beta_union(ingress, provider, model).contains(flag) <==> flag.len() > 0 && (
        entry_names_flag(ingress, flag) || names_flag(split_on(beta_value(provider), ','), flag) || names_flag(
            split_on(beta_value(model), ','),
            flag,
        )),
{
    let own = with_pieces(Seq::empty(), split_each(ingress, ','));
    let with_provider = with_pieces(own, split_on(beta_value(provider), ','));
    law_pieces_appended(Seq::empty(), split_each(ingress, ','));
    law_pieces_appended(own, split_on(beta_value(provider), ','));
    law_pieces_appended(with_provider, split_on(beta_value(model), ','));
    let union = beta_union(ingress, provider, model);
    assert(union.contains(flag) <==> with_provider.contains(flag) || (flag.len() > 0 && names_flag(
        split_on(beta_value(model), ','),
        flag,
    )));
    assert(with_provider.contains(flag) <==> own.contains(flag) || (flag.len() > 0 && names_flag(
        split_on(beta_value(provider), ','),
        flag,
    )));
    assert(own.contains(flag) <==> flag.len() > 0 && names_flag(split_each(ingress, ','), flag));
    lemma_entry_names_flag(ingress, flag);
}

/// Whether an entry of a request names a flag between its commas.
pub open spec fn entry_names_flag(ingress: Seq<Seq<char>>, flag: Seq<char>) -> bool {
    exists|i: int|
        0 <= i < ingress.len() && names_flag(split_on(#[trigger] ingress[i], ','), flag)
}

proof fn lemma_entry_names_flag(ingress: Seq<Seq<char>>, flag: Seq<char>)
    ensures
        names_flag(split_each(ingress, ','), flag) <==> entry_names_flag(ingress, flag),
    decreases ingress.len(),
{
    if ingress.len() > 0 {
        let shorter = ingress.drop_last();
        let before = split_each(shorter, ',');
        let more = split_on(ingress.last(), ',');
        let all = split_each(ingress, ',');
        lemma_entry_names_flag(shorter, flag);
        assert(ingress.last() == ingress[ingress.len() - 1]);
        if names_flag(all, flag) {
            let i = choose|i: int| 0 <= i < all.len() && trimmed(#[trigger] all[i]) == flag;
            if i < before.len() {
                assert(trimmed(before[i]) == flag);
            } else {
                assert(trimmed(more[i - before.len()]) == flag);
                assert(names_flag(split_on(ingress[ingress.len() - 1], ','), flag));
            }
        }
        if names_flag(before, flag) {
            let i = choose|i: int| 0 <= i < before.len() && trimmed(#[trigger] before[i]) == flag;
            assert(trimmed(all[i]) == flag);
            let e = choose|e: int|
                0 <= e < shorter.len() && names_flag(split_on(#[trigger] shorter[e], ','), flag);
            assert(names_flag(split_on(ingress[e], ','), flag));
        }
        if entry_names_flag(ingress, flag) {
            let e = choose|e: int|
                0 <= e < ingress.len() && names_flag(split_on(#[trigger] ingress[e], ','), flag);
            if e < shorter.len() {
                assert(names_flag(split_on(shorter[e], ','), flag));
            } else {
                let i = choose|i: int| 0 <= i < more.len() && trimmed(#[trigger] more[i]) == flag;
                assert(trimmed(all[before.len() + i]) == flag);
            }
        }
    }
}

/// Whether a piece names a flag once it is trimmed.
pub open spec fn names_flag(pieces: Seq<Seq<char>>, flag: Seq<char>) -> bool {
    exists|i: int| 0 <= i < pieces.len() && trimmed(#[trigger] pieces[i]) == flag
}

/// Composing the flags again changes nothing: a further attempt at the same
/// target sends the same flags.
pub proof fn law_beta_union_idempotent(
    ingress: Seq<Seq<char>>,
    provider: Seq<(Seq<char>, String)>,
    model: Seq<(Seq<char>, String)>,
)
    ensures
        ({
            let union = beta_union(ingress, provider, model);
            beta_union(union, provider, model) == union
        }),
{
    let provider_pieces = split_on(beta_value(provider), ',');
    let model_pieces = split_on(beta_value(model), ',');
    let own = with_pieces(Seq::empty(), split_each(ingress, ','));
    let with_provider = with_pieces(own, provider_pieces);
    let union = beta_union(ingress, provider, model);
    law_beta_union_ordered(ingress, provider, model);
    law_beta_union_comma_free(ingress, provider, model);
    lemma_split_each_whole(union);
    lemma_proper_from_nothing(union);
    assert forall|i: int| 0 <= i < provider_pieces.len() implies trimmed(
        #[trigger] provider_pieces[i],
    ).len() == 0 || union.contains(trimmed(provider_pieces[i])) by {
        let flag = trimmed(provider_pieces[i]);
        law_beta_union_complete(ingress, provider, model, flag);
        assert(names_flag(provider_pieces, flag));
    }
    lemma_nothing_new(union, provider_pieces);
    assert forall|i: int| 0 <= i < model_pieces.len() implies trimmed(
        #[trigger] model_pieces[i],
    ).len() == 0 || union.contains(trimmed(model_pieces[i])) by {
        let flag = trimmed(model_pieces[i]);
        law_beta_union_complete(ingress, provider, model, flag);
        assert(names_flag(model_pieces, flag));
    }
    lemma_nothing_new(union, model_pieces);
}

/// The operator's floor is part of what the request carries: a flag that the
/// operator configured is always sent.
pub proof fn law_operator_floor_sent(
    ingress: Seq<Seq<char>>,
    provider: Seq<(Seq<char>, String)>,
    model: Seq<(Seq<char>, String)>,
    flag: Seq<char>,
)
    requires
        with_configured_betas(Seq::empty(), provider, model).contains(flag),
    ensures
        beta_union(ingress, provider, model).contains(flag),
{
    law_beta_union_complete(Seq::empty(), provider, model, flag);
    assert(split_each(Seq::empty(), ',') =~= Seq::<Seq<char>>::empty());
    assert(with_pieces(Seq::empty(), Seq::<Seq<char>>::empty()) =~= Seq::<Seq<char>>::empty());
    assert(beta_union(Seq::empty(), provider, model) == with_configured_betas(
        Seq::empty(),
        provider,
        model,
    ));
    law_beta_union_complete(ingress, provider, model, flag);
}

// ---------------------------------------------------------------------------
// Headers
// ---------------------------------------------------------------------------

/// No beta header is ever composed, in any case: the flags ride on the request.
pub proof fn law_no_beta_header(
    provider: Map<Seq<char>, String>,
    model: Map<Seq<char>, String>,
    name: Seq<char>,
)
    requires
        composed_headers(provider, model).dom().contains(name),
    ensures
        !beta_header(name),
{
}

/// A model cannot set a reserved header: where one is composed, the provider's
/// own entry set it.
pub proof fn law_reserved_from_provider(
    provider: Map<Seq<char>, String>,
    model: Map<Seq<char>, String>,
    name: Seq<char>,
)
    requires
        composed_headers(provider, model).dom().contains(name),
        auth_reserved(name) || managed_reserved(name),
    ensures
        provider.dom().contains(name),
        composed_headers(provider, model)[name] == provider[name],
{
}

/// On any other header the model wins, and what only the provider sets stays.
pub proof fn law_model_wins(
    provider: Map<Seq<char>, String>,
    model: Map<Seq<char>, String>,
    name: Seq<char>,
)
    requires
        !beta_header(name),
        model_may_set(name),
    ensures
        model.dom().contains(name) ==> composed_headers(provider, model).dom().contains(name)
            && composed_headers(provider, model)[name] == model[name],
        !model.dom().contains(name) && provider.dom().contains(name) ==> composed_headers(
            provider,
            model,
        ).dom().contains(name) && composed_headers(provider, model)[name] == provider[name],
{
}

/// Nothing configured composes nothing.
pub proof fn law_no_headers_configured()
    ensures
        composed_headers(Map::empty(), Map::empty()) == Map::<Seq<char>, String>::empty(),
{
    assert(composed_headers(Map::empty(), Map::empty()) =~= Map::<Seq<char>, String>::empty());
}

// ---------------------------------------------------------------------------
// Payload
// ---------------------------------------------------------------------------

/// Laying the same value over twice is laying it over once.
pub proof fn law_merge_idempotent(dst: JsonView, src: JsonView)
    ensures
        merged(merged(dst, src), src) == merged(dst, src),
    decreases src,
{
    if dst is Object && src is Object {
        let d = dst->Object_0;
        let s = src->Object_0;
        let once = overlaid(d, s);
        lemma_merged_objects(d, s);
        lemma_merged_objects(once, s);
        assert forall|key: Seq<char>| #[trigger] once.dom().contains(key) implies overlaid(
            once,
            s,
        )[key] == once[key] by {
            if s.dom().contains(key) {
                if d.dom().contains(key) {
                    law_merge_idempotent(d[key], s[key]);
                } else {
                    law_merge_self(s[key]);
                }
            }
        }
        assert(overlaid(once, s) =~= once);
    } else if src is Object {
        law_merge_self(src);
    }
}

/// Laying a value over itself changes nothing.
pub proof fn law_merge_self(value: JsonView)
    ensures
        merged(value, value) == value,
    decreases value,
{
    if value is Object {
        let members = value->Object_0;
        lemma_merged_objects(members, members);
        assert forall|key: Seq<char>| #[trigger] members.dom().contains(key) implies overlaid(
            members,
            members,
        )[key] == members[key] by {
            law_merge_self(members[key]);
        }
        assert(overlaid(members, members) =~= members);
    }
}

/// An empty object laid over an object changes nothing.
pub proof fn law_merge_empty(members: Map<Seq<char>, JsonView>)
    ensures
        merged(JsonView::Object(members), no_members()) == JsonView::Object(members),
{
    lemma_merged_objects(members, Map::empty());
    assert(overlaid(members, Map::empty()) =~= members);
}

/// The order of precedence under one key of three objects: a leaf of the model
/// wins; else a leaf of the provider; and what only the request has stays.
pub proof fn law_payload_precedence(
    ingress: Map<Seq<char>, JsonView>,
    provider: Map<Seq<char>, JsonView>,
    model: Map<Seq<char>, JsonView>,
    key: Seq<char>,
)
    ensures
        ({
            let layered = layered_payload(
                Some(JsonView::Object(ingress)),
                Some(JsonView::Object(provider)),
                Some(JsonView::Object(model)),
            );
            &&& layered is Some
            &&& layered->0 is Object
            &&& {
                let whole = layered->0->Object_0;
                &&& whole.dom().contains(key) <==> ingress.dom().contains(key)
                    || provider.dom().contains(key) || model.dom().contains(key)
                &&& model.dom().contains(key) && !(model[key] is Object) ==> whole[key]
                    == model[key]
                &&& !model.dom().contains(key) && provider.dom().contains(key) && !(
                provider[key] is Object) ==> whole[key] == provider[key]
                &&& !model.dom().contains(key) && !provider.dom().contains(key)
                    && ingress.dom().contains(key) ==> whole[key] == ingress[key]
            }
        }),
{
    lemma_merged_objects(ingress, provider);
    lemma_merged_objects(overlaid(ingress, provider), model);
}

/// Nothing configured leaves the payload of a request as it is.
pub proof fn law_no_payload_configured(ingress: Option<JsonView>)
    ensures
        layered_payload(ingress, None, None) == ingress,
{
}

/// Empty objects configured put no payload where there was none.
pub proof fn law_empty_payload_configured()
    ensures
        layered_payload(None, Some(no_members()), Some(no_members())) is None,
{
    law_merge_empty(Map::empty());
}

/// What a value holds at a path.
pub open spec fn value_at(value: JsonView, path: Seq<Seq<char>>) -> Option<JsonView>
    decreases path.len(),
{
    if path.len() == 0 {
        Some(value)
    } else {
        match value {
            JsonView::Object(members) => if members.dom().contains(path[0]) {
                value_at(members[path[0]], path.drop_first())
            } else {
                None
            },
            _ => None,
        }
    }
}

/// Where two layers collide both hold a value, and the upper one's stands.
pub proof fn law_collision_takes_the_layer(
    dst: JsonView,
    src: JsonView,
    path: Seq<Seq<char>>,
)
    requires
        collides(dst, src, path),
    ensures
        value_at(dst, path) is Some,
        value_at(src, path) is Some,
        value_at(merged(dst, src), path) == value_at(src, path),
    decreases path.len(),
{
    let d = dst->Object_0;
    let s = src->Object_0;
    let key = path[0];
    let rest = path.drop_first();
    lemma_merged_objects(d, s);
    assert(overlaid(d, s)[key] == merged(d[key], s[key]));
    if d[key] is Object && s[key] is Object {
        law_collision_takes_the_layer(d[key], s[key], rest);
    } else {
        assert(rest.len() == 0);
        assert(merged(d[key], s[key]) == s[key]);
    }
}

// ---------------------------------------------------------------------------
// What the overlays read
// ---------------------------------------------------------------------------

/// Whether one of the names is this header's, in any case.
pub open spec fn named_among(names: Seq<Seq<char>>, name: Seq<char>) -> bool {
    exists|i: int| 0 <= i < names.len() && same_name(name, #[trigger] names[i])
}

/// The reserved headers and the list-valued one are these and no others.
pub proof fn law_reserved_names(name: Seq<char>)
    ensures
        auth_reserved(name) <==> named_among(
            seq!["authorization"@, "x-api-key"@, "anthropic-version"@],
            name,
        ),
        managed_reserved(name) <==> named_among(
            seq!["host"@, "content-type"@, "content-length"@],
            name,
        ),
        beta_header(name) <==> same_name(name, "anthropic-beta"@),
{
    let auth = seq!["authorization"@, "x-api-key"@, "anthropic-version"@];
    let managed = seq!["host"@, "content-type"@, "content-length"@];
    assert(auth[0] == "authorization"@ && auth[1] == "x-api-key"@ && auth[2]
        == "anthropic-version"@);
    assert(managed[0] == "host"@ && managed[1] == "content-type"@ && managed[2]
        == "content-length"@);
}

/// The beta value of a header table is that of its first entry named
/// `anthropic-beta`, in any case and wherever in the table it stands. It is
/// empty only where no entry is named so, or that entry is empty.
pub proof fn law_beta_value_is_first(entries: Seq<(Seq<char>, String)>, i: int)
    ensures
        0 <= i < entries.len() && same_name(entries[i].0, "anthropic-beta"@) && (forall|k: int|
            0 <= k < i ==> !same_name((#[trigger] entries[k]).0, "anthropic-beta"@))
            ==> beta_value(entries) == entries[i].1@,
        (forall|k: int|
            0 <= k < entries.len() ==> !same_name((#[trigger] entries[k]).0, "anthropic-beta"@))
            ==> beta_value(entries).len() == 0,
    decreases entries.len(),
{
    if entries.len() > 0 {
        let rest = entries.drop_first();
        law_beta_value_is_first(rest, i - 1);
        if 0 <= i < entries.len() && same_name(entries[i].0, "anthropic-beta"@) && (forall|k: int|
            0 <= k < i ==> !same_name((#[trigger] entries[k]).0, "anthropic-beta"@)) {
            if i > 0 {
                assert(!same_name(entries[0].0, "anthropic-beta"@));
                assert(rest[i - 1] == entries[i]);
                assert forall|k: int| 0 <= k < i - 1 implies !same_name(
                    (#[trigger] rest[k]).0,
                    "anthropic-beta"@,
                ) by {
                    assert(rest[k] == entries[k + 1]);
                }
            }
        }
        if forall|k: int|
            0 <= k < entries.len() ==> !same_name((#[trigger] entries[k]).0, "anthropic-beta"@) {
            assert(!same_name(entries[0].0, "anthropic-beta"@));
            assert forall|k: int| 0 <= k < rest.len() implies !same_name(
                (#[trigger] rest[k]).0,
                "anthropic-beta"@,
            ) by {
                assert(rest[k] == entries[k + 1]);
            }
        }
    }
}

/// The flags of a request stand in the order in which they are first mentioned:
/// by the request's entries, then by the provider's header, then by the
/// model's. Those of the operator's floor stand so too, without the request's.
pub proof fn law_flags_by_first_mention(
    ingress: Seq<Seq<char>>,
    provider: Seq<(Seq<char>, String)>,
    model: Seq<(Seq<char>, String)>,
)
    ensures
        beta_union(ingress, provider, model) == with_pieces(
            Seq::empty(),
            split_each(ingress, ',') + split_on(beta_value(provider), ',') + split_on(
                beta_value(model),
                ',',
            ),
        ),
        with_configured_betas(Seq::empty(), provider, model) == with_pieces(
            Seq::empty(),
            split_on(beta_value(provider), ',') + split_on(beta_value(model), ','),
        ),
{
    let own = split_each(ingress, ',');
    let from_provider = split_on(beta_value(provider), ',');
    let from_model = split_on(beta_value(model), ',');
    let operator = from_provider + from_model;
    law_pieces_in_order(Seq::empty(), operator, from_provider.len() as int);
    assert(operator.take(from_provider.len() as int) =~= from_provider);
    assert(operator.skip(from_provider.len() as int) =~= from_model);
    let two = own + from_provider;
    let all = two + from_model;
    law_pieces_in_order(Seq::empty(), all, two.len() as int);
    assert(all.take(two.len() as int) =~= two);
    assert(all.skip(two.len() as int) =~= from_model);
    law_pieces_in_order(Seq::empty(), two, own.len() as int);
    assert(two.take(own.len() as int) =~= own);
    assert(two.skip(own.len() as int) =~= from_provider);
}

/// Every header of the provider is composed, but for the beta header, and it
/// keeps its value unless the model sets the same name and may. Of the model's
/// headers all are composed but the reserved ones and the beta header. Nothing
/// else is.
pub proof fn law_composed_headers(
    provider: Map<Seq<char>, String>,
    model: Map<Seq<char>, String>,
    name: Seq<char>,
)
    ensures
        ({
            let out = composed_headers(provider, model);
            let reserved = named_among(
                seq![
                    "authorization"@,
                    "x-api-key"@,
                    "anthropic-version"@,
                    "host"@,
                    "content-type"@,
                    "content-length"@,
                ],
                name,
            );
            let beta = same_name(name, "anthropic-beta"@);
            &&& beta ==> !out.dom().contains(name)
            &&& !beta && provider.dom().contains(name) ==> out.dom().contains(name)
            &&& !beta && !reserved && model.dom().contains(name) ==> out.dom().contains(name)
                && out[name] == model[name]
            &&& !beta && provider.dom().contains(name) && (reserved || !model.dom().contains(name))
                ==> out[name] == provider[name]
            &&& out.dom().contains(name) && !provider.dom().contains(name) ==> !reserved
                && model.dom().contains(name)
        }),
{
    let names = seq![
        "authorization"@,
        "x-api-key"@,
        "anthropic-version"@,
        "host"@,
        "content-type"@,
        "content-length"@,
    ];
    assert(names[0] == "authorization"@ && names[1] == "x-api-key"@ && names[2]
        == "anthropic-version"@ && names[3] == "host"@ && names[4] == "content-type"@ && names[5]
        == "content-length"@);
}

/// A name is listed exactly if the rule picks it, in the order of the entries.
pub proof fn law_names_picked_in_order(
    entries: Seq<(Seq<char>, String)>,
    entry: (Seq<char>, String),
    rule: spec_fn(Seq<char>) -> bool,
)
    ensures
        names_where(Seq::empty(), rule) == Seq::<Seq<char>>::empty(),
        rule(entry.0) ==> names_where(entries.push(entry), rule) == names_where(entries, rule).push(
            entry.0,
        ),
        !rule(entry.0) ==> names_where(entries.push(entry), rule) == names_where(entries, rule),
{
    assert(entries.push(entry).drop_last() =~= entries);
}

// ---------------------------------------------------------------------------
// What a merge makes of a path
// ---------------------------------------------------------------------------

/// Laying one object over another keeps what only one of them has and merges
/// what both have; anything else is replaced by the upper value.
pub proof fn law_merge_by_key(dst: JsonView, src: JsonView, key: Seq<char>)
    ensures
        !(dst is Object && src is Object) ==> merged(dst, src) == src,
        dst is Object && src is Object ==> {
            let d = dst->Object_0;
            let s = src->Object_0;
            let out = merged(dst, src);
            &&& out is Object
            &&& out->Object_0.dom().contains(key) <==> d.dom().contains(key) || s.dom().contains(
                key,
            )
            &&& d.dom().contains(key) && !s.dom().contains(key) ==> out->Object_0[key] == d[key]
            &&& !d.dom().contains(key) && s.dom().contains(key) ==> out->Object_0[key] == s[key]
            &&& d.dom().contains(key) && s.dom().contains(key) ==> out->Object_0[key] == merged(
                d[key],
                s[key],
            )
        },
{
    if dst is Object && src is Object {
        lemma_merged_objects(dst->Object_0, src->Object_0);
    }
}

/// Whether a value says something at a path or cuts it off: it holds a value
/// there, or something that is no object on the way.
pub open spec fn reaches(value: JsonView, path: Seq<Seq<char>>) -> bool
    decreases path.len(),
{
    match value {
        JsonView::Object(members) => path.len() == 0 || (members.dom().contains(path[0])
            && reaches(members[path[0]], path.drop_first())),
        _ => true,
    }
}

proof fn lemma_unreached(value: JsonView, path: Seq<Seq<char>>)
    requires
        !reaches(value, path),
    ensures
        path.len() > 0,
        value_at(value, path) is None,
    decreases path.len(),
{
    let members = value->Object_0;
    if members.dom().contains(path[0]) {
        lemma_unreached(members[path[0]], path.drop_first());
    }
}

/// At a path, the upper value stands where it has a leaf, and the lower one's
/// where the upper says nothing about the path.
pub proof fn law_merge_at_path(dst: JsonView, src: JsonView, path: Seq<Seq<char>>)
    ensures
        value_at(src, path) is Some && !(value_at(src, path)->0 is Object) ==> value_at(
            merged(dst, src),
            path,
        ) == value_at(src, path),
        dst is Object && !reaches(src, path) ==> value_at(merged(dst, src), path) == value_at(
            dst,
            path,
        ),
    decreases path.len(),
{
    if path.len() > 0 {
        let key = path[0];
        let rest = path.drop_first();
        law_merge_by_key(dst, src, key);
        if dst is Object && src is Object {
            let d = dst->Object_0;
            let s = src->Object_0;
            if d.dom().contains(key) && s.dom().contains(key) {
                law_merge_at_path(d[key], s[key], rest);
            }
            if s.dom().contains(key) && !reaches(s[key], rest) {
                lemma_unreached(s[key], rest);
            }
        }
    }
}

/// Two layers collide at a path exactly if both hold a value there and not both
/// hold an object.
pub proof fn law_collision(dst: JsonView, src: JsonView, path: Seq<Seq<char>>)
    ensures
        collides(dst, src, path) <==> path.len() > 0 && value_at(dst, path) is Some && value_at(
            src,
            path,
        ) is Some && !(value_at(dst, path)->0 is Object && value_at(src, path)->0 is Object),
    decreases path.len(),
{
    if path.len() > 0 && dst is Object && src is Object {
        let d = dst->Object_0;
        let s = src->Object_0;
        let key = path[0];
        let rest = path.drop_first();
        if d.dom().contains(key) && s.dom().contains(key) {
            law_collision(d[key], s[key], rest);
            if rest.len() == 0 {
                assert(value_at(d[key], rest) == Some(d[key]));
                assert(value_at(s[key], rest) == Some(s[key]));
            }
        }
    }
}

/// Whether two paths agree up to a place at which `a` ends or has the key that
/// comes first.
pub open spec fn paths_part_at(a: Seq<Seq<char>>, b: Seq<Seq<char>>, k: int) -> bool {
    &&& 0 <= k <= a.len()
    &&& k < b.len()
    &&& forall|i: int| 0 <= i < k ==> #[trigger] a[i] == b[i]
    &&& k == a.len() || (a[k] != b[k] && comes_before(a[k], b[k]))
}

/// Paths stand in the order of their keys.
pub proof fn law_order_of_paths(a: Seq<Seq<char>>, b: Seq<Seq<char>>)
    ensures
        path_before(a, b) <==> exists|k: int| #[trigger] paths_part_at(a, b, k),
    decreases a.len(),
{
    if b.len() > 0 && a.len() > 0 && a[0] == b[0] {
        let x = a.drop_first();
        let y = b.drop_first();
        law_order_of_paths(x, y);
        if path_before(x, y) {
            let k = choose|k: int| #[trigger] paths_part_at(x, y, k);
            assert forall|i: int| 0 <= i < k + 1 implies #[trigger] a[i] == b[i] by {
                if i > 0 {
                    assert(x[i - 1] == a[i] && y[i - 1] == b[i]);
                }
            }
            assert(paths_part_at(a, b, k + 1));
        }
        if exists|k: int| #[trigger] paths_part_at(a, b, k) {
            let k = choose|k: int| #[trigger] paths_part_at(a, b, k);
            assert(k > 0);
            assert forall|i: int| 0 <= i < k - 1 implies #[trigger] x[i] == y[i] by {
                assert(a[i + 1] == b[i + 1]);
            }
            assert(paths_part_at(x, y, k - 1));
        }
    } else {
        if path_before(a, b) {
            assert(paths_part_at(a, b, 0));
        }
        if exists|k: int| #[trigger] paths_part_at(a, b, k) {
            let k = choose|k: int| #[trigger] paths_part_at(a, b, k);
            if k > 0 {
                assert(a[0] == b[0]);
            }
        }
    }
}

/// The paths at which a layer replaces values are listed each once and in
/// order, all of them and no others; without a layer there is none.
pub proof fn law_replaced_paths(paths: Seq<Vec<String>>, below: JsonView, layer: Option<JsonView>)
    requires
        replaced_at(paths, below, layer),
    ensures
        layer is None ==> paths.len() == 0,
        forall|i: int, j: int|
            0 <= i < j < paths.len() ==> path_before(
                texts(#[trigger] paths[i]@),
                texts(#[trigger] paths[j]@),
            ),
        forall|i: int|
            0 <= i < paths.len() ==> layer is Some && collides(
                below,
                layer->0,
                texts(#[trigger] paths[i]@),
            ),
        forall|path: Seq<Seq<char>>|
            layer is Some && #[trigger] collides(below, layer->0, path) ==> exists|i: int|
                0 <= i < paths.len() && texts(#[trigger] paths[i]@) == path,
{
    let views = path_views(paths);
    assert forall|i: int| 0 <= i < paths.len() implies layer is Some && collides(
        below,
        layer->0,
        texts(#[trigger] paths[i]@),
    ) by {
        assert(views[i] == texts(paths[i]@));
        assert(views.contains(views[i]));
    }
    if layer is None && paths.len() > 0 {
        assert(texts(paths[0]@) == views[0]);
    }
    assert forall|i: int, j: int| 0 <= i < j < paths.len() implies path_before(
        texts(#[trigger] paths[i]@),
        texts(#[trigger] paths[j]@),
    ) by {
        assert(path_before(views[i], views[j]));
    }
    assert forall|path: Seq<Seq<char>>|
        layer is Some && #[trigger] collides(below, layer->0, path) implies exists|i: int|
        0 <= i < paths.len() && texts(#[trigger] paths[i]@) == path by {
        assert(views.contains(path));
        let i = views.index_of(path);
        assert(texts(paths[i]@) == path);
    }
}

/// The payload of a request is its own with each configured layer laid over it
/// in turn, the provider's first. A request without one starts from the empty
/// object, and keeps none where nothing but that comes of it.
pub proof fn law_payload_layers(own: JsonView, provider: JsonView, model: JsonView)
    ensures
        layered_payload(Some(own), Some(provider), None) == Some(merged(own, provider)),
        layered_payload(Some(own), None, Some(model)) == Some(merged(own, model)),
        layered_payload(Some(own), Some(provider), Some(model)) == Some(
            merged(merged(own, provider), model),
        ),
        ({
            let bare = JsonView::Object(Map::empty());
            &&& layered_payload(None, Some(provider), None) == (if merged(bare, provider) == bare {
                None
            } else {
                Some(merged(bare, provider))
            })
            &&& layered_payload(None, None, Some(model)) == (if merged(bare, model) == bare {
                None
            } else {
                Some(merged(bare, model))
            })
            &&& layered_payload(None, Some(provider), Some(model)) == (if merged(
                merged(bare, provider),
                model,
            ) == bare {
                None
            } else {
                Some(merged(merged(bare, provider), model))
            })
        }),
{
}

/// Where a layer is read from: an optional value is what it holds, and an
/// absent header table is an empty one.
pub proof fn law_layers_read(value: Json, table: NameTable<String>)
    ensures
        json_layer(Some(value)) == Some(value@),
        json_layer(None) is None,
        json_layer_ref(Some(&value)) == Some(value@),
        json_layer_ref(None) is None,
        layer(Some(&table)) == table@,
        layer(None).len() == 0,
{
}

/// A payload starts from the request's own, or from the empty object, and a
/// layer that is there is laid over it.
pub proof fn law_one_layer(below: JsonView, over: JsonView)
    ensures
        own_payload(Some(below)) == below,
        own_payload(None) == JsonView::Object(Map::empty()),
        laid_over_json(below, Some(over)) == merged(below, over),
        laid_over_json(below, None) == below,
{
}

} // verus!
