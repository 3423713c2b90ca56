//! JSON values as the payload overlays hold them, and their deep merge.

use vstd::prelude::*;

use crate::collisions::collides;
use crate::collisions::covers;
use crate::collisions::lemma_one_more_name;
use crate::collisions::path_views;
use crate::collisions::paths_ordered;
use crate::collisions::push_under;
use crate::names::lemma_entry;
use crate::names::lemma_named;
use crate::names::ordered;
use crate::names::NameTable;
use crate::text::same_text;
use crate::text::texts;

verus! {

/// What a JSON value is: an object is the map from its keys to their values.
pub enum JsonView {
    /// `null`.
    Null,
    /// `true` or `false`.
    Bool(bool),
    /// A number, by its text.
    Number(Seq<char>),
    /// A string.
    Text(Seq<char>),
    /// An array.
    Array(Seq<JsonView>),
    /// An object.
    Object(Map<Seq<char>, JsonView>),
}

/// A JSON value.
pub enum Json {
    /// `null`.
    Null,
    /// `true` or `false`.
    Bool(bool),
    /// A number, held as its text.
    Number(String),
    /// A string.
    Text(String),
    /// An array.
    Array(Vec<Json>),
    /// An object.
    Object(JsonObject),
}

/// A JSON object: members under distinct keys.
pub struct JsonObject {
    members: Vec<(String, Json)>,
}

/// Whether one of the members has this key.
spec fn has_key(members: Seq<(String, Json)>, key: Seq<char>) -> bool {
    exists|i: int| 0 <= i < members.len() && (#[trigger] members[i]).0@ == key
}

/// The place of a member with this key.
spec fn place_of(members: Seq<(String, Json)>, key: Seq<char>) -> int {
    choose|i: int| 0 <= i < members.len() && (#[trigger] members[i]).0@ == key
}

/// Whether no two members have the same key.
spec fn distinct_keys(members: Seq<(String, Json)>) -> bool {
    forall|i: int, j: int|
        0 <= i < members.len() && 0 <= j < members.len() && i != j ==> (
        #[trigger] members[i]).0@ != (#[trigger] members[j]).0@
}

/// The object that members stand for.
spec fn object_of(members: Seq<(String, Json)>) -> Map<Seq<char>, JsonView>
    decreases members,
{
    Map::new(
        |key: Seq<char>| has_key(members, key),
        |key: Seq<char>|
            {
                let i = place_of(members, key);
                if 0 <= i < members.len() {
                    members[i].1.model()
                } else {
                    JsonView::Null
                }
            },
    )
}

impl Json {
    /// What this value is.
    pub closed spec fn model(self) -> JsonView
        decreases self,
    {
        match self {
            Json::Null => JsonView::Null,
            Json::Bool(b) => JsonView::Bool(b),
            Json::Number(n) => JsonView::Number(n@),
            Json::Text(t) => JsonView::Text(t@),
            Json::Array(items) => JsonView::Array(
                Seq::new(
                    items@.len(),
                    |i: int|
                        if 0 <= i < items@.len() {
                            items@[i].model()
                        } else {
                            JsonView::Null
                        },
                ),
            ),
            Json::Object(object) => JsonView::Object(object_of(object.members@)),
        }
    }
}

impl View for Json {
    type V = JsonView;

    open spec fn view(&self) -> JsonView {
        self.model()
    }
}

impl View for JsonObject {
    type V = Map<Seq<char>, JsonView>;

    closed spec fn view(&self) -> Map<Seq<char>, JsonView> {
        object_of(self.members@)
    }
}

impl JsonObject {
    #[verifier::type_invariant]
    spec fn keys_distinct(self) -> bool {
        distinct_keys(self.members@)
    }
}

/// `src` laid over `dst`: where both are objects, key by key; anything else is
/// replaced.
pub open spec fn merged(dst: JsonView, src: JsonView) -> JsonView
    decreases src,
{
    match (dst, src) {
        (JsonView::Object(d), JsonView::Object(s)) => JsonView::Object(
            Map::new(
                |key: Seq<char>| d.dom().contains(key) || s.dom().contains(key),
                |key: Seq<char>|
                    if !s.dom().contains(key) {
                        d[key]
                    } else if d.dom().contains(key) {
                        merged(d[key], s[key])
                    } else {
                        s[key]
                    },
            ),
        ),
        _ => src,
    }
}

/// The members of `s` laid over those of `d`.
pub open spec fn overlaid(d: Map<Seq<char>, JsonView>, s: Map<Seq<char>, JsonView>) -> Map<
    Seq<char>,
    JsonView,
> {
    Map::new(
        |key: Seq<char>| d.dom().contains(key) || s.dom().contains(key),
        |key: Seq<char>|
            if !s.dom().contains(key) {
                d[key]
            } else if d.dom().contains(key) {
                merged(d[key], s[key])
            } else {
                s[key]
            },
    )
}

/// Laying one object over another lays its members over the other's.
pub proof fn lemma_merged_objects(d: Map<Seq<char>, JsonView>, s: Map<Seq<char>, JsonView>)
    ensures
        merged(JsonView::Object(d), JsonView::Object(s)) == JsonView::Object(overlaid(d, s)),
{
    let whole = merged(JsonView::Object(d), JsonView::Object(s));
    assert(whole->Object_0 =~= overlaid(d, s));
}

proof fn lemma_overlaid_step(
    d: Map<Seq<char>, JsonView>,
    s: Map<Seq<char>, JsonView>,
    key: Seq<char>,
    value: JsonView,
)
    requires
        !s.dom().contains(key),
    ensures
        overlaid(d, s.insert(key, value)) == overlaid(d, s).insert(
            key,
            if d.dom().contains(key) {
                merged(d[key], value)
            } else {
                value
            },
        ),
        overlaid(d, s).dom().contains(key) == d.dom().contains(key),
        d.dom().contains(key) ==> overlaid(d, s)[key] == d[key],
{
    assert(overlaid(d, s.insert(key, value)) =~= overlaid(d, s).insert(
        key,
        if d.dom().contains(key) {
            merged(d[key], value)
        } else {
            value
        },
    ));
}

proof fn lemma_member(members: Seq<(String, Json)>, i: int)
    requires
        distinct_keys(members),
        0 <= i < members.len(),
    ensures
        object_of(members).dom().contains(members[i].0@),
        object_of(members)[members[i].0@] == members[i].1@,
        place_of(members, members[i].0@) == i,
{
    assert(has_key(members, members[i].0@));
    let p = place_of(members, members[i].0@);
    assert(members[p].0@ == members[i].0@);
}

proof fn lemma_push_member(members: Seq<(String, Json)>, added: (String, Json))
    requires
        distinct_keys(members),
        !has_key(members, added.0@),
    ensures
        distinct_keys(members.push(added)),
        object_of(members.push(added)) == object_of(members).insert(added.0@, added.1@),
        !object_of(members).dom().contains(added.0@),
{
    let longer = members.push(added);
    assert forall|i: int, j: int|
        0 <= i < longer.len() && 0 <= j < longer.len() && i != j implies (
    #[trigger] longer[i]).0@ != (#[trigger] longer[j]).0@ by {
        if i < members.len() {
            assert(longer[i] == members[i]);
        }
        if j < members.len() {
            assert(longer[j] == members[j]);
        }
    }
    let expected = object_of(members).insert(added.0@, added.1@);
    assert(object_of(longer) =~= expected) by {
        assert forall|key: Seq<char>| object_of(longer).dom().contains(key)
            == expected.dom().contains(key) by {
            if has_key(longer, key) && key != added.0@ {
                let i = place_of(longer, key);
                assert(longer[i].0@ == key);
                assert(members[i].0@ == key);
                assert(has_key(members, key));
            }
            if has_key(members, key) {
                let i = place_of(members, key);
                assert(members[i].0@ == key);
                assert(longer[i].0@ == key);
                assert(has_key(longer, key));
            }
            if key == added.0@ {
                assert(longer[members.len() as int].0@ == key);
                assert(has_key(longer, key));
            }
        }
        assert forall|key: Seq<char>| #[trigger] object_of(longer).dom().contains(
            key,
        ) implies object_of(longer)[key] == expected[key] by {
            let i = place_of(longer, key);
            assert(longer[i].0@ == key);
            lemma_member(longer, i);
            if i < members.len() {
                assert(members[i] == longer[i]);
                lemma_member(members, i);
            }
        }
    }
}

proof fn lemma_set_member(members: Seq<(String, Json)>, at: int, changed: (String, Json))
    requires
        distinct_keys(members),
        0 <= at < members.len(),
        members[at].0@ == changed.0@,
    ensures
        distinct_keys(members.update(at, changed)),
        object_of(members.update(at, changed)) == object_of(members).insert(
            changed.0@,
            changed.1@,
        ),
        object_of(members).dom().contains(changed.0@),
        object_of(members)[changed.0@] == members[at].1@,
{
    let after = members.update(at, changed);
    assert forall|i: int| 0 <= i < members.len() implies (#[trigger] after[i]).0@
        == members[i].0@ by {}
    assert(distinct_keys(after)) by {
        assert forall|i: int, j: int|
            0 <= i < after.len() && 0 <= j < after.len() && i != j implies (
        #[trigger] after[i]).0@ != (#[trigger] after[j]).0@ by {
            assert(members[i].0@ != members[j].0@);
        }
    }
    lemma_member(members, at);
    let expected = object_of(members).insert(changed.0@, changed.1@);
    assert(object_of(after) =~= expected) by {
        assert forall|key: Seq<char>| object_of(after).dom().contains(key)
            == expected.dom().contains(key) by {
            if has_key(after, key) {
                let i = place_of(after, key);
                assert(after[i].0@ == key);
                assert(members[i].0@ == key);
                assert(has_key(members, key));
            }
            if has_key(members, key) {
                let i = place_of(members, key);
                assert(members[i].0@ == key);
                assert(after[i].0@ == key);
                assert(has_key(after, key));
            }
        }
        assert forall|key: Seq<char>| #[trigger] object_of(after).dom().contains(
            key,
        ) implies object_of(after)[key] == expected[key] by {
            let i = place_of(after, key);
            assert(after[i].0@ == key);
            lemma_member(after, i);
            lemma_member(members, i);
            if key == changed.0@ {
                assert(members[i].0@ == members[at].0@);
            }
        }
    }
}

/// The place of the member with this key, or the number of members.
fn seek(members: &Vec<(String, Json)>, key: &str) -> (at: usize)
    ensures
        at <= members@.len(),
        at < members@.len() ==> members@[at as int].0@ == key@,
        at == members@.len() ==> !has_key(members@, key@),
{
    let mut i: usize = 0;
    while i < members.len()
        invariant
            i <= members.len(),
            forall|j: int| 0 <= j < i ==> (#[trigger] members@[j]).0@ != key@,
        decreases members.len() - i,
    {
        if same_text(members[i].0.as_str(), key) {
            return i;
        }
        i = i + 1;
    }
    i
}

impl JsonObject {
    /// An object without members.
    pub fn new() -> (out: Self)
        ensures
            out@ == Map::<Seq<char>, JsonView>::empty(),
    {
        let out = JsonObject { members: Vec::new() };
        assert(out@ =~= Map::<Seq<char>, JsonView>::empty());
        out
    }

    /// Whether the object has no members.
    pub fn is_empty(&self) -> (yes: bool)
        ensures
            yes == (self@ == Map::<Seq<char>, JsonView>::empty()),
    {
        proof {
            if self.members@.len() > 0 {
                use_type_invariant(self);
                lemma_member(self.members@, 0);
                assert(self@.dom().contains(self.members@[0].0@));
            } else {
                assert(self@ =~= Map::<Seq<char>, JsonView>::empty());
            }
        }
        self.members.len() == 0
    }

    /// The keys of the members, each once.
    pub fn keys(&self) -> (keys: Vec<String>)
        ensures
            texts(keys@).no_duplicates(),
            forall|key: Seq<char>| #[trigger]
                texts(keys@).contains(key) <==> self@.dom().contains(key),
    {
        proof {
            use_type_invariant(self);
        }
        let ghost members = self.members@;
        let mut keys: Vec<String> = Vec::new();
        let mut i: usize = 0;
        while i < self.members.len()
            invariant
                members == self.members@,
                i <= members.len(),
                keys@.len() == i,
                forall|j: int| 0 <= j < i ==> texts(keys@)[j] == (#[trigger] members[j]).0@,
            decreases self.members.len() - i,
        {
            keys.push(self.members[i].0.clone());
            i = i + 1;
        }
        proof {
            assert forall|key: Seq<char>| #[trigger] texts(keys@).contains(key) implies has_key(
                members,
                key,
            ) by {
                let j = texts(keys@).index_of(key);
                assert(members[j].0@ == key);
            }
            assert forall|key: Seq<char>| has_key(members, key) implies #[trigger] texts(
                keys@,
            ).contains(key) by {
                let j = place_of(members, key);
                assert(texts(keys@)[j] == members[j].0@);
            }
            assert forall|a: int, b: int|
                0 <= a < keys@.len() && 0 <= b < keys@.len() && a != b implies texts(keys@)[a]
                != texts(keys@)[b] by {
                assert(members[a].0@ != members[b].0@);
            }
        }
        keys
    }

    /// The value under `key`.
    pub fn get(&self, key: &str) -> (value: Option<&Json>)
        ensures
            match value {
                Some(v) => self@.dom().contains(key@) && v@ == self@[key@],
                None => !self@.dom().contains(key@),
            },
    {
        let at = seek(&self.members, key);
        if at < self.members.len() {
            proof {
                use_type_invariant(self);
                lemma_member(self.members@, at as int);
            }
            Some(&self.members[at].1)
        } else {
            None
        }
    }

    /// Puts `value` under `key`, in place of what stood there.
    pub fn insert(&mut self, key: String, value: Json)
        ensures
            final(self)@ == old(self)@.insert(key@, value@),
    {
        proof {
            use_type_invariant(&*self);
        }
        let at = seek(&self.members, key.as_str());
        let mut members: Vec<(String, Json)> = Vec::new();
        std::mem::swap(&mut self.members, &mut members);
        let ghost before = members@;
        if at < members.len() {
            proof {
                lemma_set_member(before, at as int, (key, value));
            }
            members[at] = (key, value);
        } else {
            proof {
                lemma_push_member(before, (key, value));
            }
            members.push((key, value));
        }
        self.members = members;
    }
}

impl Json {
    /// The object with these members.
    pub fn object(members: JsonObject) -> (out: Json)
        ensures
            out@ == JsonView::Object(members@),
    {
        Json::Object(members)
    }

    /// Whether this value is an object.
    pub fn is_object(&self) -> (yes: bool)
        ensures
            yes == (self@ is Object),
    {
        match self {
            Json::Object(_) => true,
            _ => false,
        }
    }

    /// Whether this value is an object without members.
    pub fn is_empty_object(&self) -> (yes: bool)
        ensures
            yes == (self@ == JsonView::Object(Map::empty())),
    {
        match self {
            Json::Object(object) => object.is_empty(),
            _ => false,
        }
    }

    /// A value equal to this one.
    pub fn copy(&self) -> (out: Json)
        ensures
            out@ == self@,
        decreases self,
    {
        match self {
            Json::Null => Json::Null,
            Json::Bool(b) => Json::Bool(*b),
            Json::Number(n) => Json::Number(n.clone()),
            Json::Text(t) => Json::Text(t.clone()),
            Json::Array(items) => {
                let mut out: Vec<Json> = Vec::new();
                let mut i: usize = 0;
                while i < items.len()
                    invariant
                        *self == Json::Array(*items),
                        i <= items.len(),
                        out@.len() == i,
                        forall|j: int| 0 <= j < i ==> (#[trigger] out@[j])@ == items@[j]@,
                    decreases items.len() - i,
                {
                    assert(decreases_to!(self => self->Array_0));
                    assert(decreases_to!(self->Array_0 => items@));
                    assert(decreases_to!(items@ => items@[i as int]));
                    out.push(items[i].copy());
                    i = i + 1;
                }
                let copied = Json::Array(out);
                assert(copied@->Array_0 =~= self@->Array_0);
                copied
            },
            Json::Object(object) => {
                proof {
                    use_type_invariant(object);
                }
                let mut members: Vec<(String, Json)> = Vec::new();
                let mut i: usize = 0;
                while i < object.members.len()
                    invariant
                        *self == Json::Object(*object),
                        i <= object.members.len(),
                        members@.len() == i,
                        forall|j: int|
                            0 <= j < i ==> (#[trigger] members@[j]).0@
                                == object.members@[j].0@ && members@[j].1@
                                == object.members@[j].1@,
                    decreases object.members.len() - i,
                {
                    proof {
                        lemma_member_smaller(*self, i as int);
                    }
                    let value = object.members[i].1.copy();
                    members.push((object.members[i].0.clone(), value));
                    i = i + 1;
                }
                proof {
                    lemma_same_members(members@, object.members@);
                }
                Json::Object(JsonObject { members })
            },
        }
    }
}

proof fn lemma_member_smaller(value: Json, i: int)
    requires
        value is Object,
        0 <= i < value->Object_0.members@.len(),
    ensures
        decreases_to!(value => value->Object_0.members@[i].1),
{
    let object = value->Object_0;
    assert(decreases_to!(value => value->Object_0));
    assert(decreases_to!(object => object.members));
    assert(decreases_to!(object.members => object.members@));
    assert(decreases_to!(object.members@ => object.members@[i]));
    assert(decreases_to!(object.members@[i] => object.members@[i].1));
}

proof fn lemma_same_members(a: Seq<(String, Json)>, b: Seq<(String, Json)>)
    requires
        distinct_keys(b),
        a.len() == b.len(),
        forall|j: int|
            0 <= j < a.len() ==> (#[trigger] a[j]).0@ == b[j].0@ && a[j].1@ == b[j].1@,
    ensures
        distinct_keys(a),
        object_of(a) == object_of(b),
{
    assert(distinct_keys(a)) by {
        assert forall|i: int, j: int|
            0 <= i < a.len() && 0 <= j < a.len() && i != j implies (#[trigger] a[i]).0@ != (
        #[trigger] a[j]).0@ by {
            assert(b[i].0@ != b[j].0@);
        }
    }
    assert(object_of(a) =~= object_of(b)) by {
        assert forall|key: Seq<char>| object_of(a).dom().contains(key) == object_of(
            b,
        ).dom().contains(key) by {
            if has_key(a, key) {
                let i = place_of(a, key);
                assert(a[i].0@ == key);
                assert(b[i].0@ == key);
                assert(has_key(b, key));
            }
            if has_key(b, key) {
                let i = place_of(b, key);
                assert(b[i].0@ == key);
                assert(a[i].0@ == key);
                assert(has_key(a, key));
            }
        }
        assert forall|key: Seq<char>| #[trigger] object_of(a).dom().contains(key) implies object_of(
            a,
        )[key] == object_of(b)[key] by {
            let i = place_of(a, key);
            assert(a[i].0@ == key);
            lemma_member(a, i);
            assert(b[i].0@ == key);
            lemma_member(b, i);
        }
    }
}

/// `src` laid over `dst`.
fn laid_over(dst: Json, src: &Json) -> (out: Json)
    ensures
        out@ == merged(dst@, src@),
    decreases src,
{
    match (dst, src) {
        (Json::Object(held), Json::Object(layer)) => {
            proof {
                use_type_invariant(&held);
                use_type_invariant(layer);
                lemma_merged_objects(held@, layer@);
            }
            let ghost below = held@;
            let mut members = held.members;
            let mut i: usize = 0;
            assert(layer.members@.take(0) =~= Seq::<(String, Json)>::empty());
            assert(object_of(layer.members@.take(0)) =~= Map::<Seq<char>, JsonView>::empty());
            assert(overlaid(below, object_of(layer.members@.take(0))) =~= below);
            while i < layer.members.len()
                invariant
                    *src == Json::Object(*layer),
                    distinct_keys(layer.members@),
                    i <= layer.members.len(),
                    distinct_keys(members@),
                    object_of(members@) == overlaid(
                        below,
                        object_of(layer.members@.take(i as int)),
                    ),
                decreases layer.members.len() - i,
            {
                let ghost done = layer.members@.take(i as int);
                let ghost added = layer.members@[i as int];
                proof {
                    assert(distinct_keys(done));
                    assert(layer.members@.take(i as int + 1) =~= done.push(added));
                    if has_key(done, added.0@) {
                        let p = place_of(done, added.0@);
                        assert(done[p].0@ == added.0@);
                        assert(layer.members@[p].0@ == layer.members@[i as int].0@);
                    }
                    lemma_push_member(done, added);
                    lemma_overlaid_step(below, object_of(done), added.0@, added.1@);
                }
                let at = seek(&members, layer.members[i].0.as_str());
                let ghost before = members@;
                if at < members.len() {
                    proof {
                        lemma_member_smaller(*src, i as int);
                    }
                    let (key, old_value) = members.remove(at);
                    let value = laid_over(old_value, &layer.members[i].1);
                    members.insert(at, (key, value));
                    proof {
                        assert(members@ =~= before.update(at as int, (key, value)));
                        lemma_set_member(before, at as int, (key, value));
                    }
                } else {
                    let key = layer.members[i].0.clone();
                    let value = layer.members[i].1.copy();
                    proof {
                        if object_of(before).dom().contains(added.0@) {
                            assert(has_key(before, added.0@));
                        }
                        lemma_push_member(before, (key, value));
                    }
                    members.push((key, value));
                }
                i = i + 1;
            }
            assert(layer.members@.take(i as int) =~= layer.members@);
            Json::Object(JsonObject { members })
        },
        (_, _) => src.copy(),
    }
}

/// Deep recursive merge of `src` into `dst`: where both are objects the values
/// under a shared key merge in turn, and any other collision takes the value
/// of `src`.
pub fn deep_merge_value(dst: &mut Json, src: &Json)
    ensures
        final(dst)@ == merged(old(dst)@, src@),
{
    let mut held = Json::Null;
    std::mem::swap(dst, &mut held);
    *dst = laid_over(held, src);
}

/// The places of an object's members by their keys.
fn ordered_members(object: &JsonObject) -> (table: NameTable<usize>)
    ensures
        forall|key: Seq<char>| #[trigger]
            table.map().dom().contains(key) <==> object@.dom().contains(key),
        forall|key: Seq<char>| #[trigger]
            table.map().dom().contains(key) ==> table.map()[key] < object.members@.len()
                && object.members@[table.map()[key] as int].0@ == key,
{
    let ghost members = object.members@;
    let mut table: NameTable<usize> = NameTable::new();
    let mut i: usize = 0;
    while i < object.members.len()
        invariant
            members == object.members@,
            i <= members.len(),
            forall|j: int| 0 <= j < i ==> table.map().dom().contains((#[trigger] members[j]).0@),
            forall|key: Seq<char>| #[trigger]
                table.map().dom().contains(key) ==> table.map()[key] < i
                    && members[table.map()[key] as int].0@ == key,
        decreases object.members.len() - i,
    {
        table.insert(object.members[i].0.clone(), i);
        i = i + 1;
    }
    assert forall|key: Seq<char>| #[trigger]
        table.map().dom().contains(key) <==> object@.dom().contains(key) by {
        if table.map().dom().contains(key) {
            assert(members[table.map()[key] as int].0@ == key);
        }
        if has_key(members, key) {
            let j = place_of(members, key);
            assert(members[j].0@ == key);
        }
    }
    table
}

/// The paths at which laying `src` over `dst` replaces a value, in order.
pub fn colliding_paths(dst: &Json, src: &Json) -> (paths: Vec<Vec<String>>)
    ensures
        paths_ordered(path_views(paths@)),
        forall|path: Seq<Seq<char>>| #[trigger]
            path_views(paths@).contains(path) <==> collides(dst@, src@, path),
    decreases src,
{
    let mut paths: Vec<Vec<String>> = Vec::new();
    assert(path_views(paths@) =~= Seq::<Seq<Seq<char>>>::empty());
    let (below, layer) = match (dst, src) {
        (Json::Object(below), Json::Object(layer)) => (below, layer),
        (_, _) => {
            return paths;
        },
    };
    proof {
        use_type_invariant(layer);
    }
    let table = ordered_members(layer);
    let n = table.len();
    let ghost names = table@;
    let mut i: usize = 0;
    while i < n
        invariant
            *src == Json::Object(*layer),
            *dst == Json::Object(*below),
            distinct_keys(layer.members@),
            names == table@,
            n == names.len(),
            ordered(names),
            i <= n,
            forall|key: Seq<char>| #[trigger]
                table.map().dom().contains(key) <==> layer@.dom().contains(key),
            forall|key: Seq<char>| #[trigger]
                table.map().dom().contains(key) ==> table.map()[key] < layer.members@.len()
                    && layer.members@[table.map()[key] as int].0@ == key,
            covers(path_views(paths@), dst@, src@, names, i as int),
        decreases n - i,
    {
        let key = table.name_at(i);
        let at: usize = *table.value_at(i);
        proof {
            lemma_entry(names, i as int);
            assert(table.map().dom().contains(key@));
            lemma_member(layer.members@, at as int);
            lemma_member_smaller(*src, at as int);
        }
        let value = &layer.members[at].1;
        let ghost s = src@->Object_0;
        let ghost d = dst@->Object_0;
        assert(s[key@] == value@);
        let mut sub: Vec<Vec<String>> = Vec::new();
        assert(path_views(sub@) =~= Seq::<Seq<Seq<char>>>::empty());
        match below.get(key) {
            Some(held) => {
                if held.is_object() && value.is_object() {
                    sub = colliding_paths(held, value);
                    assert forall|p: Seq<Seq<char>>| #[trigger]
                        path_views(sub@).contains(p) <==> collides(
                        dst@,
                        src@,
                        seq![key@] + p,
                    ) by {
                        assert((seq![key@] + p).drop_first() =~= p);
                    }
                } else {
                    sub.push(Vec::new());
                    assert(texts(sub@[0]@) =~= Seq::<Seq<char>>::empty());
                    assert(path_views(sub@) =~= seq![Seq::<Seq<char>>::empty()]);
                    assert(path_views(sub@)[0] == Seq::<Seq<char>>::empty());
                    assert forall|p: Seq<Seq<char>>| #[trigger]
                        path_views(sub@).contains(p) <==> collides(
                        dst@,
                        src@,
                        seq![key@] + p,
                    ) by {
                        if p.len() == 0 {
                            assert(p =~= Seq::<Seq<char>>::empty());
                        }
                    }
                }
            },
            None => {
                assert forall|p: Seq<Seq<char>>| #[trigger]
                    path_views(sub@).contains(p) <==> collides(dst@, src@, seq![key@] + p) by {
                    assert((seq![key@] + p)[0] == key@);
                }
            },
        }
        proof {
            lemma_one_more_name(
                path_views(paths@),
                path_views(sub@),
                dst@,
                src@,
                names,
                i as int,
            );
        }
        push_under(&mut paths, key, &sub);
        i = i + 1;
    }
    assert forall|path: Seq<Seq<char>>| #[trigger]
        path_views(paths@).contains(path) <==> collides(dst@, src@, path) by {
        if collides(dst@, src@, path) {
            assert(table.map().dom().contains(path[0]));
            lemma_named(names, path[0]);
            assert(names[crate::names::place_of(names, path[0])].0 == path[0]);
        }
    }
    paths
}

/// What each kind of value is, for those who cannot see inside.
pub proof fn lemma_json_view(value: Json)
    ensures
        match value {
            Json::Null => value@ == JsonView::Null,
            Json::Bool(b) => value@ == JsonView::Bool(b),
            Json::Number(n) => value@ == JsonView::Number(n@),
            Json::Text(t) => value@ == JsonView::Text(t@),
            Json::Array(items) => value@ == JsonView::Array(items@.map_values(|item: Json| item@)),
            Json::Object(object) => value@ == JsonView::Object(object@),
        },
{
    if let Json::Array(items) = value {
        assert(value@->Array_0 =~= items@.map_values(|item: Json| item@));
    }
}

} // verus!
