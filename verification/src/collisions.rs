//! Where one payload layer takes the place of another's value.

use vstd::prelude::*;

use crate::json::JsonView;
use crate::text::comes_before;
use crate::text::copy_list;
use crate::text::lemma_order_irreflexive;
use crate::text::texts;

verus! {

/// Whether laying `src` over `dst` replaces a value at this path: both have
/// one there, and not both are objects.
pub open spec fn collides(dst: JsonView, src: JsonView, path: Seq<Seq<char>>) -> bool
    decreases path.len(),
{
    match (dst, src) {
        (JsonView::Object(d), JsonView::Object(s)) => {
            &&& path.len() > 0
            &&& d.dom().contains(path[0])
            &&& s.dom().contains(path[0])
            &&& if d[path[0]] is Object && s[path[0]] is Object {
                collides(d[path[0]], s[path[0]], path.drop_first())
            } else {
                path.len() == 1
            }
        },
        _ => false,
    }
}

/// Whether path `a` comes before path `b`, key by key.
pub open spec fn path_before(a: Seq<Seq<char>>, b: Seq<Seq<char>>) -> bool
    decreases a.len(),
{
    if b.len() == 0 {
        false
    } else if a.len() == 0 {
        true
    } else if a[0] != b[0] {
        comes_before(a[0], b[0])
    } else {
        path_before(a.drop_first(), b.drop_first())
    }
}

/// Whether paths stand in order, none twice.
pub open spec fn paths_ordered(paths: Seq<Seq<Seq<char>>>) -> bool {
    forall|i: int, j: int|
        0 <= i < j < paths.len() ==> path_before(#[trigger] paths[i], #[trigger] paths[j])
}

/// The keys of each path.
pub open spec fn path_views(paths: Seq<Vec<String>>) -> Seq<Seq<Seq<char>>> {
    paths.map_values(|p: Vec<String>| texts(p@))
}

/// Paths with one more key in front.
pub open spec fn under_key(key: Seq<char>, paths: Seq<Seq<Seq<char>>>) -> Seq<Seq<Seq<char>>> {
    paths.map_values(|p: Seq<Seq<char>>| seq![key] + p)
}

/// Whether a key is among the first `n` names.
pub open spec fn among<V>(names: Seq<(Seq<char>, V)>, n: int, key: Seq<char>) -> bool {
    exists|m: int| 0 <= m < n && (#[trigger] names[m]).0 == key
}

/// Whether `paths` are those of the collisions under the first `n` names.
pub open spec fn covers<V>(
    paths: Seq<Seq<Seq<char>>>,
    dst: JsonView,
    src: JsonView,
    names: Seq<(Seq<char>, V)>,
    n: int,
) -> bool {
    &&& paths_ordered(paths)
    &&& forall|path: Seq<Seq<char>>| #[trigger]
        paths.contains(path) <==> collides(dst, src, path) && among(names, n, path[0])
}

/// The collisions under one more name follow those under the names before it.
pub proof fn lemma_one_more_name<V>(
    paths: Seq<Seq<Seq<char>>>,
    sub: Seq<Seq<Seq<char>>>,
    dst: JsonView,
    src: JsonView,
    names: Seq<(Seq<char>, V)>,
    n: int,
)
    requires
        crate::names::ordered(names),
        0 <= n < names.len(),
        covers(paths, dst, src, names, n),
        paths_ordered(sub),
        forall|p: Seq<Seq<char>>| #[trigger]
            sub.contains(p) <==> collides(dst, src, seq![names[n].0] + p),
    ensures
        covers(paths + under_key(names[n].0, sub), dst, src, names, n + 1),
{
    let key = names[n].0;
    let more = under_key(key, sub);
    let all = paths + more;
    assert forall|i: int| 0 <= i < paths.len() implies among(names, n, (#[trigger] paths[i])[0])
        && paths[i].len() > 0 by {
        assert(paths.contains(paths[i]));
    }
    assert forall|i: int, j: int| 0 <= i < j < all.len() implies path_before(
        #[trigger] all[i],
        #[trigger] all[j],
    ) by {
        if j < paths.len() {
            assert(path_before(paths[i], paths[j]));
        } else if i < paths.len() {
            let m = choose|m: int| 0 <= m < n && (#[trigger] names[m]).0 == paths[i][0];
            assert(comes_before(names[m].0, names[n].0));
            lemma_order_irreflexive(key);
            assert(all[j][0] == key);
        } else {
            let a = i - paths.len();
            let b = j - paths.len();
            assert(path_before(sub[a], sub[b]));
            assert(all[i].drop_first() =~= sub[a]);
            assert(all[j].drop_first() =~= sub[b]);
        }
    }
    assert forall|path: Seq<Seq<char>>| #[trigger] all.contains(path) <==> collides(dst, src, path)
        && among(names, n + 1, path[0]) by {
        if all.contains(path) {
            let i = all.index_of(path);
            if i < paths.len() {
                assert(paths.contains(paths[i]));
                let m = choose|m: int| 0 <= m < n && (#[trigger] names[m]).0 == path[0];
                assert(names[m].0 == path[0]);
            } else {
                let a = i - paths.len();
                assert(sub.contains(sub[a]));
                assert(path == seq![key] + sub[a]);
                assert(names[n].0 == path[0]);
            }
        }
        if collides(dst, src, path) && among(names, n + 1, path[0]) {
            if among(names, n, path[0]) {
                assert(paths.contains(path));
                let i = paths.index_of(path);
                assert(all[i] == path);
            } else {
                let m = choose|m: int| 0 <= m < n + 1 && (#[trigger] names[m]).0 == path[0];
                assert(m == n);
                assert(path =~= seq![key] + path.drop_first());
                assert(sub.contains(path.drop_first()));
                let a = sub.index_of(path.drop_first());
                assert(all[paths.len() + a] == path);
            }
        }
    }
}

/// Appends paths with one more key in front.
pub fn push_under(paths: &mut Vec<Vec<String>>, key: &str, sub: &Vec<Vec<String>>)
    ensures
        path_views(final(paths)@) == path_views(old(paths)@) + under_key(
            key@,
            path_views(sub@),
        ),
{
    let ghost before = path_views(paths@);
    let ghost views = path_views(sub@);
    let mut i: usize = 0;
    assert(path_views(paths@) =~= before + under_key(key@, views.take(0)));
    while i < sub.len()
        invariant
            i <= sub.len(),
            views == path_views(sub@),
            path_views(paths@) == before + under_key(key@, views.take(i as int)),
        decreases sub.len() - i,
    {
        let mut path: Vec<String> = Vec::new();
        path.push(key.to_owned());
        let mut rest = copy_list(&sub[i]);
        path.append(&mut rest);
        assert(texts(path@) =~= seq![key@] + views[i as int]);
        let ghost held = path_views(paths@);
        paths.push(path);
        assert(path_views(paths@) =~= held.push(seq![key@] + views[i as int]));
        assert(path_views(paths@) =~= before + under_key(key@, views.take(i as int + 1)));
        i = i + 1;
    }
    assert(views.take(i as int) =~= views);
}

} // verus!
