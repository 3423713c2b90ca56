//! Laws of the text rules: case, whitespace, separated lists and order.

use vstd::prelude::*;

use crate::names::map_of;
use crate::names::ordered;
use crate::names::lemma_entry;
use crate::names::lemma_named;
use crate::names::place_of;
use crate::text::ascii_lower;
use crate::text::comes_before;
use crate::text::is_white_space;
use crate::text::lower;
use crate::text::same_name;
use crate::text::split_each;
use crate::text::split_on;
use crate::text::texts;
use crate::text::trim_end;
use crate::text::trim_start;
use crate::text::trimmed;
use crate::text::with_pieces;
use crate::text::with_token;

verus! {

// ---------------------------------------------------------------------------
// Case and whitespace
// ---------------------------------------------------------------------------

/// Whether two characters are the same letter: equal, or an ASCII capital and
/// its small letter.
pub open spec fn same_letter(a: char, b: char) -> bool {
    ||| a == b
    ||| 65 <= a as int <= 90 && b as int == a as int + 32
    ||| 65 <= b as int <= 90 && a as int == b as int + 32
}

/// Two names are the same header name exactly if they are as long and agree
/// letter by letter. No letter outside ASCII is folded.
pub proof fn law_names_ignore_case(a: Seq<char>, b: Seq<char>)
    ensures
        same_name(a, b) <==> a.len() == b.len() && (forall|i: int|
            0 <= i < a.len() ==> same_letter(#[trigger] a[i], b[i])),
{
    if same_name(a, b) {
        assert(lower(a).len() == a.len() && lower(b).len() == b.len());
        assert forall|i: int| 0 <= i < a.len() implies same_letter(#[trigger] a[i], b[i]) by {
            assert(lower(a)[i] == lower(b)[i]);
        }
    }
    if a.len() == b.len() && (forall|i: int|
        0 <= i < a.len() ==> same_letter(#[trigger] a[i], b[i])) {
        assert forall|i: int| 0 <= i < a.len() implies lower(a)[i] == lower(b)[i] by {
            assert(same_letter(a[i], b[i]));
        }
        assert(lower(a) =~= lower(b));
    }
}

/// What counts as whitespace: the controls from tab to carriage return, the
/// spaces, and the separators of lines and paragraphs.
pub proof fn law_white_space(c: char)
    ensures
        is_white_space(c) <==> {
            ||| '\t' <= c <= '\r'
            ||| c == ' '
            ||| c == '\u{85}'
            ||| c == '\u{a0}'
            ||| c == '\u{1680}'
            ||| '\u{2000}' <= c <= '\u{200a}'
            ||| '\u{2028}' <= c <= '\u{2029}'
            ||| c == '\u{202f}'
            ||| c == '\u{205f}'
            ||| c == '\u{3000}'
        },
{
}

/// Whether `part` is `s` from `i` to `j`, where only whitespace stands outside
/// and none at the ends inside.
pub open spec fn trimmed_at(s: Seq<char>, part: Seq<char>, i: int, j: int) -> bool {
    &&& 0 <= i <= j <= s.len()
    &&& part == s.subrange(i, j)
    &&& forall|k: int| 0 <= k < i ==> is_white_space(#[trigger] s[k])
    &&& forall|k: int| j <= k < s.len() ==> is_white_space(#[trigger] s[k])
    &&& i < j ==> !is_white_space(s[i]) && !is_white_space(s[j - 1])
}

proof fn lemma_trim_start_at(s: Seq<char>) -> (i: int)
    ensures
        0 <= i <= s.len(),
        trim_start(s) == s.skip(i),
        forall|k: int| 0 <= k < i ==> is_white_space(#[trigger] s[k]),
        i < s.len() ==> !is_white_space(s[i]),
    decreases s.len(),
{
    if s.len() > 0 && is_white_space(s[0]) {
        let rest = s.drop_first();
        let j = lemma_trim_start_at(rest);
        assert(rest.skip(j) =~= s.skip(j + 1));
        assert forall|k: int| 0 <= k < j + 1 implies is_white_space(#[trigger] s[k]) by {
            if k > 0 {
                assert(rest[k - 1] == s[k]);
            }
        }
        if j + 1 < s.len() {
            assert(rest[j] == s[j + 1]);
        }
        j + 1
    } else {
        assert(s.skip(0) =~= s);
        0
    }
}

proof fn lemma_trim_end_at(s: Seq<char>) -> (j: int)
    ensures
        0 <= j <= s.len(),
        trim_end(s) == s.take(j),
        forall|k: int| j <= k < s.len() ==> is_white_space(#[trigger] s[k]),
        j > 0 ==> !is_white_space(s[j - 1]),
    decreases s.len(),
{
    if s.len() > 0 && is_white_space(s.last()) {
        let rest = s.drop_last();
        let j = lemma_trim_end_at(rest);
        assert(rest.take(j) =~= s.take(j));
        assert forall|k: int| j <= k < s.len() implies is_white_space(#[trigger] s[k]) by {
            if k < rest.len() {
                assert(rest[k] == s[k]);
            }
        }
        if j > 0 {
            assert(rest[j - 1] == s[j - 1]);
        }
        j
    } else {
        assert(s.take(s.len() as int) =~= s);
        s.len() as int
    }
}

/// Trimming takes whitespace off both ends, all of it and nothing else.
pub proof fn law_trimmed(s: Seq<char>)
    ensures
        exists|i: int, j: int| #[trigger] trimmed_at(s, trimmed(s), i, j),
{
    let i = lemma_trim_start_at(s);
    let rest = s.skip(i);
    let n = lemma_trim_end_at(rest);
    assert(rest.take(n) =~= s.subrange(i, i + n));
    assert forall|k: int| i + n <= k < s.len() implies is_white_space(#[trigger] s[k]) by {
        assert(rest[k - i] == s[k]);
    }
    if n > 0 {
        assert(rest[n - 1] == s[i + n - 1]);
        assert(rest[0] == s[i]);
    }
    assert(trimmed_at(s, trimmed(s), i, i + n));
}

// ---------------------------------------------------------------------------
// Separated lists
// ---------------------------------------------------------------------------

/// The texts of a list are those of its strings, place by place.
pub proof fn law_texts(list: Seq<String>)
    ensures
        texts(list).len() == list.len(),
        forall|i: int| 0 <= i < list.len() ==> #[trigger] texts(list)[i] == list[i]@,
{
}

/// Pieces joined with a separator between each two.
pub open spec fn joined(pieces: Seq<Seq<char>>, sep: char) -> Seq<char>
    decreases pieces.len(),
{
    if pieces.len() == 0 {
        Seq::empty()
    } else if pieces.len() == 1 {
        pieces[0]
    } else {
        joined(pieces.drop_last(), sep).push(sep) + pieces.last()
    }
}

/// Splitting is undone by joining, and no piece holds the separator.
pub proof fn law_split_joins_back(s: Seq<char>, sep: char)
    ensures
        split_on(s, sep).len() > 0,
        joined(split_on(s, sep), sep) == s,
        forall|i: int|
            0 <= i < split_on(s, sep).len() ==> !(#[trigger] split_on(s, sep)[i]).contains(sep),
    decreases s.len(),
{
    let pieces = split_on(s, sep);
    if s.len() == 0 {
        assert(joined(pieces, sep) =~= s);
    } else {
        let shorter = s.drop_last();
        let before = split_on(shorter, sep);
        law_split_joins_back(shorter, sep);
        if s.last() == sep {
            assert(pieces.drop_last() =~= before);
            assert(joined(pieces, sep) =~= shorter.push(sep));
            assert(shorter.push(sep) =~= s);
            assert forall|i: int| 0 <= i < pieces.len() implies !(
            #[trigger] pieces[i]).contains(sep) by {
                if i < before.len() {
                    assert(pieces[i] == before[i]);
                }
            }
        } else {
            let last = before.last();
            assert(pieces.drop_last() =~= before.drop_last());
            assert(pieces.last() == last.push(s.last()));
            assert(joined(pieces, sep) =~= joined(before, sep).push(s.last()));
            assert(shorter.push(s.last()) =~= s);
            assert forall|i: int| 0 <= i < pieces.len() implies !(
            #[trigger] pieces[i]).contains(sep) by {
                if i < before.len() - 1 {
                    assert(pieces[i] == before[i]);
                } else {
                    assert(last == before[before.len() - 1]);
                    if pieces[i].contains(sep) {
                        let k = pieces[i].index_of(sep);
                        if k < last.len() {
                            assert(last[k] == sep);
                            assert(last.contains(sep));
                        }
                    }
                }
            }
        }
    }
}

/// The pieces of a list are those of its entries one after the other: those of
/// the entries before the `i`-th, then its own, then those of the rest.
pub proof fn law_entries_split_in_turn(entries: Seq<Seq<char>>, sep: char, i: int)
    requires
        0 <= i < entries.len(),
    ensures
        split_each(Seq::empty(), sep) == Seq::<Seq<char>>::empty(),
        split_each(entries, sep) == split_each(entries.take(i), sep) + split_on(entries[i], sep)
            + split_each(entries.skip(i + 1), sep),
    decreases entries.len(),
{
    let n = entries.len() - 1;
    if i == n {
        assert(entries.drop_last() =~= entries.take(i));
        assert(entries.skip(i + 1) =~= Seq::<Seq<char>>::empty());
        assert(split_each(entries, sep) =~= split_each(entries.take(i), sep) + split_on(
            entries[i],
            sep,
        ) + split_each(entries.skip(i + 1), sep));
    } else {
        let shorter = entries.drop_last();
        law_entries_split_in_turn(shorter, sep, i);
        assert(shorter.take(i) =~= entries.take(i));
        assert(entries.skip(i + 1).drop_last() =~= shorter.skip(i + 1));
        assert(entries.skip(i + 1).last() == entries.last());
        assert(split_each(entries, sep) =~= split_each(entries.take(i), sep) + split_on(
            entries[i],
            sep,
        ) + split_each(entries.skip(i + 1), sep));
    }
}

/// A token is appended once: a list that holds it, and an empty token, leave
/// the list alone.
pub proof fn law_token_once(list: Seq<Seq<char>>, token: Seq<char>)
    ensures
        list.contains(token) ==> with_token(list, token) == list,
        token.len() == 0 ==> with_token(list, token) == list,
        token.len() > 0 && !list.contains(token) ==> with_token(list, token) == list + seq![token],
{
    assert(list.push(token) =~= list + seq![token]);
}

/// Pieces are taken in turn: what the first `k` of them make of a list, the
/// others only append to.
pub proof fn law_pieces_in_order(list: Seq<Seq<char>>, pieces: Seq<Seq<char>>, k: int)
    requires
        0 <= k <= pieces.len(),
    ensures
        with_pieces(list, Seq::empty()) == list,
        with_pieces(list, pieces) == with_pieces(
            with_pieces(list, pieces.take(k)),
            pieces.skip(k),
        ),
        with_pieces(list, pieces.take(k)).len() <= with_pieces(list, pieces).len(),
        with_pieces(list, pieces).take(with_pieces(list, pieces.take(k)).len() as int)
            == with_pieces(list, pieces.take(k)),
    decreases pieces.len(),
{
    let whole = with_pieces(list, pieces);
    let part = with_pieces(list, pieces.take(k));
    if k == pieces.len() {
        assert(pieces.take(k) =~= pieces);
        assert(pieces.skip(k) =~= Seq::<Seq<char>>::empty());
        assert(whole.take(whole.len() as int) =~= whole);
    } else {
        let shorter = pieces.drop_last();
        law_pieces_in_order(list, shorter, k);
        assert(shorter.take(k) =~= pieces.take(k));
        assert(pieces.skip(k).drop_last() =~= shorter.skip(k));
        assert(pieces.skip(k).last() == pieces.last());
        let before = with_pieces(list, shorter);
        assert(whole.take(part.len() as int) =~= before.take(part.len() as int));
    }
}

/// One more piece adds its trimmed text behind the others exactly if that is
/// neither empty nor there already.
pub proof fn law_one_more_piece(list: Seq<Seq<char>>, pieces: Seq<Seq<char>>, piece: Seq<char>)
    ensures
        ({
            let before = with_pieces(list, pieces);
            with_pieces(list, pieces.push(piece)) == (if trimmed(piece).len() > 0
                && !before.contains(trimmed(piece)) {
                before.push(trimmed(piece))
            } else {
                before
            })
        }),
{
    assert(pieces.push(piece).drop_last() =~= pieces);
}

// ---------------------------------------------------------------------------
// Order
// ---------------------------------------------------------------------------

/// Whether two texts agree up to a place at which `a` ends or has the smaller
/// character.
pub open spec fn parts_at(a: Seq<char>, b: Seq<char>, k: int) -> bool {
    &&& 0 <= k <= a.len()
    &&& k < b.len()
    &&& forall|i: int| 0 <= i < k ==> #[trigger] a[i] == b[i]
    &&& k == a.len() || a[k] < b[k]
}

/// A text comes before another exactly if they part at a place where it ends
/// or has the smaller character.
pub proof fn law_order_of_names(a: Seq<char>, b: Seq<char>)
    ensures
        comes_before(a, b) <==> exists|k: int| #[trigger] parts_at(a, b, k),
    decreases a.len(),
{
    if b.len() > 0 && a.len() > 0 && a[0] == b[0] {
        let x = a.drop_first();
        let y = b.drop_first();
        law_order_of_names(x, y);
        if comes_before(x, y) {
            let k = choose|k: int| #[trigger] parts_at(x, y, k);
            assert forall|i: int| 0 <= i < k + 1 implies #[trigger] a[i] == b[i] by {
                if i > 0 {
                    assert(x[i - 1] == a[i] && y[i - 1] == b[i]);
                }
            }
            assert(parts_at(a, b, k + 1));
        }
        if exists|k: int| #[trigger] parts_at(a, b, k) {
            let k = choose|k: int| #[trigger] parts_at(a, b, k);
            assert(k > 0);
            assert forall|i: int| 0 <= i < k - 1 implies #[trigger] x[i] == y[i] by {
                assert(a[i + 1] == b[i + 1]);
            }
            assert(parts_at(x, y, k - 1));
        }
    } else {
        if comes_before(a, b) {
            assert(parts_at(a, b, 0));
        }
        if exists|k: int| #[trigger] parts_at(a, b, k) {
            let k = choose|k: int| #[trigger] parts_at(a, b, k);
            if k > 0 {
                assert(a[0] == b[0]);
            }
        }
    }
}

/// A table holds under a name exactly what the entry of that name holds.
pub proof fn law_table_is_its_entries<V>(entries: Seq<(Seq<char>, V)>, name: Seq<char>, i: int)
    requires
        ordered(entries),
    ensures
        map_of(entries).dom().contains(name) <==> exists|k: int|
            0 <= k < entries.len() && (#[trigger] entries[k]).0 == name,
        0 <= i < entries.len() && entries[i].0 == name ==> map_of(entries)[name] == entries[i].1,
{
    if map_of(entries).dom().contains(name) {
        lemma_named(entries, name);
        assert(entries[place_of(entries, name)].0 == name);
    }
    if exists|k: int| 0 <= k < entries.len() && (#[trigger] entries[k]).0 == name {
        let k = choose|k: int| 0 <= k < entries.len() && (#[trigger] entries[k]).0 == name;
        lemma_entry(entries, k);
    }
    if 0 <= i < entries.len() {
        lemma_entry(entries, i);
    }
}

/// Folding a character makes an ASCII capital its small letter and leaves every
/// other character alone.
pub proof fn law_fold(c: char)
    ensures
        65 <= c as int <= 90 ==> ascii_lower(c) as int == c as int + 32,
        !(65 <= c as int <= 90) ==> ascii_lower(c) == c,
{
}

} // verus!
