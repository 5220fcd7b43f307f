//! The three placeholder markers of a split template, and splitting on them.
use vstd::prelude::*;

use crate::text::{chars_of, string_of};

verus! {

/// Stands where an attribute value is bound.
pub const PROP_MARKER: &'static str = "\x00PROP\x00";

/// Stands where a block of structure (`v-if`, `v-for`, a component) goes.
pub const STRUCT_MARKER: &'static str = "\x00STRUCT\x00";

/// Stands where text is bound.
pub const TEXT_MARKER: &'static str = "\x00TEXT\x00";

pub open spec fn prop_marker() -> Seq<char> {
    PROP_MARKER@
}

pub open spec fn text_marker() -> Seq<char> {
    TEXT_MARKER@
}

pub open spec fn struct_marker() -> Seq<char> {
    STRUCT_MARKER@
}

/// Whether `m` is one of the three markers.
pub open spec fn is_marker(m: Seq<char>) -> bool {
    m == prop_marker() || m == text_marker() || m == struct_marker()
}

pub proof fn lemma_markers_nonempty()
    ensures
        prop_marker().len() == 6,
        text_marker().len() == 6,
        struct_marker().len() == 8,
{
    reveal_strlit("\x00PROP\x00");
    reveal_strlit("\x00TEXT\x00");
    reveal_strlit("\x00STRUCT\x00");
}

/// Whether `m` occurs in `s` at offset `j`.
pub open spec fn occurs_at(s: Seq<char>, m: Seq<char>, j: int) -> bool {
    0 <= j && j + m.len() <= s.len() && s.subrange(j, j + m.len()) == m
}

/// The first offset at or after `j` where `m` occurs in `s`.
pub open spec fn find_from(s: Seq<char>, m: Seq<char>, j: int) -> Option<int>
    decreases s.len() + 1 - j,
{
    if j < 0 || j + m.len() > s.len() {
        None
    } else if occurs_at(s, m, j) {
        Some(j)
    } else {
        find_from(s, m, j + 1)
    }
}

/// The first offset where `m` occurs in `s` (what `str::find` gives).
pub open spec fn find(s: Seq<char>, m: Seq<char>) -> Option<int> {
    find_from(s, m, 0)
}

pub proof fn lemma_find_from(s: Seq<char>, m: Seq<char>, j: int)
    requires
        0 <= j,
    ensures
        find_from(s, m, j) matches Some(p) ==> j <= p && occurs_at(s, m, p),
        find_from(s, m, j) matches Some(p) ==> forall|k: int| j <= k < p ==> !occurs_at(s, m, k),
        find_from(s, m, j) is None ==> forall|k: int| j <= k ==> !occurs_at(s, m, k),
    decreases s.len() + 1 - j,
{
    if j + m.len() <= s.len() && !occurs_at(s, m, j) {
        lemma_find_from(s, m, j + 1);
    }
}

/// The earliest marker in `s`: its offset and which marker it is. Where two
/// would start at the same offset, the prop marker wins over the text marker,
/// and both over the struct marker.
pub open spec fn next_marker(s: Seq<char>) -> Option<(int, Seq<char>)> {
    let p = find(s, prop_marker());
    let t = find(s, text_marker());
    let c = find(s, struct_marker());
    if p is Some && (t is None || p->0 <= t->0) && (c is None || p->0 <= c->0) {
        Some((p->0, prop_marker()))
    } else if t is Some && (c is None || t->0 <= c->0) {
        Some((t->0, text_marker()))
    } else if c is Some {
        Some((c->0, struct_marker()))
    } else {
        None
    }
}

pub proof fn lemma_next_marker(s: Seq<char>)
    ensures
        next_marker(s) matches Some((p, m)) ==> is_marker(m) && occurs_at(s, m, p) && 0 <= p && p
            + m.len() <= s.len(),
        next_marker(s) matches Some((p, m)) ==> forall|k: int, m2: Seq<char>|
            0 <= k < p && is_marker(m2) ==> !occurs_at(s, m2, k),
        next_marker(s) is None ==> forall|k: int, m2: Seq<char>|
            is_marker(m2) ==> !occurs_at(s, m2, k),
{
    lemma_find_from(s, prop_marker(), 0);
    lemma_find_from(s, text_marker(), 0);
    lemma_find_from(s, struct_marker(), 0);
}

/// The pieces of `s` between markers, in order.
pub open spec fn segments(s: Seq<char>) -> Seq<Seq<char>>
    decreases s.len(),
{
    match next_marker(s) {
        Some((p, m)) => {
            proof {
                lemma_next_marker(s);
                lemma_markers_nonempty();
            }
            seq![s.take(p)] + segments(s.skip(p + m.len()))
        },
        None => seq![s],
    }
}

/// The markers of `s`, in the order they stand.
pub open spec fn markers_in(s: Seq<char>) -> Seq<Seq<char>>
    decreases s.len(),
{
    match next_marker(s) {
        Some((p, m)) => {
            proof {
                lemma_next_marker(s);
                lemma_markers_nonempty();
            }
            seq![m] + markers_in(s.skip(p + m.len()))
        },
        None => Seq::empty(),
    }
}

/// The pieces `segs` put back together with `ms[i]` between `segs[i]` and
/// `segs[i + 1]`.
pub open spec fn interleave(segs: Seq<Seq<char>>, ms: Seq<Seq<char>>) -> Seq<char>
    decreases segs.len(),
{
    if segs.len() == 0 {
        Seq::empty()
    } else if segs.len() == 1 || ms.len() == 0 {
        segs[0]
    } else {
        segs[0] + ms[0] + interleave(segs.drop_first(), ms.drop_first())
    }
}

/// Splitting on markers loses nothing and keeps the order: the pieces,
/// joined by the markers that stood between them, give back `s`; there is one
/// more piece than markers; every marker is one of the three; and no piece
/// contains a marker.
pub proof fn lemma_segments_rejoin(s: Seq<char>)
    ensures
        interleave(segments(s), markers_in(s)) == s,
        segments(s).len() == markers_in(s).len() + 1,
        forall|i: int| 0 <= i < markers_in(s).len() ==> is_marker(#[trigger] markers_in(s)[i]),
        forall|i: int, k: int, m: Seq<char>|
            0 <= i < segments(s).len() && is_marker(m) ==> !#[trigger] occurs_at(
                segments(s)[i],
                m,
                k,
            ),
    decreases s.len(),
{
    lemma_next_marker(s);
    lemma_markers_nonempty();
    match next_marker(s) {
        Some((p, m)) => {
            let rest = s.skip(p + m.len());
            lemma_segments_rejoin(rest);
            let segs = segments(s);
            let ms = markers_in(s);
            assert(segs.drop_first() =~= segments(rest));
            assert(ms.drop_first() =~= markers_in(rest));
            assert(s.subrange(p, p + m.len()) == m);
            if segments(rest).len() == 1 {
                assert(markers_in(rest).len() == 0);
            }
            assert(s =~= s.take(p) + m + rest);
            assert forall|i: int, k: int, m2: Seq<char>|
                0 <= i < segs.len() && is_marker(m2) implies !occurs_at(segs[i], m2, k) by {
                if i == 0 {
                    if occurs_at(s.take(p), m2, k) {
                        assert(s.take(p).subrange(k, k + m2.len()) =~= s.subrange(k, k + m2.len()));
                        assert(occurs_at(s, m2, k));
                    }
                } else {
                    assert(segs[i] == segments(rest)[i - 1]);
                }
            }
            assert forall|i: int| 0 <= i < ms.len() implies is_marker(#[trigger] ms[i]) by {
                if i > 0 {
                    assert(ms[i] == markers_in(rest)[i - 1]);
                }
            }
        },
        None => {
            assert forall|i: int, k: int, m2: Seq<char>|
                0 <= i < segments(s).len() && is_marker(m2) implies !occurs_at(
                segments(s)[i],
                m2,
                k,
            ) by {
                assert(segments(s)[i] == s);
            }
        },
    }
}

/// HTML in which no marker occurs is a single piece: itself.
pub proof fn lemma_marker_free(s: Seq<char>)
    requires
        forall|k: int, m: Seq<char>| is_marker(m) ==> !#[trigger] occurs_at(s, m, k),
    ensures
        segments(s) == seq![s],
        markers_in(s).len() == 0,
{
    lemma_next_marker(s);
    if next_marker(s) is Some {
        let (p, m) = next_marker(s)->0;
        assert(occurs_at(s, m, p));
    }
}

/// Where `m` first occurs in `h` at or after `from`.
fn find_chars(h: &Vec<char>, m: &Vec<char>, from: usize) -> (r: Option<usize>)
    requires
        from <= h@.len(),
    ensures
        opt_shift(r, from as int) == find_from(h@.skip(from as int), m@, 0),
{
    let ghost rest = h@.skip(from as int);
    let mut j: usize = from;
    while m.len() <= h.len() - j
        invariant
            from <= j <= h@.len(),
            rest == h@.skip(from as int),
            find_from(rest, m@, (j - from) as int) == find_from(rest, m@, 0),
        decreases h@.len() - j,
    {
        let mut k: usize = 0;
        let mut same = true;
        while k < m.len()
            invariant
                h@.len() <= usize::MAX,
                j + m@.len() <= h@.len(),
                k <= m@.len(),
                same == (forall|t: int| 0 <= t < k ==> h@[j + t] == m@[t]),
            decreases m@.len() - k,
        {
            assert(j + k < h@.len());
            if h[j + k] != m[k] {
                same = false;
            }
            k = k + 1;
        }
        assert(same == occurs_at(rest, m@, (j - from) as int)) by {
            if same {
                assert(rest.subrange(j - from, j - from + m@.len()) =~= m@);
            } else {
                let t = choose|t: int| 0 <= t < m@.len() && h@[j + t] != m@[t];
                assert(rest.subrange(j - from, j - from + m@.len())[t] != m@[t]);
            }
        }
        if same {
            return Some(j);
        }
        j = j + 1;
    }
    None
}

/// An offset found in a suffix starting at `from`, as an offset in that suffix.
pub open spec fn opt_shift(r: Option<usize>, from: int) -> Option<int> {
    match r {
        Some(v) => Some(v - from),
        None => None,
    }
}

/// The markers as character vectors.
fn marker_chars() -> (r: (Vec<char>, Vec<char>, Vec<char>))
    ensures
        r.0@ == prop_marker(),
        r.1@ == text_marker(),
        r.2@ == struct_marker(),
{
    (chars_of(PROP_MARKER), chars_of(TEXT_MARKER), chars_of(STRUCT_MARKER))
}

/// The pieces of `h` between markers (see [`segments`]).
pub fn split_chars(h: &Vec<char>) -> (r: Vec<String>)
    ensures
        r@.map_values(|s: String| s@) == segments(h@),
{
    let (pm, tm, sm) = marker_chars();
    proof {
        lemma_markers_nonempty();
    }
    let mut statics: Vec<String> = Vec::new();
    let mut from: usize = 0;
    let hl: usize = h.len();
    assert(statics@.map_values(|s: String| s@) =~= Seq::<Seq<char>>::empty());
    assert(h@.skip(0) =~= h@);
    loop
        invariant
            from <= h@.len(),
            hl == h@.len(),
            pm@ == prop_marker(),
            tm@ == text_marker(),
            sm@ == struct_marker(),
            prop_marker().len() == 6,
            text_marker().len() == 6,
            struct_marker().len() == 8,
            statics@.map_values(|s: String| s@) + segments(h@.skip(from as int)) == segments(h@),
        decreases h@.len() - from,
    {
        let ghost rest = h@.skip(from as int);
        let prop_pos = find_chars(h, &pm, from);
        let text_pos = find_chars(h, &tm, from);
        let struct_pos = find_chars(h, &sm, from);
        let next = min_pos(min_pos(prop_pos, text_pos), struct_pos);
        match next {
            None => {
                proof {
                    assert(next_marker(rest) is None);
                }
                let piece = slice_to_string(h, from, h.len());
                assert(piece@ == rest);
                let ghost before = statics@.map_values(|s: String| s@);
                statics.push(piece);
                assert(statics@.map_values(|s: String| s@) =~= before.push(rest));
                assert(segments(rest) =~= seq![rest]);
                return statics;
            },
            Some(position) => {
                let ml = if Some(position) == prop_pos {
                    pm.len()
                } else if Some(position) == text_pos {
                    tm.len()
                } else {
                    sm.len()
                };
                let ghost p = position - from;
                proof {
                    lemma_find_from(rest, prop_marker(), 0);
                    lemma_find_from(rest, text_marker(), 0);
                    lemma_find_from(rest, struct_marker(), 0);
                    lemma_next_marker(rest);
                    assert(next_marker(rest) matches Some((q, m)) && q == p && m.len() == ml);
                    assert(p + ml <= rest.len());
                    assert(position + ml <= h@.len());
                }
                let piece = slice_to_string(h, from, position);
                assert(piece@ =~= rest.take(p));
                let ghost before = statics@.map_values(|s: String| s@);
                statics.push(piece);
                assert(statics@.map_values(|s: String| s@) =~= before.push(rest.take(p)));
                assert(h@.skip(position + ml) =~= rest.skip(p + ml));
                from = position + ml;
            },
        }
    }
}

/// The smaller of two optional offsets; the first when they are equal.
fn min_pos(a: Option<usize>, b: Option<usize>) -> (r: Option<usize>)
    ensures
        r == (match (a, b) {
            (Some(x), Some(y)) => if x <= y {
                Some(x)
            } else {
                Some(y)
            },
            (Some(x), None) => Some(x),
            (None, Some(y)) => Some(y),
            (None, None) => None,
        }),
{
    match (a, b) {
        (Some(x), Some(y)) => if x <= y {
            Some(x)
        } else {
            Some(y)
        },
        (Some(x), None) => Some(x),
        (None, Some(y)) => Some(y),
        (None, None) => None,
    }
}

/// The string of the characters of `h` from `a` up to `b`.
fn slice_to_string(h: &Vec<char>, a: usize, b: usize) -> (r: String)
    requires
        a <= b <= h@.len(),
    ensures
        r@ == h@.subrange(a as int, b as int),
{
    let v = crate::html::slice_range(h, a, b);
    string_of(v.as_slice())
}

/// Splits `html` at every marker, keeping the pieces between them in order
/// (see [`segments`] and [`lemma_segments_rejoin`]).
pub fn split_on_markers(html: &str) -> (r: Vec<String>)
    ensures
        r@.map_values(|s: String| s@) == segments(html@),
{
    let h = chars_of(html);
    split_chars(&h)
}

} // verus!
