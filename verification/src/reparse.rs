//! Moving tag offsets after an injection agrees with reading the new HTML
//! again: the laws behind keeping a tag tree in step with the HTML it was
//! read from.
use vstd::prelude::*;

use crate::html::{
    attr_injected, close_at, close_injected, count_children, ends_name, first_gt, insert_seq,
    is_void_name, lemma_first_gt, lemma_name_end, name_end, opened_tag, past, scan, self_closing,
    shift_tag, shift_tags, shifted, tag_tree, TagV,
};

verus! {

/// An attribute that can be injected without changing how the tag around it
/// reads: it starts with a space, holds no `<` or `>`, and does not end
/// with `/`.
pub open spec fn clean_attr(s: Seq<char>) -> bool {
    &&& s.len() > 0
    &&& s[0] == ' '
    &&& s.last() != '/'
    &&& forall|j: int| 0 <= j < s.len() ==> #[trigger] s[j] != '<' && s[j] != '>'
}

/// `at` holds a `>` that does not follow a `/`.
pub open spec fn plain_close(h: Seq<char>, at: int) -> bool {
    &&& 0 <= at < h.len()
    &&& h[at] == '>'
    &&& (at == 0 || h[at - 1] != '/')
}

proof fn lemma_insert_index(h: Seq<char>, at: int, s: Seq<char>)
    requires
        0 <= at <= h.len(),
    ensures
        insert_seq(h, at, s).len() == h.len() + s.len(),
        forall|j: int| 0 <= j < at ==> #[trigger] insert_seq(h, at, s)[j] == h[j],
        forall|j: int| 0 <= j < s.len() ==> #[trigger] insert_seq(h, at, s)[at + j] == s[j],
        forall|j: int| at <= j < h.len() ==> #[trigger] insert_seq(h, at, s)[j + s.len()] == h[j],
{
    let h2 = insert_seq(h, at, s);
    assert forall|j: int| 0 <= j < s.len() implies #[trigger] h2[at + j] == s[j] by {
        assert(h2[at + j] == (h.take(at) + s)[at + j]);
    }
    assert forall|j: int| at <= j < h.len() implies #[trigger] h2[j + s.len()] == h[j] by {
        assert(h2[j + s.len()] == h.skip(at)[j - at]);
    }
}

/// Inside the attribute, the next `>` is the one it was put before.
proof fn lemma_gt_within(h: Seq<char>, at: int, s: Seq<char>, j: int)
    requires
        plain_close(h, at),
        clean_attr(s),
        at <= j <= at + s.len(),
    ensures
        first_gt(insert_seq(h, at, s), j) == at + s.len(),
    decreases at + s.len() - j,
{
    lemma_insert_index(h, at, s);
    let h2 = insert_seq(h, at, s);
    if j < at + s.len() {
        assert(h2[at + (j - at)] == s[j - at]);
        lemma_gt_within(h, at, s, j + 1);
    } else {
        assert(h2[at + s.len()] == h[at]);
    }
}

proof fn lemma_gt_before(h: Seq<char>, at: int, s: Seq<char>, j: int)
    requires
        plain_close(h, at),
        clean_attr(s),
        0 <= j <= at,
    ensures
        first_gt(h, j) <= at,
        first_gt(insert_seq(h, at, s), j) == if first_gt(h, j) < at {
            first_gt(h, j)
        } else {
            at + s.len()
        },
    decreases at - j,
{
    lemma_insert_index(h, at, s);
    if j == at {
        lemma_gt_within(h, at, s, at);
    } else {
        assert(insert_seq(h, at, s)[j] == h[j]);
        if h[j] != '>' {
            lemma_gt_before(h, at, s, j + 1);
        }
    }
}

proof fn lemma_gt_after(h: Seq<char>, at: int, s: Seq<char>, j: int)
    requires
        plain_close(h, at),
        clean_attr(s),
        at < j <= h.len(),
    ensures
        first_gt(insert_seq(h, at, s), j + s.len()) == first_gt(h, j) + s.len(),
    decreases h.len() - j,
{
    lemma_insert_index(h, at, s);
    if j < h.len() {
        assert(insert_seq(h, at, s)[j + s.len()] == h[j]);
        if h[j] != '>' {
            lemma_gt_after(h, at, s, j + 1);
        }
    }
}

proof fn lemma_name_before(h: Seq<char>, at: int, s: Seq<char>, j: int)
    requires
        plain_close(h, at),
        clean_attr(s),
        0 <= j <= at,
    ensures
        name_end(insert_seq(h, at, s), j) == name_end(h, j),
        name_end(h, j) <= at,
    decreases at - j,
{
    lemma_insert_index(h, at, s);
    if j == at {
        assert(insert_seq(h, at, s)[at + 0] == s[0]);
    } else {
        assert(insert_seq(h, at, s)[j] == h[j]);
        if !ends_name(h[j]) {
            lemma_name_before(h, at, s, j + 1);
        }
    }
}

proof fn lemma_name_after(h: Seq<char>, at: int, s: Seq<char>, j: int)
    requires
        plain_close(h, at),
        clean_attr(s),
        at < j <= h.len(),
    ensures
        name_end(insert_seq(h, at, s), j + s.len()) == name_end(h, j) + s.len(),
    decreases h.len() - j,
{
    lemma_insert_index(h, at, s);
    if j < h.len() {
        assert(insert_seq(h, at, s)[j + s.len()] == h[j]);
        if !ends_name(h[j]) {
            lemma_name_after(h, at, s, j + 1);
        }
    }
}

/// The scan passes over text without `<` and changes nothing.
proof fn lemma_skip(h: Seq<char>, a: int, b: int, es: Seq<TagV>, st: Seq<int>)
    requires
        0 <= a <= b <= h.len(),
        forall|j: int| a <= j < b ==> #[trigger] h[j] != '<',
    ensures
        scan(h, a, es, st) == scan(h, b, es, st),
    decreases b - a,
{
    if a < b {
        lemma_skip(h, a + 1, b, es, st);
    }
}

proof fn lemma_count_shifted(es: Seq<TagV>, p: Option<int>, at: int, d: int, incl: bool)
    ensures
        count_children(shift_tags(es, at, d, incl), p) == count_children(es, p),
    decreases es.len(),
{
    if es.len() > 0 {
        assert(shift_tags(es, at, d, incl).drop_last() =~= shift_tags(es.drop_last(), at, d, incl));
        lemma_count_shifted(es.drop_last(), p, at, d, incl);
    }
}

/// One scan in `h` and the scan from the matching offset in `h` with `s`
/// injected at `at` find the same tags, offsets moved.
proof fn lemma_scan_shifted(h: Seq<char>, at: int, s: Seq<char>, i: int, es: Seq<TagV>, st: Seq<int>)
    requires
        plain_close(h, at),
        clean_attr(s),
        0 <= i,
        forall|j: int| 0 <= j < st.len() ==> 0 <= #[trigger] st[j] < es.len(),
    ensures
        scan(insert_seq(h, at, s), shifted(i, at, s.len() as int, false), shift_tags(es, at, s.len() as int, false), st)
            == shift_tags(scan(h, i, es, st), at, s.len() as int, false),
    decreases h.len() - i,
{
    let h2 = insert_seq(h, at, s);
    let d = s.len() as int;
    let es2 = shift_tags(es, at, d, false);
    let i2 = shifted(i, at, d, false);
    lemma_insert_index(h, at, s);
    if i >= h.len() {
        return;
    }
    if h[i] != '<' {
        if i == at {
            assert forall|j: int| at <= j < at + d implies #[trigger] h2[j] != '<' by {
                assert(h2[at + (j - at)] == s[j - at]);
            }
            lemma_skip(h2, at, at + d, es2, st);
            assert(h2[at + d] == h[at]);
        } else if i < at {
            assert(h2[i] == h[i]);
        } else {
            assert(h2[i + d] == h[i]);
        }
        lemma_scan_shifted(h, at, s, i + 1, es, st);
        return;
    }
    // An opening or closing tag starts at `i`.
    assert(i != at);
    let closing = i + 1 < h.len() && h[i + 1] == '/';
    if i < at {
        assert(h2[i] == h[i]);
        if i + 1 < at {
            assert(h2[i + 1] == h[i + 1]);
        } else {
            assert(h2[at + 0] == s[0]);
        }
    } else {
        assert(h2[i + d] == h[i]);
        if i + 1 < h.len() {
            assert(h2[i + 1 + d] == h[i + 1]);
        }
    }
    if closing {
        let g = first_gt(h, i + 2);
        lemma_first_gt(h, i + 2);
        if i < at {
            lemma_gt_before(h, at, s, i + 2);
        } else {
            lemma_gt_after(h, at, s, i + 2);
        }
        let next = past(h, g);
        if st.len() > 0 {
            let k = st.last();
            let es_c = close_at(es, k, i);
            assert(shift_tags(es_c, at, d, false) =~= close_at(es2, k, i2));
            lemma_scan_shifted(h, at, s, next, es_c, st.drop_last());
        } else {
            lemma_scan_shifted(h, at, s, next, es, st);
        }
    } else {
        let e = opened_tag(h, i, es, st);
        let ne = name_end(h, i + 1);
        lemma_name_end(h, i + 1);
        lemma_first_gt(h, ne);
        let g = first_gt(h, ne);
        if i < at {
            lemma_name_before(h, at, s, i + 1);
            lemma_gt_before(h, at, s, ne);
            assert(h2.subrange(i + 1, ne) =~= h.subrange(i + 1, ne));
            if g < at {
                if g > ne {
                    assert(h2[g - 1] == h[g - 1]);
                }
            } else {
                assert(h2[at + (d - 1)] == s[d - 1]);
            }
        } else {
            lemma_name_after(h, at, s, i + 1);
            lemma_gt_after(h, at, s, ne);
            assert(h2.subrange(i + 1 + d, ne + d) =~= h.subrange(i + 1, ne));
            if g < h.len() && g > ne {
                assert(h2[g - 1 + d] == h[g - 1]);
            }
        }
        lemma_count_shifted(es, e.parent, at, d, false);
        let e2 = opened_tag(h2, i2, es2, st);
        assert(e2 == shift_tag(e, at, d, false));
        assert(self_closing(h2, i2) == self_closing(h, i));
        let st2 = if !self_closing(h, i) && !is_void_name(e.name) {
            st.push(es.len() as int)
        } else {
            st
        };
        assert(shift_tags(es.push(e), at, d, false) =~= es2.push(shift_tag(e, at, d, false)));
        lemma_scan_shifted(h, at, s, e.open_end, es.push(e), st2);
    }
}

/// Injecting a clean attribute (see [`clean_attr`]) just before the `>` of
/// an opening tag that does not end with `/>` keeps the tag tree in step
/// with the HTML: reading the new HTML gives exactly the tags with their
/// offsets moved, as [`attr_injected`] moves them.
pub proof fn lemma_attr_injection_reparses(h: Seq<char>, k: int, s: Seq<char>)
    requires
        0 <= k < tag_tree(h).len(),
        plain_close(h, tag_tree(h)[k].open_end - 1),
        clean_attr(s),
    ensures
        tag_tree(attr_injected(h, tag_tree(h), k, s).0) == attr_injected(h, tag_tree(h), k, s).1,
{
    let at = tag_tree(h)[k].open_end - 1;
    lemma_scan_shifted(h, at, s, 0, Seq::empty(), Seq::empty());
    assert(shift_tags(Seq::<TagV>::empty(), at, s.len() as int, false) =~= Seq::<TagV>::empty());
}

// ── Content before a closing tag ──

/// Content that holds no `<`, so reading it starts no tag.
pub open spec fn no_lt(s: Seq<char>) -> bool {
    forall|j: int| 0 <= j < s.len() ==> #[trigger] s[j] != '<'
}

/// Where the scan of `h` goes from offset `i`, whatever it has found so far:
/// past the next `>` at a `<`, to the next offset elsewhere.
pub open spec fn scan_next(h: Seq<char>, i: int) -> int {
    if 0 <= i < h.len() && h[i] == '<' {
        if i + 1 < h.len() && h[i + 1] == '/' {
            past(h, first_gt(h, i + 2))
        } else {
            past(h, first_gt(h, name_end(h, i + 1)))
        }
    } else {
        i + 1
    }
}

/// The scan always moves forward, and stays within the HTML.
pub proof fn lemma_scan_next(h: Seq<char>, i: int)
    requires
        0 <= i < h.len(),
    ensures
        i < scan_next(h, i) <= h.len(),
{
    if h[i] == '<' {
        if i + 1 < h.len() && h[i + 1] == '/' {
            lemma_first_gt(h, i + 2);
        } else {
            lemma_name_end(h, i + 1);
            lemma_first_gt(h, name_end(h, i + 1));
        }
    }
}

/// Whether the scan of `h` from `i` stops at offset `c` on its way.
pub open spec fn visits(h: Seq<char>, i: int, c: int) -> bool
    decreases h.len() - i,
{
    if i == c {
        true
    } else if i < 0 || i >= h.len() || i > c {
        false
    } else {
        proof {
            lemma_scan_next(h, i);
        }
        visits(h, scan_next(h, i), c)
    }
}

proof fn lemma_visits_trans(h: Seq<char>, a: int, b: int, c: int)
    requires
        visits(h, a, b),
        visits(h, b, c),
    ensures
        visits(h, a, c),
    decreases h.len() - a,
{
    if a != b {
        lemma_scan_next(h, a);
        lemma_visits_trans(h, scan_next(h, a), b, c);
    }
}

/// Every closing offset of `es` is one the scan of `h` stops at.
pub open spec fn closes_visited(h: Seq<char>, es: Seq<TagV>) -> bool {
    forall|k: int|
        0 <= k < es.len() && (#[trigger] es[k]).close_start is Some ==> visits(h, 0, es[k].close_start->0)
}

proof fn lemma_scan_visits(h: Seq<char>, i: int, es: Seq<TagV>, st: Seq<int>)
    requires
        0 <= i,
        i >= h.len() || visits(h, 0, i),
        closes_visited(h, es),
        forall|j: int| 0 <= j < st.len() ==> 0 <= #[trigger] st[j] < es.len(),
    ensures
        closes_visited(h, scan(h, i, es, st)),
    decreases h.len() - i,
{
    if i < h.len() {
        lemma_scan_next(h, i);
        let n = scan_next(h, i);
        if n < h.len() {
            assert(visits(h, n, n));
            assert(visits(h, i, n));
            lemma_visits_trans(h, 0, i, n);
        }
        if h[i] == '<' {
            if i + 1 < h.len() && h[i + 1] == '/' {
                if st.len() > 0 {
                    let es_c = close_at(es, st.last(), i);
                    assert(closes_visited(h, es_c));
                    lemma_scan_visits(h, n, es_c, st.drop_last());
                } else {
                    lemma_scan_visits(h, n, es, st);
                }
            } else {
                let e = opened_tag(h, i, es, st);
                let st2 = if !self_closing(h, i) && !is_void_name(e.name) {
                    st.push(es.len() as int)
                } else {
                    st
                };
                assert(closes_visited(h, es.push(e)));
                lemma_scan_visits(h, n, es.push(e), st2);
            }
        } else {
            lemma_scan_visits(h, n, es, st);
        }
    }
}

/// The scan of `h` stops at every closing offset of the tag tree.
proof fn lemma_tree_visits(h: Seq<char>)
    ensures
        closes_visited(h, tag_tree(h)),
{
    lemma_scan_visits(h, 0, Seq::empty(), Seq::empty());
}

/// Below the insertion point, the next `>` is where it was.
proof fn lemma_gt_prefix(h: Seq<char>, c: int, s: Seq<char>, j: int)
    requires
        0 <= j <= c <= h.len(),
        first_gt(h, j) < c,
    ensures
        first_gt(insert_seq(h, c, s), j) == first_gt(h, j),
    decreases c - j,
{
    lemma_insert_index(h, c, s);
    lemma_first_gt(h, j);
    assert(insert_seq(h, c, s)[j] == h[j]);
    if h[j] != '>' {
        lemma_gt_prefix(h, c, s, j + 1);
    }
}

/// Every closing offset of `es` is the `<` of a `</` in `h`.
pub open spec fn closes_valid(h: Seq<char>, es: Seq<TagV>) -> bool {
    forall|k: int|
        0 <= k < es.len() && (#[trigger] es[k]).close_start is Some ==> {
            let c = es[k].close_start->0;
            0 <= c && c + 1 < h.len() && h[c] == '<' && h[c + 1] == '/'
        }
}

proof fn lemma_scan_closes(h: Seq<char>, i: int, es: Seq<TagV>, st: Seq<int>)
    requires
        closes_valid(h, es),
        forall|j: int| 0 <= j < st.len() ==> 0 <= #[trigger] st[j] < es.len(),
    ensures
        closes_valid(h, scan(h, i, es, st)),
    decreases h.len() - i,
{
    if 0 <= i < h.len() {
        if h[i] == '<' {
            if i + 1 < h.len() && h[i + 1] == '/' {
                lemma_first_gt(h, i + 2);
                let next = past(h, first_gt(h, i + 2));
                if st.len() > 0 {
                    let es_c = close_at(es, st.last(), i);
                    assert(closes_valid(h, es_c));
                    lemma_scan_closes(h, next, es_c, st.drop_last());
                } else {
                    lemma_scan_closes(h, next, es, st);
                }
            } else {
                lemma_name_end(h, i + 1);
                lemma_first_gt(h, name_end(h, i + 1));
                let e = opened_tag(h, i, es, st);
                let st2 = if !self_closing(h, i) && !is_void_name(e.name) {
                    st.push(es.len() as int)
                } else {
                    st
                };
                assert(closes_valid(h, es.push(e)));
                lemma_scan_closes(h, e.open_end, es.push(e), st2);
            }
        } else {
            lemma_scan_closes(h, i + 1, es, st);
        }
    }
}

/// Every closing offset in the tag tree is the `<` of a closing tag.
pub proof fn lemma_tree_closes(h: Seq<char>)
    ensures
        closes_valid(h, tag_tree(h)),
{
    lemma_scan_closes(h, 0, Seq::empty(), Seq::empty());
}

proof fn lemma_gt_content_after(h: Seq<char>, c: int, s: Seq<char>, j: int)
    requires
        0 <= c <= j <= h.len(),
    ensures
        first_gt(insert_seq(h, c, s), j + s.len()) == first_gt(h, j) + s.len(),
    decreases h.len() - j,
{
    lemma_insert_index(h, c, s);
    if j < h.len() {
        assert(insert_seq(h, c, s)[j + s.len()] == h[j]);
        if h[j] != '>' {
            lemma_gt_content_after(h, c, s, j + 1);
        }
    }
}

proof fn lemma_name_content_before(h: Seq<char>, c: int, s: Seq<char>, j: int)
    requires
        0 <= j <= c <= h.len(),
        name_end(h, j) < c,
    ensures
        name_end(insert_seq(h, c, s), j) == name_end(h, j),
    decreases c - j,
{
    lemma_insert_index(h, c, s);
    lemma_name_end(h, j);
    assert(insert_seq(h, c, s)[j] == h[j]);
    if !ends_name(h[j]) {
        lemma_name_content_before(h, c, s, j + 1);
    }
}

proof fn lemma_name_content_after(h: Seq<char>, c: int, s: Seq<char>, j: int)
    requires
        0 <= c <= j <= h.len(),
    ensures
        name_end(insert_seq(h, c, s), j + s.len()) == name_end(h, j) + s.len(),
    decreases h.len() - j,
{
    lemma_insert_index(h, c, s);
    if j < h.len() {
        assert(insert_seq(h, c, s)[j + s.len()] == h[j]);
        if !ends_name(h[j]) {
            lemma_name_content_after(h, c, s, j + 1);
        }
    }
}

/// The scan of `h` with content injected at `c` passes over the content.
proof fn lemma_skip_content(h: Seq<char>, c: int, s: Seq<char>, es: Seq<TagV>, st: Seq<int>)
    requires
        0 <= c <= h.len(),
        no_lt(s),
    ensures
        scan(insert_seq(h, c, s), c, es, st) == scan(insert_seq(h, c, s), c + s.len(), es, st),
{
    lemma_insert_index(h, c, s);
    let h2 = insert_seq(h, c, s);
    assert forall|j: int| c <= j < c + s.len() implies #[trigger] h2[j] != '<' by {
        assert(h2[c + (j - c)] == s[j - c]);
    }
    lemma_skip(h2, c, c + s.len(), es, st);
}

/// The scan in `h` and the scan from the matching offset in `h` with content
/// injected at the closing tag at `c` find the same tags, offsets moved, as long as
/// the scan from `i` stops at `c` when it starts before it.
proof fn lemma_scan_content(h: Seq<char>, c: int, s: Seq<char>, i: int, es: Seq<TagV>, st: Seq<int>)
    requires
        0 <= c,
        c + 1 < h.len(),
        h[c] == '<',
        h[c + 1] == '/',
        no_lt(s),
        0 <= i,
        i < c ==> visits(h, i, c),
        forall|j: int| 0 <= j < st.len() ==> 0 <= #[trigger] st[j] < es.len(),
    ensures
        scan(insert_seq(h, c, s), shifted(i, c, s.len() as int, true), shift_tags(es, c, s.len() as int, true), st)
            == shift_tags(scan(h, i, es, st), c, s.len() as int, true),
    decreases h.len() - i,
{
    let h2 = insert_seq(h, c, s);
    let d = s.len() as int;
    let es2 = shift_tags(es, c, d, true);
    let i2 = shifted(i, c, d, true);
    lemma_insert_index(h, c, s);
    if i >= h.len() {
        return;
    }
    if i < c {
        assert(h2[i] == h[i]);
        lemma_scan_next(h, i);
        assert(visits(h, scan_next(h, i), c));
    } else {
        assert(h2[i + d] == h[i]);
    }
    if h[i] != '<' {
        if i + 1 == c {
            lemma_skip_content(h, c, s, es2, st);
        }
        lemma_scan_content(h, c, s, i + 1, es, st);
        return;
    }
    if i < c {
        lemma_name_end(h, i + 1);
        lemma_first_gt(h, name_end(h, i + 1));
        if i + 2 <= h.len() {
            lemma_first_gt(h, i + 2);
        }
        assert(i + 1 < c);
        assert(h2[i + 1] == h[i + 1]);
    } else if i + 1 < h.len() {
        assert(h2[i + 1 + d] == h[i + 1]);
    }
    let closing = i + 1 < h.len() && h[i + 1] == '/';
    if closing {
        let g = first_gt(h, i + 2);
        lemma_first_gt(h, i + 2);
        if i < c {
            lemma_gt_prefix(h, c, s, i + 2);
        } else {
            lemma_gt_content_after(h, c, s, i + 2);
        }
        let next = past(h, g);
        if next == c {
            lemma_skip_content(h, c, s, es2, st);
            if st.len() > 0 {
                lemma_skip_content(h, c, s, close_at(es2, st.last(), i2), st.drop_last());
            }
        }
        if st.len() > 0 {
            let k = st.last();
            let es_c = close_at(es, k, i);
            assert(shift_tags(es_c, c, d, true) =~= close_at(es2, k, i2));
            lemma_scan_content(h, c, s, next, es_c, st.drop_last());
        } else {
            lemma_scan_content(h, c, s, next, es, st);
        }
    } else {
        let e = opened_tag(h, i, es, st);
        let ne = name_end(h, i + 1);
        lemma_name_end(h, i + 1);
        lemma_first_gt(h, ne);
        let g = first_gt(h, ne);
        if i < c {
            lemma_name_content_before(h, c, s, i + 1);
            lemma_gt_prefix(h, c, s, ne);
            assert(h2.subrange(i + 1, ne) =~= h.subrange(i + 1, ne));
            if g > ne {
                assert(h2[g - 1] == h[g - 1]);
            }
        } else {
            lemma_name_content_after(h, c, s, i + 1);
            lemma_gt_content_after(h, c, s, ne);
            assert(h2.subrange(i + 1 + d, ne + d) =~= h.subrange(i + 1, ne));
            if g < h.len() && g > ne {
                assert(h2[g - 1 + d] == h[g - 1]);
            }
        }
        lemma_count_shifted(es, e.parent, c, d, true);
        let e2 = opened_tag(h2, i2, es2, st);
        assert(e2 == shift_tag(e, c, d, true));
        assert(self_closing(h2, i2) == self_closing(h, i));
        let st2 = if !self_closing(h, i) && !is_void_name(e.name) {
            st.push(es.len() as int)
        } else {
            st
        };
        let es3 = es2.push(shift_tag(e, c, d, true));
        assert(shift_tags(es.push(e), c, d, true) =~= es3);
        if e.open_end == c {
            lemma_skip_content(h, c, s, es3, st2);
        }
        lemma_scan_content(h, c, s, e.open_end, es.push(e), st2);
    }
}

/// Injecting content that holds no `<` just before the closing tag of a tag
/// that has one keeps the tag tree in step with the HTML: reading the new
/// HTML gives exactly the tags with their offsets moved, as
/// [`close_injected`] moves them; the tag's closing tag now starts right
/// after the content.
pub proof fn lemma_close_injection_reparses(h: Seq<char>, k: int, s: Seq<char>)
    requires
        0 <= k < tag_tree(h).len(),
        tag_tree(h)[k].close_start is Some,
        no_lt(s),
    ensures
        tag_tree(close_injected(h, tag_tree(h), k, s).0) == close_injected(h, tag_tree(h), k, s).1,
        ({
            let c = tag_tree(h)[k].close_start->0;
            let h2 = close_injected(h, tag_tree(h), k, s).0;
            &&& close_injected(h, tag_tree(h), k, s).1[k].close_start == Some(c + s.len())
            &&& h2.subrange(c, c + s.len()) == s
            &&& c + s.len() + 1 < h2.len() && h2[c + s.len()] == '<' && h2[c + s.len() + 1] == '/'
        }),
{
    let c = tag_tree(h)[k].close_start->0;
    lemma_tree_closes(h);
    lemma_tree_visits(h);
    assert(tag_tree(h)[k].close_start is Some);
    lemma_insert_index(h, c, s);
    assert(insert_seq(h, c, s).subrange(c, c + s.len()) =~= s);
    assert(insert_seq(h, c, s)[c + s.len()] == h[c]);
    assert(insert_seq(h, c, s)[(c + 1) + s.len()] == h[c + 1]);
    lemma_scan_content(h, c, s, 0, Seq::empty(), Seq::empty());
    assert(shift_tags(Seq::<TagV>::empty(), c, s.len() as int, true) =~= Seq::<TagV>::empty());
    if c == 0 {
        lemma_skip_content(h, c, s, Seq::empty(), Seq::empty());
    }
}

} // verus!
