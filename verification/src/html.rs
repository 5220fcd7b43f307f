//! A flat tag tree over template HTML, and in-place injection of text into it.
//!
//! The HTML is held as a vector of characters; every offset is a character
//! index. All delimiters the scanner looks at (`<`, `/`, `>`, space) are
//! ASCII, so character offsets mark exactly the places that byte offsets
//! would mark in the UTF-8 text.
use vstd::prelude::*;

use crate::text::{chars_eq, chars_of, string_of};

verus! {

/// One tag of the template: its index in the tree, its name, its parent and
/// where its opening tag and (if any) closing tag stand in the HTML.
#[derive(Debug)]
pub struct TagEntry {
    pub pos: usize,
    pub name: String,
    pub parent: Option<usize>,
    pub child_index: usize,
    pub open_start: usize,
    /// Offset right after the `>` of the opening tag.
    pub open_end: usize,
    /// Offset of the `</` of the closing tag; `None` for void or
    /// self-closing tags.
    pub close_start: Option<usize>,
}

/// The mathematical content of a [`TagEntry`].
pub struct TagV {
    pub pos: int,
    pub name: Seq<char>,
    pub parent: Option<int>,
    pub child_index: int,
    pub open_start: int,
    pub open_end: int,
    pub close_start: Option<int>,
}

pub open spec fn opt_int(o: Option<usize>) -> Option<int> {
    match o {
        Some(v) => Some(v as int),
        None => None,
    }
}

impl TagEntry {
    pub open spec fn view_tag(&self) -> TagV {
        TagV {
            pos: self.pos as int,
            name: self.name@,
            parent: opt_int(self.parent),
            child_index: self.child_index as int,
            open_start: self.open_start as int,
            open_end: self.open_end as int,
            close_start: opt_int(self.close_start),
        }
    }
}

pub open spec fn tags_view(ts: Seq<TagEntry>) -> Seq<TagV> {
    ts.map_values(|t: TagEntry| t.view_tag())
}

/// The names of the HTML void elements.
pub open spec fn is_void_name(name: Seq<char>) -> bool {
    ||| name == "area"@
    ||| name == "base"@
    ||| name == "br"@
    ||| name == "col"@
    ||| name == "embed"@
    ||| name == "hr"@
    ||| name == "img"@
    ||| name == "input"@
    ||| name == "link"@
    ||| name == "meta"@
    ||| name == "param"@
    ||| name == "source"@
    ||| name == "track"@
    ||| name == "wbr"@
}

/// Whether `tag` names an HTML void element (one that never has a closing tag).
pub fn is_void_element(tag: &str) -> (r: bool)
    ensures
        r == is_void_name(tag@),
{
    let t = chars_of(tag);
    chars_eq(&t, &chars_of("area")) || chars_eq(&t, &chars_of("base")) || chars_eq(
        &t,
        &chars_of("br"),
    ) || chars_eq(&t, &chars_of("col")) || chars_eq(&t, &chars_of("embed")) || chars_eq(
        &t,
        &chars_of("hr"),
    ) || chars_eq(&t, &chars_of("img")) || chars_eq(&t, &chars_of("input")) || chars_eq(
        &t,
        &chars_of("link"),
    ) || chars_eq(&t, &chars_of("meta")) || chars_eq(&t, &chars_of("param")) || chars_eq(
        &t,
        &chars_of("source"),
    ) || chars_eq(&t, &chars_of("track")) || chars_eq(&t, &chars_of("wbr"))
}

/// The first offset at or after `j` that holds `>`, or the length of `h`.
pub open spec fn first_gt(h: Seq<char>, j: int) -> int
    decreases h.len() - j,
{
    if j >= h.len() {
        h.len() as int
    } else if h[j] == '>' {
        j
    } else {
        first_gt(h, j + 1)
    }
}

/// Whether `c` ends a tag name.
pub open spec fn ends_name(c: char) -> bool {
    c == ' ' || c == '>' || c == '/'
}

/// The first offset at or after `j` that ends a tag name, or the length of `h`.
pub open spec fn name_end(h: Seq<char>, j: int) -> int
    decreases h.len() - j,
{
    if j >= h.len() {
        h.len() as int
    } else if ends_name(h[j]) {
        j
    } else {
        name_end(h, j + 1)
    }
}

pub proof fn lemma_first_gt(h: Seq<char>, j: int)
    requires
        0 <= j <= h.len(),
    ensures
        j <= first_gt(h, j) <= h.len(),
        first_gt(h, j) < h.len() ==> h[first_gt(h, j)] == '>',
        forall|k: int| j <= k < first_gt(h, j) ==> h[k] != '>',
    decreases h.len() - j,
{
    if j < h.len() && h[j] != '>' {
        lemma_first_gt(h, j + 1);
    }
}

pub proof fn lemma_name_end(h: Seq<char>, j: int)
    requires
        0 <= j <= h.len(),
    ensures
        j <= name_end(h, j) <= h.len(),
        name_end(h, j) < h.len() ==> ends_name(h[name_end(h, j)]),
        forall|k: int| j <= k < name_end(h, j) ==> !ends_name(h[k]),
    decreases h.len() - j,
{
    if j < h.len() && !ends_name(h[j]) {
        lemma_name_end(h, j + 1);
    }
}

/// How many of `es` have parent `p`.
pub open spec fn count_children(es: Seq<TagV>, p: Option<int>) -> int
    decreases es.len(),
{
    if es.len() == 0 {
        0
    } else {
        count_children(es.drop_last(), p) + if es.last().parent == p {
            1int
        } else {
            0int
        }
    }
}

/// The offset just past the tag that ends at `g` (the `>` at `g`, if any).
pub open spec fn past(h: Seq<char>, g: int) -> int {
    if g < h.len() {
        g + 1
    } else {
        g
    }
}

/// `es` with the tag at `k` given a closing tag at `c`.
pub open spec fn close_at(es: Seq<TagV>, k: int, c: int) -> Seq<TagV> {
    es.update(
        k,
        TagV {
            pos: es[k].pos,
            name: es[k].name,
            parent: es[k].parent,
            child_index: es[k].child_index,
            open_start: es[k].open_start,
            open_end: es[k].open_end,
            close_start: Some(c),
        },
    )
}

/// The tag opened at `i`, given the tags before it and the stack of open tags.
pub open spec fn opened_tag(h: Seq<char>, i: int, es: Seq<TagV>, st: Seq<int>) -> TagV {
    let ne = name_end(h, i + 1);
    let parent = if st.len() > 0 {
        Some(st.last())
    } else {
        None
    };
    TagV {
        pos: es.len() as int,
        name: h.subrange(i + 1, ne),
        parent,
        child_index: count_children(es, parent),
        open_start: i,
        open_end: past(h, first_gt(h, ne)),
        close_start: None,
    }
}

/// Whether the tag opened at `i` closes itself (`.../>`).
pub open spec fn self_closing(h: Seq<char>, i: int) -> bool {
    let ne = name_end(h, i + 1);
    let g = first_gt(h, ne);
    g < h.len() && g > ne && h[g - 1] == '/'
}

/// The tag tree scan of `h` from offset `i`, with tags `es` found so far and
/// `st` the positions of the tags still open (innermost last).
///
/// At `<` followed by `/` the innermost open tag gets its closing offset and
/// the scan resumes after the next `>`. At any other `<` a tag opens: its
/// name runs to the first space, `>` or `/`; it ends after the next `>`;
/// unless it is void or self-closing it becomes the innermost open tag.
pub open spec fn scan(h: Seq<char>, i: int, es: Seq<TagV>, st: Seq<int>) -> Seq<TagV>
    decreases h.len() - i,
{
    if i < 0 || i >= h.len() {
        es
    } else if h[i] == '<' {
        if i + 1 < h.len() && h[i + 1] == '/' {
            let next = past(h, first_gt(h, i + 2));
            proof {
                lemma_first_gt(h, i + 2);
            }
            if st.len() > 0 {
                scan(h, next, close_at(es, st.last(), i), st.drop_last())
            } else {
                scan(h, next, es, st)
            }
        } else {
            let e = opened_tag(h, i, es, st);
            proof {
                lemma_name_end(h, i + 1);
                lemma_first_gt(h, name_end(h, i + 1));
            }
            let st2 = if !self_closing(h, i) && !is_void_name(e.name) {
                st.push(es.len() as int)
            } else {
                st
            };
            scan(h, e.open_end, es.push(e), st2)
        }
    } else {
        scan(h, i + 1, es, st)
    }
}

/// The tag tree of `h`.
pub open spec fn tag_tree(h: Seq<char>) -> Seq<TagV> {
    scan(h, 0, Seq::empty(), Seq::empty())
}

/// A tag whose offsets are in order and inside HTML of length `len`.
pub open spec fn tag_wf(e: TagV, len: int) -> bool {
    &&& 0 <= e.open_start < e.open_end <= len
    &&& e.close_start matches Some(c) ==> e.open_end <= c <= len
}

pub open spec fn tags_wf(ts: Seq<TagV>, len: int) -> bool {
    forall|k: int| 0 <= k < ts.len() ==> tag_wf(#[trigger] ts[k], len)
}

/// Each tag's `pos` is its index and its parent comes before it.
pub open spec fn tags_indexed(ts: Seq<TagV>) -> bool {
    forall|k: int|
        0 <= k < ts.len() ==> (#[trigger] ts[k]).pos == k && (ts[k].parent matches Some(p) ==> 0
            <= p < k)
}

/// Counts the tags of `es` whose parent is `p`.
fn count_with_parent(es: &Vec<TagEntry>, p: Option<usize>) -> (r: usize)
    ensures
        r == count_children(tags_view(es@), opt_int(p)),
{
    let mut n: usize = 0;
    let mut k: usize = 0;
    while k < es.len()
        invariant
            k <= es@.len(),
            n <= k,
            n == count_children(tags_view(es@.take(k as int)), opt_int(p)),
        decreases es@.len() - k,
    {
        assert(tags_view(es@.take(k + 1)).drop_last() =~= tags_view(es@.take(k as int)));
        if es[k].parent == p {
            n = n + 1;
        }
        k = k + 1;
    }
    assert(es@.take(es@.len() as int) =~= es@);
    n
}

/// A copy of `e` with its closing tag at `c`.
fn closed(e: &TagEntry, c: usize) -> (r: TagEntry)
    ensures
        r.view_tag() == (TagV { close_start: Some(c as int), ..e.view_tag() }),
        r.open_end == e.open_end,
{
    TagEntry {
        pos: e.pos,
        name: e.name.clone(),
        parent: e.parent,
        child_index: e.child_index,
        open_start: e.open_start,
        open_end: e.open_end,
        close_start: Some(c),
    }
}

/// Every tag of `es` opens at a `<` of `h` that is not followed by `/`, and
/// each tag's opening tag ends before the next tag's begins.
pub open spec fn opens_ordered(h: Seq<char>, es: Seq<TagV>) -> bool {
    &&& forall|k: int|
        0 <= k < es.len() ==> {
            let o = (#[trigger] es[k]).open_start;
            &&& 0 <= o < h.len()
            &&& h[o] == '<'
            &&& !(o + 1 < h.len() && h[o + 1] == '/')
        }
    &&& forall|j: int, k: int| 0 <= j < k < es.len() ==> (#[trigger] es[j]).open_end <= (#[trigger] es[k]).open_start
}

proof fn lemma_scan_opens(h: Seq<char>, i: int, es: Seq<TagV>, st: Seq<int>)
    requires
        0 <= i,
        opens_ordered(h, es),
        forall|k: int| 0 <= k < es.len() ==> (#[trigger] es[k]).open_end <= i,
        forall|j: int| 0 <= j < st.len() ==> 0 <= #[trigger] st[j] < es.len(),
    ensures
        opens_ordered(h, scan(h, i, es, st)),
    decreases h.len() - i,
{
    if i < h.len() {
        if h[i] == '<' {
            if i + 1 < h.len() && h[i + 1] == '/' {
                lemma_first_gt(h, i + 2);
                let next = past(h, first_gt(h, i + 2));
                if st.len() > 0 {
                    let es_c = close_at(es, st.last(), i);
                    assert(forall|k: int| 0 <= k < es.len() ==> #[trigger] es_c[k].open_start == es[k].open_start
                        && es_c[k].open_end == es[k].open_end);
                    lemma_scan_opens(h, next, es_c, st.drop_last());
                } else {
                    lemma_scan_opens(h, next, es, st);
                }
            } else {
                lemma_name_end(h, i + 1);
                lemma_first_gt(h, name_end(h, i + 1));
                let e = opened_tag(h, i, es, st);
                let st2 = if !self_closing(h, i) && !is_void_name(e.name) {
                    st.push(es.len() as int)
                } else {
                    st
                };
                let es2 = es.push(e);
                assert(forall|k: int| 0 <= k < es.len() ==> #[trigger] es2[k] == es[k]);
                assert(es2[es.len() as int] == e);
                lemma_scan_opens(h, e.open_end, es2, st2);
            }
        } else {
            lemma_scan_opens(h, i + 1, es, st);
        }
    }
}

/// Each tag of the tag tree opens at a `<` that is not followed by `/`, and
/// the opening tags come in order without overlapping.
pub proof fn lemma_tree_opens(h: Seq<char>)
    ensures
        opens_ordered(h, tag_tree(h)),
{
    lemma_scan_opens(h, 0, Seq::empty(), Seq::empty());
}

/// Whether tag `e` of `h` can hold children: it is not void and does not
/// close itself.
pub open spec fn holds_children(h: Seq<char>, e: TagV) -> bool {
    !is_void_name(e.name) && !self_closing(h, e.open_start)
}

/// The shape of a tag tree: each tag's parent comes before it and can hold
/// children, each tag's child index counts the earlier tags with the same
/// parent, and a closing tag comes after the opening tag.
pub open spec fn tree_shaped(h: Seq<char>, es: Seq<TagV>) -> bool {
    forall|k: int|
        0 <= k < es.len() ==> {
            &&& ((#[trigger] es[k]).parent matches Some(p) ==> 0 <= p < k && holds_children(h, es[p]))
            &&& es[k].child_index == count_children(es.take(k), es[k].parent)
            &&& (es[k].close_start matches Some(c) ==> es[k].open_end <= c)
        }
}

proof fn lemma_count_same_parents(a: Seq<TagV>, b: Seq<TagV>, p: Option<int>)
    requires
        a.len() == b.len(),
        forall|j: int| 0 <= j < a.len() ==> (#[trigger] a[j]).parent == b[j].parent,
    ensures
        count_children(a, p) == count_children(b, p),
    decreases a.len(),
{
    if a.len() > 0 {
        assert(a.last().parent == b[b.len() - 1].parent);
        lemma_count_same_parents(a.drop_last(), b.drop_last(), p);
    }
}

proof fn lemma_scan_shaped(h: Seq<char>, i: int, es: Seq<TagV>, st: Seq<int>)
    requires
        0 <= i,
        tree_shaped(h, es),
        forall|k: int| 0 <= k < es.len() ==> (#[trigger] es[k]).open_end <= i,
        forall|j: int| 0 <= j < st.len() ==> 0 <= #[trigger] st[j] < es.len() && holds_children(h, es[st[j]]),
    ensures
        tree_shaped(h, scan(h, i, es, st)),
    decreases h.len() - i,
{
    if i < h.len() {
        if h[i] == '<' {
            if i + 1 < h.len() && h[i + 1] == '/' {
                lemma_first_gt(h, i + 2);
                let next = past(h, first_gt(h, i + 2));
                if st.len() > 0 {
                    let es_c = close_at(es, st.last(), i);
                    assert forall|k: int| 0 <= k < es.len() implies #[trigger] es_c[k].parent == es[k].parent
                        && es_c[k].name == es[k].name && es_c[k].open_start == es[k].open_start
                        && es_c[k].open_end == es[k].open_end && es_c[k].child_index == es[k].child_index by {}
                    assert forall|k: int| 0 <= k < es.len() implies count_children(
                        (#[trigger] es_c.take(k)),
                        es[k].parent,
                    ) == count_children(es.take(k), es[k].parent) by {
                        lemma_count_same_parents(es_c.take(k), es.take(k), es[k].parent);
                    }
                    assert(tree_shaped(h, es_c));
                    lemma_scan_shaped(h, next, es_c, st.drop_last());
                } else {
                    lemma_scan_shaped(h, next, es, st);
                }
            } else {
                lemma_name_end(h, i + 1);
                lemma_first_gt(h, name_end(h, i + 1));
                let e = opened_tag(h, i, es, st);
                let st2 = if !self_closing(h, i) && !is_void_name(e.name) {
                    st.push(es.len() as int)
                } else {
                    st
                };
                let es2 = es.push(e);
                assert forall|k: int| 0 <= k < es.len() implies #[trigger] es2[k] == es[k] && es2.take(k) == es.take(k) by {
                    assert(es2.take(k) =~= es.take(k));
                }
                assert(es2.take(es.len() as int) =~= es);
                assert(es2[es.len() as int] == e);
                assert(tree_shaped(h, es2));
                lemma_scan_shaped(h, e.open_end, es2, st2);
            }
        } else {
            lemma_scan_shaped(h, i + 1, es, st);
        }
    }
}

/// The tag tree has the shape of a tree (see [`tree_shaped`]): parents come
/// first and are neither void nor self-closing, child indexes count the
/// earlier siblings, and closing tags follow their opening tags.
pub proof fn lemma_tree_shaped(h: Seq<char>)
    ensures
        tree_shaped(h, tag_tree(h)),
{
    lemma_scan_shaped(h, 0, Seq::empty(), Seq::empty());
}

/// Scans the template HTML into its flat tag tree (see [`tag_tree`]).
pub fn parse_tag_tree(html: &Vec<char>) -> (r: Vec<TagEntry>)
    ensures
        tags_view(r@) == tag_tree(html@),
        tags_wf(tags_view(r@), html@.len() as int),
        tags_indexed(tags_view(r@)),
        opens_ordered(html@, tags_view(r@)),
        tree_shaped(html@, tags_view(r@)),
{
    let ghost h = html@;
    let len: usize = html.len();
    let mut entries: Vec<TagEntry> = Vec::new();
    let mut stack: Vec<usize> = Vec::new();
    let mut i: usize = 0;
    assert(tags_view(entries@) =~= Seq::<TagV>::empty());
    assert(stack@.map_values(|s: usize| s as int) =~= Seq::<int>::empty());
    while i < len
        invariant
            len == h.len(),
            h == html@,
            i <= len,
            scan(h, i as int, tags_view(entries@), stack@.map_values(|s: usize| s as int))
                == tag_tree(h),
            forall|k: int| 0 <= k < stack@.len() ==> #[trigger] stack@[k] < entries@.len(),
            forall|k: int|
                0 <= k < entries@.len() ==> (#[trigger] entries@[k]).open_end <= i,
            tags_wf(tags_view(entries@), len as int),
            tags_indexed(tags_view(entries@)),
        decreases len - i,
    {
        let ghost es0 = tags_view(entries@);
        let ghost st0 = stack@.map_values(|s: usize| s as int);
        if html[i] == '<' {
            if i + 1 < len && html[i + 1] == '/' {
                let start: usize = i;
                proof {
                    lemma_first_gt(h, i + 2);
                }
                i = i + 2;
                while i < len && html[i] != '>'
                    invariant
                        len == h.len(),
                        h == html@,
                        start + 2 <= i <= len,
                        first_gt(h, i as int) == first_gt(h, start + 2),
                    decreases len - i,
                {
                    i = i + 1;
                }
                if i < len {
                    i = i + 1;
                }
                assert(i == past(h, first_gt(h, start + 2)));
                if stack.len() > 0 {
                    let top: usize = stack.pop().unwrap();
                    let e = closed(&entries[top], start);
                    entries.set(top, e);
                    proof {
                        assert(stack@.map_values(|s: usize| s as int) =~= st0.drop_last());
                        assert(tags_view(entries@) =~= close_at(es0, top as int, start as int));
                    }
                } else {
                    assert(stack@.map_values(|s: usize| s as int) =~= st0);
                }
            } else {
                let open_start: usize = i;
                i = i + 1;
                let name_start: usize = i;
                proof {
                    lemma_name_end(h, name_start as int);
                }
                while i < len && html[i] != ' ' && html[i] != '>' && html[i] != '/'
                    invariant
                        len == h.len(),
                        h == html@,
                        name_start <= i <= len,
                        name_end(h, i as int) == name_end(h, name_start as int),
                    decreases len - i,
                {
                    i = i + 1;
                }
                let ne: usize = i;
                let tag_name = string_of(&slice_range(html, name_start, ne));
                proof {
                    lemma_first_gt(h, ne as int);
                }
                let mut sc = false;
                while i < len && html[i] != '>'
                    invariant
                        len == h.len(),
                        h == html@,
                        ne <= i <= len,
                        first_gt(h, i as int) == first_gt(h, ne as int),
                        sc ==> (i > ne && i < len && h[i as int] == '>' && h[i - 1] == '/'),
                        !sc ==> !(i > ne && i < len && h[i as int] == '>' && h[i - 1] == '/'),
                    decreases len - i,
                {
                    if html[i] == '/' && i + 1 < len && html[i + 1] == '>' {
                        sc = true;
                    }
                    i = i + 1;
                }
                assert(sc == self_closing(h, open_start as int));
                if i < len {
                    i = i + 1;
                }
                let open_end: usize = i;
                let parent = if stack.len() > 0 {
                    Some(stack[stack.len() - 1])
                } else {
                    None
                };
                let child_index: usize = count_with_parent(&entries, parent);
                let pos: usize = entries.len();
                let void = is_void_element(tag_name.as_str());
                entries.push(
                    TagEntry {
                        pos,
                        name: tag_name,
                        parent,
                        child_index,
                        open_start,
                        open_end,
                        close_start: None,
                    },
                );
                proof {
                    assert(opt_int(parent) == (if st0.len() > 0 {
                        Some(st0.last())
                    } else {
                        None::<int>
                    }));
                    assert(tags_view(entries@) =~= es0.push(opened_tag(h, open_start as int, es0, st0)));
                }
                if !sc && !void {
                    stack.push(pos);
                    assert(stack@.map_values(|s: usize| s as int) =~= st0.push(pos as int));
                } else {
                    assert(stack@.map_values(|s: usize| s as int) =~= st0);
                }
            }
        } else {
            i = i + 1;
        }
    }
    proof {
        lemma_tree_opens(h);
        lemma_tree_shaped(h);
    }
    entries
}

/// `h` with `s` inserted at offset `at`.
pub open spec fn insert_seq(h: Seq<char>, at: int, s: Seq<char>) -> Seq<char> {
    h.take(at) + s + h.skip(at)
}

/// An offset after inserting `d` characters at `at`: offsets past `at` move,
/// and so does `at` itself when `inclusive`.
pub open spec fn shifted(x: int, at: int, d: int, inclusive: bool) -> int {
    if x > at || (inclusive && x == at) {
        x + d
    } else {
        x
    }
}

/// A tag's offsets after inserting `d` characters at `at`; the closing offset
/// moves when it equals `at` only if `close_inclusive`.
pub open spec fn shift_tag(e: TagV, at: int, d: int, close_inclusive: bool) -> TagV {
    TagV {
        open_start: shifted(e.open_start, at, d, false),
        open_end: shifted(e.open_end, at, d, false),
        close_start: match e.close_start {
            Some(c) => Some(shifted(c, at, d, close_inclusive)),
            None => None,
        },
        ..e
    }
}

pub open spec fn shift_tags(ts: Seq<TagV>, at: int, d: int, close_inclusive: bool) -> Seq<TagV> {
    ts.map_values(|e: TagV| shift_tag(e, at, d, close_inclusive))
}

/// The HTML and tags after injecting `attr` just before the `>` of the
/// opening tag of tag `k`; nothing changes when there is no tag `k`.
pub open spec fn attr_injected(h: Seq<char>, ts: Seq<TagV>, k: int, attr: Seq<char>) -> (
    Seq<char>,
    Seq<TagV>,
) {
    if 0 <= k < ts.len() {
        let at = ts[k].open_end - 1;
        (insert_seq(h, at, attr), shift_tags(ts, at, attr.len() as int, false))
    } else {
        (h, ts)
    }
}

/// The HTML and tags after injecting `content` just before the closing tag of
/// tag `k` (right after its opening tag when it has none); nothing changes
/// when there is no tag `k`.
pub open spec fn close_injected(h: Seq<char>, ts: Seq<TagV>, k: int, content: Seq<char>) -> (
    Seq<char>,
    Seq<TagV>,
) {
    if 0 <= k < ts.len() {
        let at = match ts[k].close_start {
            Some(c) => c,
            None => ts[k].open_end,
        };
        (insert_seq(h, at, content), shift_tags(ts, at, content.len() as int, true))
    } else {
        (h, ts)
    }
}

/// Two tags that differ at most in their offsets: the same position, name,
/// parent and child index, and both with or both without a closing tag.
pub open spec fn same_structure(a: TagV, b: TagV) -> bool {
    &&& a.pos == b.pos
    &&& a.name == b.name
    &&& a.parent == b.parent
    &&& a.child_index == b.child_index
    &&& (a.close_start is Some) == (b.close_start is Some)
}

/// Injecting text into the HTML only moves offsets: every tag keeps its
/// position, name, parent and child index, and its closing tag or lack of
/// one; and no offset moves backwards.
pub proof fn lemma_injection_keeps_structure(h: Seq<char>, ts: Seq<TagV>, k: int, s: Seq<char>)
    ensures
        attr_injected(h, ts, k, s).1.len() == ts.len(),
        close_injected(h, ts, k, s).1.len() == ts.len(),
        forall|j: int|
            0 <= j < ts.len() ==> same_structure(#[trigger] attr_injected(h, ts, k, s).1[j], ts[j])
                && attr_injected(h, ts, k, s).1[j].open_start >= ts[j].open_start
                && attr_injected(h, ts, k, s).1[j].open_end >= ts[j].open_end,
        forall|j: int|
            0 <= j < ts.len() ==> same_structure(#[trigger] close_injected(h, ts, k, s).1[j], ts[j])
                && close_injected(h, ts, k, s).1[j].open_start >= ts[j].open_start
                && close_injected(h, ts, k, s).1[j].open_end >= ts[j].open_end,
{
}

/// `h` with `s` inserted at `at`.
fn insert_chars(h: &Vec<char>, at: usize, s: &Vec<char>) -> (r: Vec<char>)
    requires
        at <= h@.len(),
    ensures
        r@ == insert_seq(h@, at as int, s@),
{
    let mut r: Vec<char> = Vec::new();
    let mut k: usize = 0;
    while k < at
        invariant
            k <= at <= h@.len(),
            r@ == h@.take(k as int),
        decreases at - k,
    {
        r.push(h[k]);
        k = k + 1;
        assert(r@ =~= h@.take(k as int));
    }
    let mut j: usize = 0;
    while j < s.len()
        invariant
            j <= s@.len(),
            r@ == h@.take(at as int) + s@.take(j as int),
        decreases s@.len() - j,
    {
        r.push(s[j]);
        j = j + 1;
        assert(r@ =~= h@.take(at as int) + s@.take(j as int));
    }
    let mut k: usize = at;
    while k < h.len()
        invariant
            at <= k <= h@.len(),
            r@ == h@.take(at as int) + s@ + h@.subrange(at as int, k as int),
        decreases h@.len() - k,
    {
        r.push(h[k]);
        k = k + 1;
        assert(r@ =~= h@.take(at as int) + s@ + h@.subrange(at as int, k as int));
    }
    assert(s@.take(s@.len() as int) =~= s@);
    assert(h@.subrange(at as int, h@.len() as int) =~= h@.skip(at as int));
    r
}

/// `x` moved by `d` when past `at` (or at `at`, when `inclusive`).
fn shift_offset(x: usize, at: usize, d: usize, inclusive: bool) -> (r: usize)
    requires
        (x > at || (inclusive && x == at)) ==> x + d <= usize::MAX,
    ensures
        r == shifted(x as int, at as int, d as int, inclusive),
{
    if x > at || (inclusive && x == at) {
        x + d
    } else {
        x
    }
}

/// An offset that an insertion moves either lies within the HTML of length
/// `len` or still fits a `usize` once moved.
pub open spec fn move_fits(x: int, at: int, d: int, inclusive: bool, len: int) -> bool {
    (x > at || (inclusive && x == at)) ==> (x <= len || x + d <= usize::MAX)
}

/// Every offset of `ts` that an insertion of `d` characters at `at` moves
/// fits (see [`move_fits`]).
pub open spec fn shift_fits(ts: Seq<TagV>, at: int, d: int, close_inclusive: bool, len: int) -> bool {
    forall|k: int|
        0 <= k < ts.len() ==> {
            &&& move_fits((#[trigger] ts[k]).open_start, at, d, false, len)
            &&& move_fits(ts[k].open_end, at, d, false, len)
            &&& (ts[k].close_start matches Some(c) ==> move_fits(c, at, d, close_inclusive, len))
        }
}

/// Moves the offsets of every tag for an insertion of `d` characters at `at`.
fn shift_all(tags: &mut Vec<TagEntry>, at: usize, d: usize, close_inclusive: bool, len: usize)
    requires
        shift_fits(tags_view(old(tags)@), at as int, d as int, close_inclusive, len - d),
        d <= len,
    ensures
        tags_view(final(tags)@) == shift_tags(tags_view(old(tags)@), at as int, d as int, close_inclusive),
        final(tags)@.len() == old(tags)@.len(),
{
    let ghost ts0 = tags_view(tags@);
    let mut k: usize = 0;
    assert(forall|j: int| 0 <= j < tags@.len() ==> (#[trigger] tags@[j]).view_tag() == ts0[j]);
    while k < tags.len()
        invariant
            k <= tags@.len(),
            tags@.len() == ts0.len(),
            d <= len,
            shift_fits(ts0, at as int, d as int, close_inclusive, len - d),
            forall|j: int|
                0 <= j < k ==> (#[trigger] tags@[j]).view_tag() == shift_tag(
                    ts0[j],
                    at as int,
                    d as int,
                    close_inclusive,
                ),
            forall|j: int| k <= j < tags@.len() ==> (#[trigger] tags@[j]).view_tag() == ts0[j],
        decreases ts0.len() - k,
    {
        assert(ts0[k as int] == tags@[k as int].view_tag());
        let e = &tags[k];
        let close = match e.close_start {
            Some(c) => Some(shift_offset(c, at, d, close_inclusive)),
            None => None,
        };
        let moved = TagEntry {
            pos: e.pos,
            name: e.name.clone(),
            parent: e.parent,
            child_index: e.child_index,
            open_start: shift_offset(e.open_start, at, d, false),
            open_end: shift_offset(e.open_end, at, d, false),
            close_start: close,
        };
        tags.set(k, moved);
        k = k + 1;
    }
    assert(tags_view(tags@) =~= shift_tags(ts0, at as int, d as int, close_inclusive));
}

/// Moving offsets keeps each tag's position and parent.
pub proof fn lemma_shift_indexed(ts: Seq<TagV>, at: int, d: int, incl: bool)
    ensures
        tags_indexed(ts) ==> tags_indexed(shift_tags(ts, at, d, incl)),
{
}

/// Moving offsets for an insertion inside the HTML keeps the tags within
/// the longer HTML.
pub proof fn lemma_shift_wf(ts: Seq<TagV>, len: int, at: int, d: int, incl: bool)
    requires
        tags_wf(ts, len),
        0 <= at <= len,
        0 <= d,
    ensures
        tags_wf(shift_tags(ts, at, d, incl), len + d),
        tags_indexed(ts) ==> tags_indexed(shift_tags(ts, at, d, incl)),
{
}

/// Well-formed tags lie within the HTML, so every insertion point of
/// theirs is in range and no moved offset overflows.
pub proof fn lemma_wf_fits(ts: Seq<TagV>, len: int, incl: bool)
    requires
        tags_wf(ts, len),
    ensures
        forall|at: int, d: int| #[trigger] shift_fits(ts, at, d, incl, len),
        forall|k: int| 0 <= k < ts.len() ==> tag_wf(#[trigger] ts[k], len),
{
}

/// Injects `attr` just before the `>` of the opening tag of tag `tag_pos`,
/// moving the offsets of the tags after it (see [`attr_injected`]).
pub fn inject_attr(html: &mut Vec<char>, tags: &mut Vec<TagEntry>, tag_pos: usize, attr: &Vec<char>)
    requires
        tag_pos < old(tags)@.len() ==> {
            let e = tags_view(old(tags)@)[tag_pos as int];
            &&& 1 <= e.open_end <= old(html)@.len() + 1
            &&& shift_fits(
                tags_view(old(tags)@),
                e.open_end - 1,
                attr@.len() as int,
                false,
                old(html)@.len() as int,
            )
        },
    ensures
        (final(html)@, tags_view(final(tags)@)) == attr_injected(
            old(html)@,
            tags_view(old(tags)@),
            tag_pos as int,
            attr@,
        ),
        tags_wf(tags_view(old(tags)@), old(html)@.len() as int) ==> tags_wf(
            tags_view(final(tags)@),
            final(html)@.len() as int,
        ),
        tags_indexed(tags_view(old(tags)@)) ==> tags_indexed(tags_view(final(tags)@)),
{
    if tag_pos < tags.len() {
        assert(tags_view(tags@)[tag_pos as int] == tags@[tag_pos as int].view_tag());
        let insert_at: usize = tags[tag_pos].open_end - 1;
        let new_html = insert_chars(html, insert_at, attr);
        let len: usize = new_html.len();
        proof {
            if tags_wf(tags_view(tags@), html@.len() as int) {
                lemma_shift_wf(tags_view(tags@), html@.len() as int, insert_at as int, attr@.len() as int, false);
            }
            lemma_shift_indexed(tags_view(tags@), insert_at as int, attr@.len() as int, false);
        }
        shift_all(tags, insert_at, attr.len(), false, len);
        *html = new_html;
    }
}

/// Injects `content` just before the closing tag of tag `tag_pos` (right after
/// its opening tag when it has none), moving the offsets of the tags after it
/// (see [`close_injected`]).
pub fn inject_before_close(
    html: &mut Vec<char>,
    tags: &mut Vec<TagEntry>,
    tag_pos: usize,
    content: &Vec<char>,
)
    requires
        tag_pos < old(tags)@.len() ==> {
            let e = tags_view(old(tags)@)[tag_pos as int];
            let at: int = match e.close_start {
                Some(c) => c,
                None => e.open_end,
            };
            &&& at <= old(html)@.len()
            &&& shift_fits(tags_view(old(tags)@), at, content@.len() as int, true, old(html)@.len() as int)
        },
    ensures
        (final(html)@, tags_view(final(tags)@)) == close_injected(
            old(html)@,
            tags_view(old(tags)@),
            tag_pos as int,
            content@,
        ),
        tags_wf(tags_view(old(tags)@), old(html)@.len() as int) ==> tags_wf(
            tags_view(final(tags)@),
            final(html)@.len() as int,
        ),
        tags_indexed(tags_view(old(tags)@)) ==> tags_indexed(tags_view(final(tags)@)),
{
    if tag_pos < tags.len() {
        assert(tags_view(tags@)[tag_pos as int] == tags@[tag_pos as int].view_tag());
        let insert_at: usize = match tags[tag_pos].close_start {
            Some(c) => c,
            None => tags[tag_pos].open_end,
        };
        let new_html = insert_chars(html, insert_at, content);
        let len: usize = new_html.len();
        proof {
            if tags_wf(tags_view(tags@), html@.len() as int) {
                lemma_shift_wf(tags_view(tags@), html@.len() as int, insert_at as int, content@.len() as int, true);
            }
            lemma_shift_indexed(tags_view(tags@), insert_at as int, content@.len() as int, true);
        }
        shift_all(tags, insert_at, content.len(), true, len);
        *html = new_html;
    }
}

/// The characters of `v` from `a` up to `b`.
pub fn slice_range(v: &Vec<char>, a: usize, b: usize) -> (r: Vec<char>)
    requires
        a <= b <= v@.len(),
    ensures
        r@ == v@.subrange(a as int, b as int),
{
    let mut r: Vec<char> = Vec::new();
    let mut k: usize = a;
    while k < b
        invariant
            a <= k <= b <= v@.len(),
            r@ == v@.subrange(a as int, k as int),
        decreases b - k,
    {
        r.push(v[k]);
        k = k + 1;
        assert(r@ =~= v@.subrange(a as int, k as int));
    }
    r
}

} // verus!
