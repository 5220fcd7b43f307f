//! Splitting a block into static HTML pieces and the dynamic slots between them.
//!
//! The template HTML of a block gets `phx-` event attributes, markers where
//! attribute values, text and structure are bound, and is then split on the
//! markers. The slots describe, in order, what is bound where.
use vstd::prelude::*;

use crate::elements::{build_elem_to_tag, elem_map, maps_to_tags};
use crate::encode::{
    dict, dict_v, encode_exprs, encode_props, encode_simple_expr, encode_opt_expr,
    component_kind_atom, expr_v, exprs_v, has_atom, kind_atom, lemma_dict_entry, maps_key, no_repeat,
    opt_expr_v, props_v,
};
use crate::html::{
    attr_injected, close_injected, inject_attr, inject_before_close, lemma_wf_fits, parse_tag_tree, slice_range,
    tag_tree, tag_wf, tags_indexed, tags_view, tags_wf, TagEntry, TagV,
};
use crate::ir::{Block, Component, DirectiveExp, Effect, Expr, ForNode, IfNode, Negative, Operation, VaporRoot};
use crate::markers::{
    interleave, is_marker, lemma_marker_free, lemma_segments_rejoin, markers_in, occurs_at, segments,
    split_chars, PROP_MARKER, STRUCT_MARKER, TEXT_MARKER,
};
use crate::term::{list, push_term, string_list, string_term, strs_v, views, Atom, Term, TermV};
use crate::text::{append_chars, append_str, chars_eq, chars_of};

use std::collections::HashMap;

verus! {

broadcast use vstd::std_specs::hash::group_hash_axioms;

/// The HTML and tag tree as a block is being marked.
pub type MarkState = (Seq<char>, Seq<TagV>);

/// The template an element id stands for, looked up in the id-to-template
/// pairs (first match).
pub open spec fn etm_lookup(m: Seq<(usize, usize)>, k: usize) -> Option<usize>
    decreases m.len(),
{
    if m.len() == 0 {
        None
    } else if m[0].0 == k {
        Some(m[0].1)
    } else {
        etm_lookup(m.drop_first(), k)
    }
}

/// The template HTML of element `e`: the template its id maps to, or the
/// template at its own id; empty when there is no such template.
pub open spec fn template_of(root: VaporRoot, e: usize) -> Seq<char> {
    let idx = match etm_lookup(root.element_template_map@, e) {
        Some(t) => t,
        None => e,
    };
    if idx < root.templates@.len() {
        root.templates@[idx as int]@
    } else {
        Seq::empty()
    }
}

/// The templates of the root elements, concatenated.
pub open spec fn template_html(rs: Seq<usize>, root: VaporRoot) -> Seq<char>
    decreases rs.len(),
{
    if rs.len() == 0 {
        Seq::empty()
    } else {
        template_html(rs.drop_last(), root) + template_of(root, rs.last())
    }
}

/// ` phx-<event>="<handler>"`; the handler defaults to the event name.
pub open spec fn event_attr(key: Expr, value: Option<Expr>) -> Seq<char> {
    let handler = match value {
        Some(v) => v.content@,
        None => key.content@,
    };
    " phx-"@ + key.content@ + "=\""@ + handler + "\""@
}

pub open spec fn event_step(st: MarkState, op: Operation, em: Map<usize, usize>) -> MarkState {
    match op {
        Operation::SetEvent { element, key, value, .. } => if em.contains_key(element) {
            attr_injected(st.0, st.1, em[element] as int, event_attr(key, value))
        } else {
            st
        },
        _ => st,
    }
}

pub open spec fn events_fold(ops: Seq<Operation>, st: MarkState, em: Map<usize, usize>) -> MarkState
    decreases ops.len(),
{
    if ops.len() == 0 {
        st
    } else {
        event_step(events_fold(ops.drop_last(), st, em), ops.last(), em)
    }
}

/// The element an effect operation targets.
pub open spec fn op_element(op: Operation) -> usize {
    match op {
        Operation::SetProp { element, .. } => element,
        Operation::SetText { element, .. } => element,
        Operation::SetHtml { element, .. } => element,
        _ => 0,
    }
}

/// The operations of the effects, in order.
pub open spec fn effect_ops(effs: Seq<Effect>) -> Seq<Operation>
    decreases effs.len(),
{
    if effs.len() == 0 {
        Seq::empty()
    } else {
        effect_ops(effs.drop_last()) + effs.last().operations@
    }
}

pub open spec fn props_of(ops: Seq<Operation>) -> Seq<Operation>
    decreases ops.len(),
{
    if ops.len() == 0 {
        Seq::empty()
    } else if ops.last() is SetProp {
        props_of(ops.drop_last()).push(ops.last())
    } else {
        props_of(ops.drop_last())
    }
}

pub open spec fn texts_of(ops: Seq<Operation>) -> Seq<Operation>
    decreases ops.len(),
{
    if ops.len() == 0 {
        Seq::empty()
    } else if ops.last() is SetText {
        texts_of(ops.drop_last()).push(ops.last())
    } else {
        texts_of(ops.drop_last())
    }
}

pub open spec fn htmls_of(ops: Seq<Operation>) -> Seq<Operation>
    decreases ops.len(),
{
    if ops.len() == 0 {
        Seq::empty()
    } else if ops.last() is SetHtml {
        htmls_of(ops.drop_last()).push(ops.last())
    } else {
        htmls_of(ops.drop_last())
    }
}

/// The first index of `s` whose element is greater than `key`.
pub open spec fn first_after(s: Seq<Operation>, key: usize) -> int
    decreases s.len(),
{
    if s.len() == 0 {
        0
    } else if op_element(s[0]) > key {
        0
    } else {
        1 + first_after(s.drop_first(), key)
    }
}

/// `s` ordered by element, keeping the order of operations on equal elements.
pub open spec fn sorted_by_element(s: Seq<Operation>) -> Seq<Operation>
    decreases s.len(),
{
    if s.len() == 0 {
        Seq::empty()
    } else {
        let t = sorted_by_element(s.drop_last());
        t.insert(first_after(t, op_element(s.last())), s.last())
    }
}

/// ` <key>="<prop marker>"`.
pub open spec fn prop_attr(key: Expr) -> Seq<char> {
    " "@ + key.content@ + "=\""@ + PROP_MARKER@ + "\""@
}

pub open spec fn prop_step(st: MarkState, op: Operation, em: Map<usize, usize>) -> MarkState {
    match op {
        Operation::SetProp { element, prop, .. } => if em.contains_key(element) {
            attr_injected(st.0, st.1, em[element] as int, prop_attr(prop.key))
        } else {
            st
        },
        _ => st,
    }
}

pub open spec fn props_fold(ops: Seq<Operation>, st: MarkState, em: Map<usize, usize>) -> MarkState
    decreases ops.len(),
{
    if ops.len() == 0 {
        st
    } else {
        prop_step(props_fold(ops.drop_last(), st, em), ops.last(), em)
    }
}

/// ` style="<prop marker>"`, bound by `v-show`.
pub open spec fn show_attr() -> Seq<char> {
    " style=\""@ + PROP_MARKER@ + "\""@
}

/// ` value="<prop marker>"`, bound by `v-model`.
pub open spec fn model_attr() -> Seq<char> {
    " value=\""@ + PROP_MARKER@ + "\""@
}

/// ` phx-change="<name>_changed"`, the change handler of a `v-model`.
pub open spec fn change_attr(e: Expr) -> Seq<char> {
    " phx-change=\""@ + e.content@ + "_changed\""@
}

pub open spec fn dir_step(st: MarkState, op: Operation, em: Map<usize, usize>) -> MarkState {
    match op {
        Operation::Directive { element, name, exp, .. } => if em.contains_key(element) {
            let k = em[element] as int;
            if name@ == "vShow"@ {
                attr_injected(st.0, st.1, k, show_attr())
            } else if name@ == "model"@ {
                let st1 = attr_injected(st.0, st.1, k, model_attr());
                match exp {
                    Some(DirectiveExp::Simple(e)) => attr_injected(st1.0, st1.1, k, change_attr(e)),
                    _ => st1,
                }
            } else {
                st
            }
        } else {
            st
        },
        _ => st,
    }
}

pub open spec fn dirs_fold(ops: Seq<Operation>, st: MarkState, em: Map<usize, usize>) -> MarkState
    decreases ops.len(),
{
    if ops.len() == 0 {
        st
    } else {
        dir_step(dirs_fold(ops.drop_last(), st, em), ops.last(), em)
    }
}

/// The first space at or after `j` and before `e`, or `e`.
pub open spec fn first_space(h: Seq<char>, j: int, e: int) -> int
    decreases e - j,
{
    if j >= e {
        e
    } else if h[j] == ' ' {
        j
    } else {
        first_space(h, j + 1, e)
    }
}

/// The first space in the content of tag `k` replaced by the text marker,
/// and the tag tree read again; nothing changes without such a space.
pub open spec fn text_marked(st: MarkState, k: int) -> MarkState {
    let h = st.0;
    let ts = st.1;
    if 0 <= k < ts.len() {
        let s = ts[k].open_end;
        let e = match ts[k].close_start {
            Some(c) => c,
            None => s,
        };
        let f = first_space(h, s, e);
        if f < e {
            let h2 = h.take(f) + TEXT_MARKER@ + h.skip(f + 1);
            (h2, tag_tree(h2))
        } else {
            st
        }
    } else {
        st
    }
}

pub open spec fn mark_step(st: MarkState, op: Operation, em: Map<usize, usize>) -> MarkState {
    if em.contains_key(op_element(op)) {
        text_marked(st, em[op_element(op)] as int)
    } else {
        st
    }
}

pub open spec fn marks_fold(ops: Seq<Operation>, st: MarkState, em: Map<usize, usize>) -> MarkState
    decreases ops.len(),
{
    if ops.len() == 0 {
        st
    } else {
        mark_step(marks_fold(ops.drop_last(), st, em), ops.last(), em)
    }
}

/// Where a structural operation goes: `Some(parent)` for `v-if`, `v-for` and
/// components, `None` for any other operation.
pub open spec fn struct_parent(op: Operation) -> Option<Option<usize>> {
    match op {
        Operation::If(n) => Some(n.parent),
        Operation::For(n) => Some(n.parent),
        Operation::CreateComponent(c) => Some(c.parent),
        _ => None,
    }
}

/// A structure marker before the closing tag of the parent, or at the end of
/// the HTML when there is no parent.
pub open spec fn struct_place(st: MarkState, parent: Option<usize>, em: Map<usize, usize>) -> MarkState {
    match parent {
        Some(pid) => if em.contains_key(pid) {
            close_injected(st.0, st.1, em[pid] as int, STRUCT_MARKER@)
        } else {
            st
        },
        None => (st.0 + STRUCT_MARKER@, st.1),
    }
}

pub open spec fn struct_step(st: MarkState, op: Operation, em: Map<usize, usize>) -> MarkState {
    match struct_parent(op) {
        Some(parent) => struct_place(st, parent, em),
        None => st,
    }
}

pub open spec fn structs_fold(ops: Seq<Operation>, st: MarkState, em: Map<usize, usize>) -> MarkState
    decreases ops.len(),
{
    if ops.len() == 0 {
        st
    } else {
        struct_step(structs_fold(ops.drop_last(), st, em), ops.last(), em)
    }
}

/// The element map of a block.
pub open spec fn block_elem_map(b: Block, root: VaporRoot) -> Map<usize, usize> {
    elem_map(b.returns@, b.operation@, tag_tree(template_html(b.returns@, root)))
}

/// The HTML of a block once every marker and attribute is in place.
pub open spec fn marked_html(b: Block, root: VaporRoot) -> Seq<char> {
    let h0 = template_html(b.returns@, root);
    let em = block_elem_map(b, root);
    let st1 = events_fold(b.operation@, (h0, tag_tree(h0)), em);
    let effects = effect_ops(b.effect@);
    let st2 = props_fold(sorted_by_element(props_of(effects)), st1, em);
    let st3 = dirs_fold(b.operation@, st2, em);
    let st4 = marks_fold(texts_of(effects), (st3.0, tag_tree(st3.0)), em);
    let st5 = marks_fold(htmls_of(effects), st4, em);
    structs_fold(b.operation@, st5, em).0
}

/// The static pieces of a block.
pub open spec fn split_statics(b: Block, root: VaporRoot) -> Seq<Seq<char>> {
    segments(marked_html(b, root))
}

/// `%{kind, values}`.
pub open spec fn values_slot_v(kind: Atom, values: Seq<Expr>) -> TermV {
    dict_v(seq![Atom::Kind, Atom::Values], seq![TermV::Atom(kind), TermV::List(exprs_v(values))])
}

/// `%{kind, value}`.
pub open spec fn value_slot_v(kind: Atom, e: Expr) -> TermV {
    dict_v(seq![Atom::Kind, Atom::Value], seq![TermV::Atom(kind), expr_v(e)])
}

/// A `:set_prop` slot for each property whose element has a tag.
pub open spec fn prop_slots(ops: Seq<Operation>, em: Map<usize, usize>) -> Seq<TermV>
    decreases ops.len(),
{
    if ops.len() == 0 {
        Seq::empty()
    } else {
        let r = prop_slots(ops.drop_last(), em);
        match ops.last() {
            Operation::SetProp { element, prop, .. } => if em.contains_key(element) {
                r.push(values_slot_v(Atom::SetProp, prop.values@))
            } else {
                r
            },
            _ => r,
        }
    }
}

/// A `:v_show` or `:v_model` slot for each such directive with a simple
/// expression whose element has a tag.
pub open spec fn dir_slots(ops: Seq<Operation>, em: Map<usize, usize>) -> Seq<TermV>
    decreases ops.len(),
{
    if ops.len() == 0 {
        Seq::empty()
    } else {
        let r = dir_slots(ops.drop_last(), em);
        match ops.last() {
            Operation::Directive { element, name, exp, .. } => if em.contains_key(element) {
                match exp {
                    Some(DirectiveExp::Simple(e)) => if name@ == "vShow"@ {
                        r.push(value_slot_v(Atom::VShow, e))
                    } else if name@ == "model"@ {
                        r.push(value_slot_v(Atom::VModel, e))
                    } else {
                        r
                    },
                    _ => r,
                }
            } else {
                r
            },
            _ => r,
        }
    }
}

/// A `:set_text` slot for each text effect and a `:set_html` slot for each
/// HTML effect.
pub open spec fn marked_slots(ops: Seq<Operation>) -> Seq<TermV>
    decreases ops.len(),
{
    if ops.len() == 0 {
        Seq::empty()
    } else {
        let r = marked_slots(ops.drop_last());
        match ops.last() {
            Operation::SetText { values, .. } => r.push(values_slot_v(Atom::SetText, values@)),
            Operation::SetHtml { value, .. } => r.push(value_slot_v(Atom::SetHtml, value)),
            _ => r,
        }
    }
}

/// The slots of a block that hold no nested block.
pub open spec fn flat_slots(b: Block, root: VaporRoot) -> Seq<TermV> {
    let em = block_elem_map(b, root);
    let effects = effect_ops(b.effect@);
    prop_slots(sorted_by_element(props_of(effects)), em) + dir_slots(b.operation@, em)
        + marked_slots(texts_of(effects)) + marked_slots(htmls_of(effects))
}

/// A component slot: `%{kind, tag, props, value}` with the component kind as value.
pub open spec fn slot_component_v(c: Component) -> TermV {
    dict_v(
        seq![Atom::Kind, Atom::Tag, Atom::Props, Atom::Value],
        seq![
            TermV::Atom(Atom::CreateComponent),
            TermV::Str(c.tag@),
            TermV::List(props_v(c.props@)),
            TermV::Atom(kind_atom(c.kind)),
        ],
    )
}

/// A slot for each structural operation, in order; `v-if` and `v-for` carry
/// their blocks split in turn.
pub open spec fn struct_slots(ops: Seq<Operation>, root: VaporRoot) -> Seq<TermV>
    decreases ops,
{
    if ops.len() == 0 {
        Seq::empty()
    } else {
        let r = struct_slots(ops.drop_last(), root);
        match ops.last() {
            Operation::If(n) => r.push(slot_if_v(*n, root)),
            Operation::For(n) => r.push(slot_for_v(*n, root)),
            Operation::CreateComponent(c) => r.push(slot_component_v(c)),
            _ => r,
        }
    }
}

/// A split block: `%{statics, slots}`.
pub open spec fn split_block_v(b: Block, root: VaporRoot) -> TermV
    decreases b,
{
    dict_v(
        seq![Atom::Statics, Atom::Slots],
        seq![
            TermV::List(split_statics(b, root).map_values(|s: Seq<char>| TermV::Str(s))),
            TermV::List(flat_slots(b, root) + struct_slots(b.operation@, root)),
        ],
    )
}

/// The negative branch of a split `v-if`: a split block, a nested `v-if`, or `nil`.
pub open spec fn slot_negative_v(o: Option<Negative>, root: VaporRoot) -> TermV
    decreases o,
{
    match o {
        Some(Negative::Block(b)) => split_block_v(b, root),
        Some(Negative::If(m)) => slot_if_v(*m, root),
        None => TermV::Nil,
    }
}

/// A `v-if` slot: `%{kind, condition, positive, negative}`.
pub open spec fn slot_if_v(n: IfNode, root: VaporRoot) -> TermV
    decreases n,
{
    dict_v(
        seq![Atom::Kind, Atom::Condition, Atom::Positive, Atom::Negative],
        seq![
            TermV::Atom(Atom::IfNode),
            expr_v(n.condition),
            split_block_v(n.positive, root),
            slot_negative_v(n.negative, root),
        ],
    )
}

/// A `v-for` slot: `%{kind, source, value, key_prop, render}`.
pub open spec fn slot_for_v(n: ForNode, root: VaporRoot) -> TermV
    decreases n,
{
    dict_v(
        seq![Atom::Kind, Atom::Source, Atom::Value, Atom::KeyProp, Atom::Render],
        seq![
            TermV::Atom(Atom::ForNode),
            expr_v(n.source),
            opt_expr_v(n.value),
            opt_expr_v(n.key_prop),
            split_block_v(n.render, root),
        ],
    )
}

/// A slot of several expressions names its kind under `:kind` and holds
/// them under `:values`.
pub proof fn lemma_values_slot_entries(kind: Atom, values: Seq<Expr>)
    ensures
        maps_key(values_slot_v(kind, values), Atom::Kind, TermV::Atom(kind)),
        maps_key(values_slot_v(kind, values), Atom::Values, TermV::List(exprs_v(values))),
{
    let ks = seq![Atom::Kind, Atom::Values];
    assert(no_repeat(ks)) by {
        reveal_with_fuel(no_repeat, 3);
        reveal_with_fuel(has_atom, 3);
    }
    let vs = seq![TermV::Atom(kind), TermV::List(exprs_v(values))];
    lemma_dict_entry(ks, vs, 0);
    lemma_dict_entry(ks, vs, 1);
}

/// A slot of one expression names its kind under `:kind` and holds it under
/// `:value`.
pub proof fn lemma_value_slot_entries(kind: Atom, e: Expr)
    ensures
        maps_key(value_slot_v(kind, e), Atom::Kind, TermV::Atom(kind)),
        maps_key(value_slot_v(kind, e), Atom::Value, expr_v(e)),
{
    let ks = seq![Atom::Kind, Atom::Value];
    assert(no_repeat(ks)) by {
        reveal_with_fuel(no_repeat, 3);
        reveal_with_fuel(has_atom, 3);
    }
    let vs = seq![TermV::Atom(kind), expr_v(e)];
    lemma_dict_entry(ks, vs, 0);
    lemma_dict_entry(ks, vs, 1);
}

proof fn lemma_texts_of(ops: Seq<Operation>)
    ensures
        forall|j: int| 0 <= j < texts_of(ops).len() ==> (#[trigger] texts_of(ops)[j]) is SetText,
        forall|j: int| 0 <= j < htmls_of(ops).len() ==> (#[trigger] htmls_of(ops)[j]) is SetHtml,
    decreases ops.len(),
{
    if ops.len() > 0 {
        lemma_texts_of(ops.drop_last());
    }
}

proof fn lemma_marked_all(ops: Seq<Operation>)
    requires
        forall|j: int| 0 <= j < ops.len() ==> (#[trigger] ops[j]) is SetText || ops[j] is SetHtml,
    ensures
        marked_slots(ops).len() == ops.len(),
        forall|j: int|
            0 <= j < ops.len() ==> match #[trigger] ops[j] {
                Operation::SetText { values, .. } => marked_slots(ops)[j] == values_slot_v(Atom::SetText, values@),
                Operation::SetHtml { value, .. } => marked_slots(ops)[j] == value_slot_v(Atom::SetHtml, value),
                _ => true,
            },
    decreases ops.len(),
{
    if ops.len() > 0 {
        let p = ops.drop_last();
        assert forall|j: int| 0 <= j < p.len() implies (#[trigger] p[j]) is SetText || p[j] is SetHtml by {
            assert(p[j] == ops[j]);
        }
        lemma_marked_all(p);
        assert(ops.last() is SetText || ops.last() is SetHtml);
        assert forall|j: int| 0 <= j < p.len() implies #[trigger] ops[j] == p[j] by {}
    }
}

/// The text and HTML effects of a block each give one slot, in order, after
/// the slots of its properties and directives: a text effect a slot whose
/// `:kind` is `:set_text` and whose `:values` are its expressions, then an
/// HTML effect a slot whose `:kind` is `:set_html` and whose `:value` is its
/// expression.
pub proof fn lemma_effect_slots(b: Block, root: VaporRoot)
    ensures
        ({
            let em = block_elem_map(b, root);
            let e = effect_ops(b.effect@);
            let pre = prop_slots(sorted_by_element(props_of(e)), em).len() + dir_slots(b.operation@, em).len();
            let ts = texts_of(e);
            let hs = htmls_of(e);
            let sl = block_slots(b, root);
            &&& sl.len() >= pre + ts.len() + hs.len()
            &&& forall|j: int|
                0 <= j < ts.len() ==> (#[trigger] ts[j] matches Operation::SetText { values, .. } && maps_key(
                    sl[pre + j],
                    Atom::Kind,
                    TermV::Atom(Atom::SetText),
                ) && maps_key(sl[pre + j], Atom::Values, TermV::List(exprs_v(values@))))
            &&& forall|j: int|
                0 <= j < hs.len() ==> (#[trigger] hs[j] matches Operation::SetHtml { value, .. } && maps_key(
                    sl[pre + ts.len() + j],
                    Atom::Kind,
                    TermV::Atom(Atom::SetHtml),
                ) && maps_key(sl[pre + ts.len() + j], Atom::Value, expr_v(value)))
        }),
{
    let em = block_elem_map(b, root);
    let e = effect_ops(b.effect@);
    let ps = prop_slots(sorted_by_element(props_of(e)), em);
    let ds = dir_slots(b.operation@, em);
    let ts = texts_of(e);
    let hs = htmls_of(e);
    lemma_texts_of(e);
    lemma_marked_all(ts);
    lemma_marked_all(hs);
    let mt = marked_slots(ts);
    let mh = marked_slots(hs);
    let sl = block_slots(b, root);
    assert(sl == ps + ds + mt + mh + struct_slots(b.operation@, root));
    assert forall|j: int| 0 <= j < ts.len() implies (#[trigger] ts[j] matches Operation::SetText { values, .. }
        && maps_key(sl[ps.len() + ds.len() + j], Atom::Kind, TermV::Atom(Atom::SetText)) && maps_key(
        sl[ps.len() + ds.len() + j],
        Atom::Values,
        TermV::List(exprs_v(values@)),
    )) by {
        assert(sl[ps.len() + ds.len() + j] == mt[j]);
        if let Operation::SetText { values, .. } = ts[j] {
            lemma_values_slot_entries(Atom::SetText, values@);
        }
    }
    assert forall|j: int| 0 <= j < hs.len() implies (#[trigger] hs[j] matches Operation::SetHtml { value, .. }
        && maps_key(sl[ps.len() + ds.len() + ts.len() + j], Atom::Kind, TermV::Atom(Atom::SetHtml)) && maps_key(
        sl[ps.len() + ds.len() + ts.len() + j],
        Atom::Value,
        expr_v(value),
    )) by {
        assert(sl[ps.len() + ds.len() + ts.len() + j] == mh[j]);
        if let Operation::SetHtml { value, .. } = hs[j] {
            lemma_value_slot_entries(Atom::SetHtml, value);
        }
    }
}

/// All the slots of a block, in order.
pub open spec fn block_slots(b: Block, root: VaporRoot) -> Seq<TermV> {
    flat_slots(b, root) + struct_slots(b.operation@, root)
}

/// Splitting loses nothing: the static pieces of a block, joined by the
/// markers that stood between them, give back its marked HTML; there is one
/// more piece than markers; and no piece contains a marker.
pub proof fn lemma_split_rejoins(b: Block, root: VaporRoot)
    ensures
        interleave(split_statics(b, root), markers_in(marked_html(b, root))) == marked_html(b, root),
        split_statics(b, root).len() == markers_in(marked_html(b, root)).len() + 1,
        forall|i: int, k: int, m: Seq<char>|
            0 <= i < split_statics(b, root).len() && is_marker(m) ==> !#[trigger] occurs_at(
                split_statics(b, root)[i],
                m,
                k,
            ),
{
    lemma_segments_rejoin(marked_html(b, root));
}

/// A block with no operations and no effects binds nothing: its HTML is its
/// template HTML, unchanged, and it has no slots; when no marker occurs in
/// that HTML it is the one static piece.
pub proof fn lemma_static_block(b: Block, root: VaporRoot)
    requires
        b.operation@.len() == 0,
        b.effect@.len() == 0,
    ensures
        marked_html(b, root) == template_html(b.returns@, root),
        block_slots(b, root) == Seq::<TermV>::empty(),
        (forall|k: int, m: Seq<char>|
            is_marker(m) ==> !#[trigger] occurs_at(template_html(b.returns@, root), m, k))
            ==> split_statics(b, root) == seq![template_html(b.returns@, root)],
{
    let h0 = template_html(b.returns@, root);
    assert(effect_ops(b.effect@) =~= Seq::<Operation>::empty());
    assert(sorted_by_element(props_of(Seq::<Operation>::empty())) =~= Seq::<Operation>::empty());
    assert(block_slots(b, root) =~= Seq::<TermV>::empty());
    if forall|k: int, m: Seq<char>| is_marker(m) ==> !#[trigger] occurs_at(h0, m, k) {
        lemma_marker_free(h0);
    }
}

/// The operations behind the references.
pub open spec fn derefs(s: Seq<&Operation>) -> Seq<Operation> {
    s.map_values(|o: &Operation| *o)
}

/// The template index paired with `e`, if any (see [`etm_lookup`]).
fn lookup_index(m: &Vec<(usize, usize)>, e: usize) -> (r: Option<usize>)
    ensures
        r == etm_lookup(m@, e),
{
    let ghost ms = m@;
    let mut k: usize = 0;
    assert(ms.skip(0) =~= ms);
    while k < m.len()
        invariant
            ms == m@,
            k <= ms.len(),
            etm_lookup(ms.skip(k as int), e) == etm_lookup(ms, e),
        decreases ms.len() - k,
    {
        assert(ms.skip(k as int)[0] == ms[k as int]);
        assert(ms.skip(k as int).drop_first() =~= ms.skip(k + 1));
        if m[k].0 == e {
            return Some(m[k].1);
        }
        k = k + 1;
    }
    assert(ms.skip(k as int).len() == 0);
    None
}

/// The template for element `e` (see [`template_of`]).
fn lookup_template(root: &VaporRoot, e: usize) -> (r: Vec<char>)
    ensures
        r@ == template_of(*root, e),
{
    let idx = match lookup_index(&root.element_template_map, e) {
        Some(t) => t,
        None => e,
    };
    if idx < root.templates.len() {
        chars_of(root.templates[idx].as_str())
    } else {
        Vec::new()
    }
}

/// The templates of the root elements, concatenated (see [`template_html`]).
fn template_chars(rs: &Vec<usize>, root: &VaporRoot) -> (r: Vec<char>)
    ensures
        r@ == template_html(rs@, *root),
{
    let mut h: Vec<char> = Vec::new();
    let mut i: usize = 0;
    while i < rs.len()
        invariant
            i <= rs@.len(),
            h@ == template_html(rs@.take(i as int), *root),
        decreases rs@.len() - i,
    {
        let t = lookup_template(root, rs[i]);
        append_chars(&mut h, &t);
        i = i + 1;
        assert(rs@.take(i as int).drop_last() =~= rs@.take(i - 1));
    }
    assert(rs@.take(rs@.len() as int) =~= rs@);
    h
}

/// The element an effect operation targets (see [`op_element`]).
fn element_of(op: &Operation) -> (r: usize)
    ensures
        r == op_element(*op),
{
    match op {
        Operation::SetProp { element, .. } => *element,
        Operation::SetText { element, .. } => *element,
        Operation::SetHtml { element, .. } => *element,
        _ => 0,
    }
}

/// The operations of all effects, in order.
fn flatten_effects<'a>(effs: &'a Vec<Effect>) -> (r: Vec<&'a Operation>)
    ensures
        derefs(r@) == effect_ops(effs@),
{
    let mut out: Vec<&'a Operation> = Vec::new();
    let mut i: usize = 0;
    while i < effs.len()
        invariant
            i <= effs@.len(),
            derefs(out@) == effect_ops(effs@.take(i as int)),
        decreases effs@.len() - i,
    {
        let ops = &effs[i].operations;
        let mut j: usize = 0;
        while j < ops.len()
            invariant
                i < effs@.len(),
                ops@ == effs@[i as int].operations@,
                j <= ops@.len(),
                derefs(out@) == effect_ops(effs@.take(i as int)) + ops@.take(j as int),
            decreases ops@.len() - j,
        {
            let ghost before = derefs(out@);
            out.push(&ops[j]);
            assert(derefs(out@) =~= before.push(ops@[j as int]));
            j = j + 1;
            assert(ops@.take(j as int) =~= ops@.take(j - 1).push(ops@[j - 1]));
            assert(derefs(out@) =~= effect_ops(effs@.take(i as int)) + ops@.take(j as int));
        }
        i = i + 1;
        assert(effs@.take(i as int).drop_last() =~= effs@.take(i - 1));
        assert(ops@.take(ops@.len() as int) =~= ops@);
    }
    assert(effs@.take(effs@.len() as int) =~= effs@);
    out
}

/// Which effect operations [`select`] keeps.
pub enum Select {
    Props,
    Texts,
    Htmls,
}

pub open spec fn selected(sel: Select, ops: Seq<Operation>) -> Seq<Operation> {
    match sel {
        Select::Props => props_of(ops),
        Select::Texts => texts_of(ops),
        Select::Htmls => htmls_of(ops),
    }
}

/// The property, text or HTML operations of `ops`, in order.
fn select<'a>(ops: &Vec<&'a Operation>, sel: Select) -> (r: Vec<&'a Operation>)
    ensures
        derefs(r@) == selected(sel, derefs(ops@)),
{
    let mut out: Vec<&'a Operation> = Vec::new();
    let mut i: usize = 0;
    while i < ops.len()
        invariant
            i <= ops@.len(),
            derefs(out@) == selected(sel, derefs(ops@).take(i as int)),
        decreases ops@.len() - i,
    {
        let op = ops[i];
        let keep = match (op, &sel) {
            (Operation::SetProp { .. }, Select::Props) => true,
            (Operation::SetText { .. }, Select::Texts) => true,
            (Operation::SetHtml { .. }, Select::Htmls) => true,
            _ => false,
        };
        let ghost before = derefs(out@);
        if keep {
            out.push(op);
        }
        i = i + 1;
        assert(derefs(ops@).take(i as int).drop_last() =~= derefs(ops@).take(i - 1));
        assert(derefs(out@) =~= (if keep { before.push(*op) } else { before }));
    }
    assert(derefs(ops@).take(ops@.len() as int) =~= derefs(ops@));
    out
}

/// The operations ordered by element, keeping the order of operations on
/// equal elements (see [`sorted_by_element`]).
fn sort_by_element<'a>(ops: &Vec<&'a Operation>) -> (r: Vec<&'a Operation>)
    ensures
        derefs(r@) == sorted_by_element(derefs(ops@)),
{
    let mut out: Vec<&'a Operation> = Vec::new();
    let mut i: usize = 0;
    while i < ops.len()
        invariant
            i <= ops@.len(),
            derefs(out@) == sorted_by_element(derefs(ops@).take(i as int)),
        decreases ops@.len() - i,
    {
        let op = ops[i];
        let key: usize = element_of(op);
        let ghost t = derefs(out@);
        let mut k: usize = 0;
        assert(t.skip(0) =~= t);
        while k < out.len() && element_of(out[k]) <= key
            invariant
                t == derefs(out@),
                k <= t.len(),
                first_after(t, key) == k + first_after(t.skip(k as int), key),
            decreases t.len() - k,
        {
            assert(t.skip(k as int)[0] == t[k as int]);
            assert(t.skip(k as int).drop_first() =~= t.skip(k + 1));
            k = k + 1;
        }
        proof {
            if k < t.len() {
                assert(t.skip(k as int)[0] == t[k as int]);
            }
        }
        out.insert(k, op);
        i = i + 1;
        assert(derefs(ops@).take(i as int).drop_last() =~= derefs(ops@).take(i - 1));
        assert(derefs(out@) =~= t.insert(k as int, *op));
    }
    assert(derefs(ops@).take(ops@.len() as int) =~= derefs(ops@));
    out
}

/// ` phx-<event>="<handler>"` (see [`event_attr`]).
fn event_attr_chars(key: &Expr, value: &Option<Expr>) -> (r: Vec<char>)
    ensures
        r@ == event_attr(*key, *value),
{
    let mut v = chars_of(" phx-");
    append_str(&mut v, key.content.as_str());
    append_str(&mut v, "=\"");
    match value {
        Some(x) => append_str(&mut v, x.content.as_str()),
        None => append_str(&mut v, key.content.as_str()),
    }
    append_str(&mut v, "\"");
    v
}

/// ` <key>="<prop marker>"` (see [`prop_attr`]).
fn prop_attr_chars(key: &Expr) -> (r: Vec<char>)
    ensures
        r@ == prop_attr(*key),
{
    let mut v = chars_of(" ");
    append_str(&mut v, key.content.as_str());
    append_str(&mut v, "=\"");
    append_str(&mut v, PROP_MARKER);
    append_str(&mut v, "\"");
    v
}

/// `<lead><prop marker>"`: the `v-show` and `v-model` attributes.
fn marker_attr_chars(lead: &str) -> (r: Vec<char>)
    ensures
        r@ == lead@ + PROP_MARKER@ + "\""@,
{
    let mut v = chars_of(lead);
    append_str(&mut v, PROP_MARKER);
    append_str(&mut v, "\"");
    v
}

/// ` phx-change="<name>_changed"` (see [`change_attr`]).
fn change_attr_chars(e: &Expr) -> (r: Vec<char>)
    ensures
        r@ == change_attr(*e),
{
    let mut v = chars_of(" phx-change=\"");
    append_str(&mut v, e.content.as_str());
    append_str(&mut v, "_changed\"");
    v
}

/// Injects the `phx-` attribute of every event whose element has a tag.
fn mark_events(
    html: &mut Vec<char>,
    tags: &mut Vec<TagEntry>,
    ops: &Vec<Operation>,
    em: &HashMap<usize, usize>,
)
    requires
        tags_wf(tags_view(old(tags)@), old(html)@.len() as int),
    ensures
        (final(html)@, tags_view(final(tags)@)) == events_fold(
            ops@,
            (old(html)@, tags_view(old(tags)@)),
            em@,
        ),
        tags_wf(tags_view(final(tags)@), final(html)@.len() as int),
{
    let ghost st0 = (html@, tags_view(tags@));
    let mut i: usize = 0;
    while i < ops.len()
        invariant
            i <= ops@.len(),
            (html@, tags_view(tags@)) == events_fold(ops@.take(i as int), st0, em@),
            tags_wf(tags_view(tags@), html@.len() as int),
        decreases ops@.len() - i,
    {
        if let Operation::SetEvent { element, key, value, .. } = &ops[i] {
            if let Some(tag_pos) = em.get(element) {
                let attr = event_attr_chars(key, value);
                proof {
                    lemma_wf_fits(tags_view(tags@), html@.len() as int, false);
                }
                inject_attr(html, tags, *tag_pos, &attr);
            }
        }
        i = i + 1;
        assert(ops@.take(i as int).drop_last() =~= ops@.take(i - 1));
    }
    assert(ops@.take(ops@.len() as int) =~= ops@);
}

/// `%{kind, values}` (see [`values_slot_v`]).
fn encode_slot_values(kind: Atom, values: &Vec<Expr>) -> (r: Term)
    ensures
        r@ == values_slot_v(kind, values@),
{
    let vals = vec![Term::Atom(kind), encode_exprs(values)];
    let ghost vv = vals@;
    let r = dict(vec![Atom::Kind, Atom::Values], vals);
    assert(views(vv) =~= seq![TermV::Atom(kind), TermV::List(exprs_v(values@))]);
    r
}

/// `%{kind, value}` (see [`value_slot_v`]).
fn encode_slot_value(kind: Atom, e: &Expr) -> (r: Term)
    ensures
        r@ == value_slot_v(kind, *e),
{
    let vals = vec![Term::Atom(kind), encode_simple_expr(e)];
    let ghost vv = vals@;
    let r = dict(vec![Atom::Kind, Atom::Value], vals);
    assert(views(vv) =~= seq![TermV::Atom(kind), expr_v(*e)]);
    r
}

/// Injects a prop marker attribute for every property whose element has a
/// tag, with a `:set_prop` slot for each.
fn mark_props(
    html: &mut Vec<char>,
    tags: &mut Vec<TagEntry>,
    slots: &mut Vec<Term>,
    props: &Vec<&Operation>,
    em: &HashMap<usize, usize>,
)
    requires
        tags_wf(tags_view(old(tags)@), old(html)@.len() as int),
    ensures
        (final(html)@, tags_view(final(tags)@)) == props_fold(
            derefs(props@),
            (old(html)@, tags_view(old(tags)@)),
            em@,
        ),
        tags_wf(tags_view(final(tags)@), final(html)@.len() as int),
        views(final(slots)@) == views(old(slots)@) + prop_slots(derefs(props@), em@),
{
    let ghost st0 = (html@, tags_view(tags@));
    let ghost sl0 = views(slots@);
    let ghost ps = derefs(props@);
    let mut i: usize = 0;
    while i < props.len()
        invariant
            ps == derefs(props@),
            i <= ps.len(),
            (html@, tags_view(tags@)) == props_fold(ps.take(i as int), st0, em@),
            tags_wf(tags_view(tags@), html@.len() as int),
            views(slots@) == sl0 + prop_slots(ps.take(i as int), em@),
        decreases ps.len() - i,
    {
        let ghost before = views(slots@);
        if let Operation::SetProp { element, prop, .. } = props[i] {
            if let Some(tag_pos) = em.get(element) {
                let attr = prop_attr_chars(&prop.key);
                inject_attr(html, tags, *tag_pos, &attr);
                push_term(slots, encode_slot_values(Atom::SetProp, &prop.values));
            }
        }
        i = i + 1;
        assert(ps.take(i as int).drop_last() =~= ps.take(i - 1));
        assert(ps.take(i as int).last() == ps[i - 1]);
        assert(views(slots@) =~= sl0 + prop_slots(ps.take(i as int), em@));
    }
    assert(ps.take(ps.len() as int) =~= ps);
}

/// Injects the attributes of every `v-show` and `v-model` directive whose
/// element has a tag, with a slot for each one that has a simple expression.
fn mark_directives(
    html: &mut Vec<char>,
    tags: &mut Vec<TagEntry>,
    slots: &mut Vec<Term>,
    ops: &Vec<Operation>,
    em: &HashMap<usize, usize>,
)
    requires
        tags_wf(tags_view(old(tags)@), old(html)@.len() as int),
    ensures
        (final(html)@, tags_view(final(tags)@)) == dirs_fold(
            ops@,
            (old(html)@, tags_view(old(tags)@)),
            em@,
        ),
        tags_wf(tags_view(final(tags)@), final(html)@.len() as int),
        views(final(slots)@) == views(old(slots)@) + dir_slots(ops@, em@),
{
    let ghost st0 = (html@, tags_view(tags@));
    let ghost sl0 = views(slots@);
    let show = chars_of("vShow");
    let model = chars_of("model");
    let mut i: usize = 0;
    while i < ops.len()
        invariant
            i <= ops@.len(),
            show@ == "vShow"@,
            model@ == "model"@,
            (html@, tags_view(tags@)) == dirs_fold(ops@.take(i as int), st0, em@),
            tags_wf(tags_view(tags@), html@.len() as int),
            views(slots@) == sl0 + dir_slots(ops@.take(i as int), em@),
        decreases ops@.len() - i,
    {
        if let Operation::Directive { element, name, exp, .. } = &ops[i] {
            if let Some(tag_pos) = em.get(element) {
                let n = chars_of(name.as_str());
                if chars_eq(&n, &show) {
                    let attr = marker_attr_chars(" style=\"");
                    proof {
                        lemma_wf_fits(tags_view(tags@), html@.len() as int, false);
                    }
                    inject_attr(html, tags, *tag_pos, &attr);
                    if let Some(DirectiveExp::Simple(e)) = exp {
                        push_term(slots, encode_slot_value(Atom::VShow, e));
                    }
                } else if chars_eq(&n, &model) {
                    let attr = marker_attr_chars(" value=\"");
                    proof {
                        lemma_wf_fits(tags_view(tags@), html@.len() as int, false);
                    }
                    inject_attr(html, tags, *tag_pos, &attr);
                    if let Some(DirectiveExp::Simple(e)) = exp {
                        push_term(slots, encode_slot_value(Atom::VModel, e));
                        let change = change_attr_chars(e);
                        proof {
                            lemma_wf_fits(tags_view(tags@), html@.len() as int, false);
                        }
                        inject_attr(html, tags, *tag_pos, &change);
                    }
                }
            }
        }
        i = i + 1;
        assert(ops@.take(i as int).drop_last() =~= ops@.take(i - 1));
        assert(views(slots@) =~= sl0 + dir_slots(ops@.take(i as int), em@));
    }
    assert(ops@.take(ops@.len() as int) =~= ops@);
}

/// The first space of `html` at or after `j` and before `e`, or `e` (see
/// [`first_space`]).
fn first_space_in(html: &Vec<char>, j: usize, e: usize) -> (r: usize)
    requires
        j <= e <= html@.len(),
    ensures
        r == first_space(html@, j as int, e as int),
        j <= r <= e,
{
    let mut k: usize = j;
    while k < e
        invariant
            j <= k <= e <= html@.len(),
            first_space(html@, j as int, e as int) == first_space(html@, k as int, e as int),
        decreases e - k,
    {
        if html[k] == ' ' {
            return k;
        }
        k = k + 1;
    }
    k
}

/// Replaces the first space in the content of tag `k` with the text marker
/// and reads the tag tree again (see [`text_marked`]).
fn mark_text(html: &mut Vec<char>, tags: &mut Vec<TagEntry>, k: usize)
    requires
        tags_wf(tags_view(old(tags)@), old(html)@.len() as int),
    ensures
        (final(html)@, tags_view(final(tags)@)) == text_marked(
            (old(html)@, tags_view(old(tags)@)),
            k as int,
        ),
        tags_wf(tags_view(final(tags)@), final(html)@.len() as int),
{
    if k < tags.len() {
        assert(tag_wf(tags_view(tags@)[k as int], html@.len() as int));
        let s: usize = tags[k].open_end;
        let e: usize = match tags[k].close_start {
            Some(c) => c,
            None => s,
        };
        let f: usize = first_space_in(html, s, e);
        if f < e {
            let mut h2 = slice_range(html, 0, f);
            append_str(&mut h2, TEXT_MARKER);
            let rest = slice_range(html, f + 1, html.len());
            append_chars(&mut h2, &rest);
            proof {
                assert(html@.take(f as int) =~= html@.subrange(0, f as int));
                assert(html@.skip(f + 1) =~= html@.subrange(f + 1, html@.len() as int));
            }
            let t2 = parse_tag_tree(&h2);
            *html = h2;
            *tags = t2;
        }
    }
}

/// Marks the text of every text or HTML effect whose element has a tag, with
/// a slot for every effect.
fn mark_texts(
    html: &mut Vec<char>,
    tags: &mut Vec<TagEntry>,
    slots: &mut Vec<Term>,
    ops: &Vec<&Operation>,
    em: &HashMap<usize, usize>,
)
    requires
        tags_wf(tags_view(old(tags)@), old(html)@.len() as int),
    ensures
        (final(html)@, tags_view(final(tags)@)) == marks_fold(
            derefs(ops@),
            (old(html)@, tags_view(old(tags)@)),
            em@,
        ),
        tags_wf(tags_view(final(tags)@), final(html)@.len() as int),
        views(final(slots)@) == views(old(slots)@) + marked_slots(derefs(ops@)),
{
    let ghost st0 = (html@, tags_view(tags@));
    let ghost sl0 = views(slots@);
    let ghost ps = derefs(ops@);
    let mut i: usize = 0;
    while i < ops.len()
        invariant
            ps == derefs(ops@),
            i <= ps.len(),
            (html@, tags_view(tags@)) == marks_fold(ps.take(i as int), st0, em@),
            tags_wf(tags_view(tags@), html@.len() as int),
            views(slots@) == sl0 + marked_slots(ps.take(i as int)),
        decreases ps.len() - i,
    {
        let op = ops[i];
        if let Some(tag_pos) = em.get(&element_of(op)) {
            mark_text(html, tags, *tag_pos);
        }
        match op {
            Operation::SetText { values, .. } => {
                push_term(slots, encode_slot_values(Atom::SetText, values));
            },
            Operation::SetHtml { value, .. } => {
                push_term(slots, encode_slot_value(Atom::SetHtml, value));
            },
            _ => {},
        }
        i = i + 1;
        assert(ps.take(i as int).drop_last() =~= ps.take(i - 1));
        assert(ps.take(i as int).last() == ps[i - 1]);
        assert(views(slots@) =~= sl0 + marked_slots(ps.take(i as int)));
    }
    assert(ps.take(ps.len() as int) =~= ps);
}

/// Places a structure marker for an operation whose parent is `parent` (see
/// [`struct_place`]).
fn place_struct(
    html: &mut Vec<char>,
    tags: &mut Vec<TagEntry>,
    parent: Option<usize>,
    em: &HashMap<usize, usize>,
)
    requires
        tags_wf(tags_view(old(tags)@), old(html)@.len() as int),
    ensures
        (final(html)@, tags_view(final(tags)@)) == struct_place(
            (old(html)@, tags_view(old(tags)@)),
            parent,
            em@,
        ),
        tags_wf(tags_view(final(tags)@), final(html)@.len() as int),
{
    match parent {
        Some(pid) => {
            if let Some(tag_pos) = em.get(&pid) {
                let m = chars_of(STRUCT_MARKER);
                proof {
                    lemma_wf_fits(tags_view(tags@), html@.len() as int, true);
                }
                inject_before_close(html, tags, *tag_pos, &m);
            }
        },
        None => {
            append_str(html, STRUCT_MARKER);
        },
    }
}

/// A component slot (see [`slot_component_v`]).
pub fn encode_slot_component(c: &Component) -> (r: Term)
    ensures
        r@ == slot_component_v(*c),
{
    let vals = vec![
        Term::Atom(Atom::CreateComponent),
        string_term(&c.tag),
        encode_props(&c.props),
        Term::Atom(component_kind_atom(c.kind)),
    ];
    let ghost vv = vals@;
    let r = dict(vec![Atom::Kind, Atom::Tag, Atom::Props, Atom::Value], vals);
    assert(views(vv) =~= seq![
        TermV::Atom(Atom::CreateComponent),
        TermV::Str(c.tag@),
        TermV::List(props_v(c.props@)),
        TermV::Atom(kind_atom(c.kind)),
    ]);
    r
}

/// Places the marker of every `v-if`, `v-for` and component, with a slot for
/// each; `v-if` and `v-for` slots carry their blocks split in turn.
fn mark_structs(
    html: &mut Vec<char>,
    tags: &mut Vec<TagEntry>,
    slots: &mut Vec<Term>,
    ops: &Vec<Operation>,
    em: &HashMap<usize, usize>,
    root: &VaporRoot,
)
    requires
        tags_wf(tags_view(old(tags)@), old(html)@.len() as int),
    ensures
        (final(html)@, tags_view(final(tags)@)) == structs_fold(
            ops@,
            (old(html)@, tags_view(old(tags)@)),
            em@,
        ),
        tags_wf(tags_view(final(tags)@), final(html)@.len() as int),
        views(final(slots)@) == views(old(slots)@) + struct_slots(ops@, *root),
    decreases ops, 0int,
{
    let ghost st0 = (html@, tags_view(tags@));
    let ghost sl0 = views(slots@);
    let mut i: usize = 0;
    while i < ops.len()
        invariant
            i <= ops@.len(),
            (html@, tags_view(tags@)) == structs_fold(ops@.take(i as int), st0, em@),
            tags_wf(tags_view(tags@), html@.len() as int),
            views(slots@) == sl0 + struct_slots(ops@.take(i as int), *root),
        decreases ops@.len() - i,
    {
        match &ops[i] {
            Operation::If(n) => {
                place_struct(html, tags, n.parent, em);
                push_term(slots, encode_slot_if_split(n, root));
            },
            Operation::For(n) => {
                place_struct(html, tags, n.parent, em);
                push_term(slots, encode_slot_for_split(n, root));
            },
            Operation::CreateComponent(c) => {
                place_struct(html, tags, c.parent, em);
                push_term(slots, encode_slot_component(c));
            },
            _ => {},
        }
        i = i + 1;
        assert(ops@.take(i as int).drop_last() =~= ops@.take(i - 1));
        assert(views(slots@) =~= sl0 + struct_slots(ops@.take(i as int), *root));
    }
    assert(ops@.take(ops@.len() as int) =~= ops@);
}

/// A split `v-if` (see [`slot_if_v`]).
pub fn encode_slot_if_split(n: &IfNode, root: &VaporRoot) -> (r: Term)
    ensures
        r@ == slot_if_v(*n, *root),
    decreases n, 0int,
{
    let positive = encode_split_block(&n.positive, root);
    let negative = match &n.negative {
        Some(Negative::Block(b)) => encode_split_block(b, root),
        Some(Negative::If(m)) => encode_slot_if_split(m, root),
        None => Term::Nil,
    };
    let ghost neg_v = slot_negative_v(n.negative, *root);
    assert(negative@ == neg_v);
    let vals = vec![Term::Atom(Atom::IfNode), encode_simple_expr(&n.condition), positive, negative];
    let ghost vv = vals@;
    let r = dict(vec![Atom::Kind, Atom::Condition, Atom::Positive, Atom::Negative], vals);
    assert(views(vv) =~= seq![
        TermV::Atom(Atom::IfNode),
        expr_v(n.condition),
        split_block_v(n.positive, *root),
        neg_v,
    ]);
    r
}

/// A split `v-for` (see [`slot_for_v`]).
pub fn encode_slot_for_split(n: &ForNode, root: &VaporRoot) -> (r: Term)
    ensures
        r@ == slot_for_v(*n, *root),
    decreases n, 0int,
{
    let render = encode_split_block(&n.render, root);
    let vals = vec![
        Term::Atom(Atom::ForNode),
        encode_simple_expr(&n.source),
        encode_opt_expr(&n.value),
        encode_opt_expr(&n.key_prop),
        render,
    ];
    let ghost vv = vals@;
    let r = dict(vec![Atom::Kind, Atom::Source, Atom::Value, Atom::KeyProp, Atom::Render], vals);
    assert(views(vv) =~= seq![
        TermV::Atom(Atom::ForNode),
        expr_v(n.source),
        opt_expr_v(n.value),
        opt_expr_v(n.key_prop),
        split_block_v(n.render, *root),
    ]);
    r
}

/// A block split into `%{statics, slots}` (see [`split_block_v`]).
pub fn encode_split_block(b: &Block, root: &VaporRoot) -> (r: Term)
    ensures
        r@ == split_block_v(*b, *root),
    decreases b, 1int,
{
    let (statics, slots) = process_block(b, root);
    let ghost segs = split_statics(*b, *root);
    assert(strs_v(statics@) =~= segs.map_values(|s: Seq<char>| TermV::Str(s))) by {
        assert forall|k: int| 0 <= k < segs.len() implies strs_v(statics@)[k] == TermV::Str(
            segs[k],
        ) by {
            assert(statics@.map_values(|s: String| s@)[k] == statics@[k]@);
        }
    }
    let vals = vec![string_list(&statics), list(slots)];
    let ghost vv = vals@;
    let r = dict(vec![Atom::Statics, Atom::Slots], vals);
    assert(views(vv) =~= seq![
        TermV::List(segs.map_values(|s: Seq<char>| TermV::Str(s))),
        TermV::List(block_slots(*b, *root)),
    ]);
    r
}

/// Splits a block: the static pieces of its marked template HTML, and the
/// slots bound between them, in order (see [`split_statics`] and
/// [`block_slots`]).
pub fn process_block(b: &Block, root: &VaporRoot) -> (r: (Vec<String>, Vec<Term>))
    ensures
        r.0@.map_values(|s: String| s@) == split_statics(*b, *root),
        views(r.1@) == block_slots(*b, *root),
    decreases b, 0int,
{
    let mut html = template_chars(&b.returns, root);
    let mut tags = parse_tag_tree(&html);
    let em = build_elem_to_tag(&b.returns, &b.operation, &tags);
    let ghost emv = block_elem_map(*b, *root);
    assert(em@ == emv);
    let mut slots: Vec<Term> = Vec::new();
    let ghost h0 = html@;
    mark_events(&mut html, &mut tags, &b.operation, &em);
    let ghost st1 = (html@, tags_view(tags@));
    let effects = flatten_effects(&b.effect);
    let props = select(&effects, Select::Props);
    let props = sort_by_element(&props);
    mark_props(&mut html, &mut tags, &mut slots, &props, &em);
    mark_directives(&mut html, &mut tags, &mut slots, &b.operation, &em);
    tags = parse_tag_tree(&html);
    let texts = select(&effects, Select::Texts);
    mark_texts(&mut html, &mut tags, &mut slots, &texts, &em);
    let htmls = select(&effects, Select::Htmls);
    mark_texts(&mut html, &mut tags, &mut slots, &htmls, &em);
    mark_structs(&mut html, &mut tags, &mut slots, &b.operation, &em, root);
    let statics = split_chars(&html);
    assert(views(slots@) =~= block_slots(*b, *root));
    (statics, slots)
}

} // verus!
