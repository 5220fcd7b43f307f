//! The Vapor IR as terms: every operation becomes a map tagged by `:kind`.
use vstd::prelude::*;

use crate::ir::{
    Block, ComponentKind, CompoundPart, DirectiveExp, Effect, Expr, ForNode, IfNode, Negative,
    Operation, Prop,
};
use crate::term::{
    atom_map, atoms_v, int_list, ints_v, lemma_views, list, opt_int_term, opt_int_v, push_term,
    string_term, views, Atom, Term, TermV,
};

verus! {

/// A map term from atoms to the given values.
pub open spec fn dict_v(keys: Seq<Atom>, vals: Seq<TermV>) -> TermV {
    TermV::Dict(atoms_v(keys), vals)
}

/// `t` is a map that holds the key `k`, and every entry under `k` is `v`.
pub open spec fn maps_key(t: TermV, k: Atom, v: TermV) -> bool {
    match t {
        TermV::Dict(ks, vs) => {
            &&& ks.len() == vs.len()
            &&& exists|i: int| 0 <= i < ks.len() && ks[i] == TermV::Atom(k)
            &&& forall|i: int| 0 <= i < ks.len() && ks[i] == TermV::Atom(k) ==> vs[i] == v
        },
        _ => false,
    }
}

/// Whether `a` is among `ks`.
pub open spec fn has_atom(ks: Seq<Atom>, a: Atom) -> bool
    decreases ks.len(),
{
    ks.len() > 0 && (ks[0] == a || has_atom(ks.drop_first(), a))
}

/// No atom occurs twice in `ks`.
pub open spec fn no_repeat(ks: Seq<Atom>) -> bool
    decreases ks.len(),
{
    ks.len() == 0 || (!has_atom(ks.drop_first(), ks[0]) && no_repeat(ks.drop_first()))
}

proof fn lemma_has_atom(ks: Seq<Atom>, a: Atom, i: int)
    requires
        0 <= i < ks.len(),
        ks[i] == a,
    ensures
        has_atom(ks, a),
    decreases ks.len(),
{
    if i > 0 {
        assert(ks.drop_first()[i - 1] == a);
        lemma_has_atom(ks.drop_first(), a, i - 1);
    }
}

proof fn lemma_no_repeat(ks: Seq<Atom>)
    requires
        no_repeat(ks),
    ensures
        forall|i: int, j: int| 0 <= i < j < ks.len() ==> ks[i] != ks[j],
    decreases ks.len(),
{
    if ks.len() > 0 {
        let t = ks.drop_first();
        lemma_no_repeat(t);
        assert forall|i: int, j: int| 0 <= i < j < ks.len() implies ks[i] != ks[j] by {
            assert(ks[j] == t[j - 1]);
            if i == 0 {
                if ks[0] == ks[j] {
                    lemma_has_atom(t, ks[0], j - 1);
                }
            } else {
                assert(ks[i] == t[i - 1]);
            }
        }
    }
}

/// In a map built from keys that do not repeat, each key holds the value at
/// its own position.
pub proof fn lemma_dict_entry(keys: Seq<Atom>, vals: Seq<TermV>, j: int)
    requires
        keys.len() == vals.len(),
        no_repeat(keys),
        0 <= j < keys.len(),
    ensures
        maps_key(dict_v(keys, vals), keys[j], vals[j]),
{
    lemma_no_repeat(keys);
    let ks = atoms_v(keys);
    assert(ks[j] == TermV::Atom(keys[j]));
    assert forall|i: int| 0 <= i < ks.len() && ks[i] == TermV::Atom(keys[j]) implies vals[i] == vals[j] by {
        assert(ks[i] == TermV::Atom(keys[i]));
        if i < j {
        } else if j < i {
        }
    }
}

/// Builds an atom-keyed map; the view of each value is its own view.
pub fn dict(keys: Vec<Atom>, vals: Vec<Term>) -> (r: Term)
    ensures
        r@ == dict_v(keys@, views(vals@)),
        views(vals@).len() == vals@.len(),
        forall|i: int| 0 <= i < vals@.len() ==> #[trigger] views(vals@)[i] == vals@[i]@,
{
    proof {
        lemma_views(vals@);
    }
    atom_map(keys, vals)
}

/// A static expression is `{:static, text}`, any other its text.
pub open spec fn expr_v(e: Expr) -> TermV {
    if e.is_static {
        TermV::Tuple(seq![TermV::Atom(Atom::Static), TermV::Str(e.content@)])
    } else {
        TermV::Str(e.content@)
    }
}

pub open spec fn exprs_v(s: Seq<Expr>) -> Seq<TermV> {
    s.map_values(|e: Expr| expr_v(e))
}

pub open spec fn opt_expr_v(o: Option<Expr>) -> TermV {
    match o {
        Some(e) => expr_v(e),
        None => TermV::Nil,
    }
}

/// A property is `%{key, values, is_component}`.
pub open spec fn prop_v(p: Prop) -> TermV {
    dict_v(
        seq![Atom::Key, Atom::Values, Atom::IsComponent],
        seq![expr_v(p.key), TermV::List(exprs_v(p.values@)), TermV::Bool(p.is_component)],
    )
}

pub open spec fn props_v(s: Seq<Prop>) -> Seq<TermV> {
    s.map_values(|p: Prop| prop_v(p))
}

/// The atom naming a component kind.
pub open spec fn kind_atom(k: ComponentKind) -> Atom {
    match k {
        ComponentKind::Regular => Atom::Regular,
        ComponentKind::Teleport => Atom::Teleport,
        ComponentKind::KeepAlive => Atom::KeepAlive,
        ComponentKind::Suspense => Atom::Suspense,
        ComponentKind::Dynamic => Atom::Dynamic,
    }
}

/// The text of a compound expression: the text of its simple and string
/// children, in order.
pub open spec fn compound_text(parts: Seq<CompoundPart>) -> Seq<char>
    decreases parts.len(),
{
    if parts.len() == 0 {
        Seq::empty()
    } else {
        compound_text(parts.drop_last()) + match parts.last() {
            CompoundPart::Simple(e) => e.content@,
            CompoundPart::Text(s) => s@,
            CompoundPart::Other => Seq::empty(),
        }
    }
}

pub open spec fn dir_exp_v(o: Option<DirectiveExp>) -> TermV {
    match o {
        Some(DirectiveExp::Simple(e)) => expr_v(e),
        Some(DirectiveExp::Compound(parts)) => TermV::Str(compound_text(parts@)),
        None => TermV::Nil,
    }
}

/// An operation as a map tagged by `:kind`.
pub open spec fn op_v(op: Operation) -> TermV
    decreases op,
{
    match op {
        Operation::SetProp { element, prop, tag, camel, prop_modifier } => dict_v(
            seq![Atom::Kind, Atom::Element, Atom::Tag, Atom::Camel, Atom::PropModifier, Atom::Value],
            seq![
                TermV::Atom(Atom::SetProp),
                TermV::Int(element as int),
                TermV::Str(tag@),
                TermV::Bool(camel),
                TermV::Bool(prop_modifier),
                prop_v(prop),
            ],
        ),
        Operation::SetDynamicProps { element, props } => dict_v(
            seq![Atom::Kind, Atom::Element, Atom::Props],
            seq![
                TermV::Atom(Atom::SetDynamicProps),
                TermV::Int(element as int),
                TermV::List(exprs_v(props@)),
            ],
        ),
        Operation::SetText { element, values } => dict_v(
            seq![Atom::Kind, Atom::Element, Atom::Values],
            seq![
                TermV::Atom(Atom::SetText),
                TermV::Int(element as int),
                TermV::List(exprs_v(values@)),
            ],
        ),
        Operation::SetEvent { element, key, value, delegate, effect } => dict_v(
            seq![Atom::Kind, Atom::Element, Atom::Key, Atom::Value, Atom::Delegate, Atom::Effect],
            seq![
                TermV::Atom(Atom::SetEvent),
                TermV::Int(element as int),
                expr_v(key),
                opt_expr_v(value),
                TermV::Bool(delegate),
                TermV::Bool(effect),
            ],
        ),
        Operation::SetHtml { element, value } => dict_v(
            seq![Atom::Kind, Atom::Element, Atom::Value],
            seq![TermV::Atom(Atom::SetHtml), TermV::Int(element as int), expr_v(value)],
        ),
        Operation::SetTemplateRef { element, value } => dict_v(
            seq![Atom::Kind, Atom::Element, Atom::Value],
            seq![TermV::Atom(Atom::SetTemplateRef), TermV::Int(element as int), expr_v(value)],
        ),
        Operation::InsertNode { elements, parent, anchor } => dict_v(
            seq![Atom::Kind, Atom::Element, Atom::Parent, Atom::Anchor],
            seq![
                TermV::Atom(Atom::InsertNode),
                TermV::List(ints_v(elements@)),
                TermV::Int(parent as int),
                opt_int_v(anchor),
            ],
        ),
        Operation::PrependNode { elements, parent } => dict_v(
            seq![Atom::Kind, Atom::Element, Atom::Parent],
            seq![
                TermV::Atom(Atom::PrependNode),
                TermV::List(ints_v(elements@)),
                TermV::Int(parent as int),
            ],
        ),
        Operation::Directive { element, name, tag, exp } => dict_v(
            seq![Atom::Kind, Atom::Element, Atom::Name, Atom::Tag, Atom::Value],
            seq![
                TermV::Atom(Atom::Directive),
                TermV::Int(element as int),
                TermV::Str(name@),
                TermV::Str(tag@),
                dir_exp_v(exp),
            ],
        ),
        Operation::If(n) => if_v(*n),
        Operation::For(n) => for_v(*n),
        Operation::CreateComponent(c) => dict_v(
            seq![
                Atom::Kind,
                Atom::Tag,
                Atom::Props,
                Atom::Asset,
                Atom::Once,
                Atom::DynamicSlots,
                Atom::Parent,
                Atom::Anchor,
                Atom::Value,
            ],
            seq![
                TermV::Atom(Atom::CreateComponent),
                TermV::Str(c.tag@),
                TermV::List(props_v(c.props@)),
                TermV::Bool(c.asset),
                TermV::Bool(c.once),
                TermV::Bool(c.dynamic_slots),
                opt_int_v(c.parent),
                opt_int_v(c.anchor),
                TermV::Atom(kind_atom(c.kind)),
            ],
        ),
        Operation::SlotOutlet { name, props } => dict_v(
            seq![Atom::Kind, Atom::Name, Atom::Props],
            seq![TermV::Atom(Atom::SlotOutlet), expr_v(name), TermV::List(props_v(props@))],
        ),
        Operation::GetTextChild { parent } => dict_v(
            seq![Atom::Kind, Atom::Parent],
            seq![TermV::Atom(Atom::GetTextChild), TermV::Int(parent as int)],
        ),
        Operation::ChildRef { child_id, parent_id, offset } => dict_v(
            seq![Atom::Kind, Atom::ChildId, Atom::ParentId, Atom::Offset],
            seq![
                TermV::Atom(Atom::ChildRef),
                TermV::Int(child_id as int),
                TermV::Int(parent_id as int),
                TermV::Int(offset as int),
            ],
        ),
        Operation::NextRef { child_id, prev_id, offset } => dict_v(
            seq![Atom::Kind, Atom::ChildId, Atom::ParentId, Atom::Offset],
            seq![
                TermV::Atom(Atom::NextRef),
                TermV::Int(child_id as int),
                TermV::Int(prev_id as int),
                TermV::Int(offset as int),
            ],
        ),
    }
}

pub open spec fn ops_v(s: Seq<Operation>) -> Seq<TermV>
    decreases s,
{
    if s.len() == 0 {
        Seq::empty()
    } else {
        ops_v(s.drop_last()).push(op_v(s.last()))
    }
}

pub open spec fn effects_v(s: Seq<Effect>) -> Seq<TermV>
    decreases s,
{
    if s.len() == 0 {
        Seq::empty()
    } else {
        effects_v(s.drop_last()).push(TermV::List(ops_v(s.last().operations@)))
    }
}

/// A block is `%{operations, effects, returns}`; each effect is the list of
/// its operations.
pub open spec fn block_v(b: Block) -> TermV
    decreases b,
{
    dict_v(
        seq![Atom::Operations, Atom::Effects, Atom::Returns],
        seq![
            TermV::List(ops_v(b.operation@)),
            TermV::List(effects_v(b.effect@)),
            TermV::List(ints_v(b.returns@)),
        ],
    )
}

/// The negative branch of a `v-if`: a block, a nested `v-if`, or `nil`.
pub open spec fn negative_v(o: Option<Negative>) -> TermV
    decreases o,
{
    match o {
        Some(Negative::Block(b)) => block_v(b),
        Some(Negative::If(m)) => if_v(*m),
        None => TermV::Nil,
    }
}

/// A `v-if` node; its negative branch is a block, a nested `v-if`, or `nil`.
pub open spec fn if_v(n: IfNode) -> TermV
    decreases n,
{
    let negative = negative_v(n.negative);
    dict_v(
        seq![
            Atom::Kind,
            Atom::Condition,
            Atom::Positive,
            Atom::Negative,
            Atom::Once,
            Atom::Parent,
            Atom::Anchor,
        ],
        seq![
            TermV::Atom(Atom::IfNode),
            expr_v(n.condition),
            block_v(n.positive),
            negative,
            TermV::Bool(n.once),
            opt_int_v(n.parent),
            opt_int_v(n.anchor),
        ],
    )
}

/// A `v-for` node.
pub open spec fn for_v(n: ForNode) -> TermV
    decreases n,
{
    dict_v(
        seq![
            Atom::Kind,
            Atom::Source,
            Atom::Value,
            Atom::Key,
            Atom::Index,
            Atom::KeyProp,
            Atom::Render,
            Atom::Once,
            Atom::Parent,
            Atom::Anchor,
        ],
        seq![
            TermV::Atom(Atom::ForNode),
            expr_v(n.source),
            opt_expr_v(n.value),
            opt_expr_v(n.key),
            opt_expr_v(n.index),
            opt_expr_v(n.key_prop),
            block_v(n.render),
            TermV::Bool(n.once),
            opt_int_v(n.parent),
            opt_int_v(n.anchor),
        ],
    )
}

/// The entries of an encoded `v-for` node: each key holds its own field of
/// the node, the key alias under `:key` and the index alias under `:index`.
pub proof fn lemma_for_entries(n: ForNode)
    ensures
        maps_key(for_v(n), Atom::Kind, TermV::Atom(Atom::ForNode)),
        maps_key(for_v(n), Atom::Source, expr_v(n.source)),
        maps_key(for_v(n), Atom::Value, opt_expr_v(n.value)),
        maps_key(for_v(n), Atom::Key, opt_expr_v(n.key)),
        maps_key(for_v(n), Atom::Index, opt_expr_v(n.index)),
        maps_key(for_v(n), Atom::KeyProp, opt_expr_v(n.key_prop)),
        maps_key(for_v(n), Atom::Render, block_v(n.render)),
        maps_key(for_v(n), Atom::Once, TermV::Bool(n.once)),
        maps_key(for_v(n), Atom::Parent, opt_int_v(n.parent)),
        maps_key(for_v(n), Atom::Anchor, opt_int_v(n.anchor)),
{
    let ks = seq![
        Atom::Kind,
        Atom::Source,
        Atom::Value,
        Atom::Key,
        Atom::Index,
        Atom::KeyProp,
        Atom::Render,
        Atom::Once,
        Atom::Parent,
        Atom::Anchor,
    ];
    let vs = seq![
        TermV::Atom(Atom::ForNode),
        expr_v(n.source),
        opt_expr_v(n.value),
        opt_expr_v(n.key),
        opt_expr_v(n.index),
        opt_expr_v(n.key_prop),
        block_v(n.render),
        TermV::Bool(n.once),
        opt_int_v(n.parent),
        opt_int_v(n.anchor),
    ];
    assert(no_repeat(ks)) by {
        reveal_with_fuel(no_repeat, 11);
        reveal_with_fuel(has_atom, 11);
    }
    assert(for_v(n) == dict_v(ks, vs));
    lemma_dict_entry(ks, vs, 0);
    lemma_dict_entry(ks, vs, 1);
    lemma_dict_entry(ks, vs, 2);
    lemma_dict_entry(ks, vs, 3);
    lemma_dict_entry(ks, vs, 4);
    lemma_dict_entry(ks, vs, 5);
    lemma_dict_entry(ks, vs, 6);
    lemma_dict_entry(ks, vs, 7);
    lemma_dict_entry(ks, vs, 8);
    lemma_dict_entry(ks, vs, 9);
}

/// The `:kind` atom of each operation.
pub open spec fn op_kind(op: Operation) -> Atom {
    match op {
        Operation::SetProp { .. } => Atom::SetProp,
        Operation::SetDynamicProps { .. } => Atom::SetDynamicProps,
        Operation::SetText { .. } => Atom::SetText,
        Operation::SetEvent { .. } => Atom::SetEvent,
        Operation::SetHtml { .. } => Atom::SetHtml,
        Operation::SetTemplateRef { .. } => Atom::SetTemplateRef,
        Operation::InsertNode { .. } => Atom::InsertNode,
        Operation::PrependNode { .. } => Atom::PrependNode,
        Operation::Directive { .. } => Atom::Directive,
        Operation::If(_) => Atom::IfNode,
        Operation::For(_) => Atom::ForNode,
        Operation::CreateComponent(_) => Atom::CreateComponent,
        Operation::SlotOutlet { .. } => Atom::SlotOutlet,
        Operation::GetTextChild { .. } => Atom::GetTextChild,
        Operation::ChildRef { .. } => Atom::ChildRef,
        Operation::NextRef { .. } => Atom::NextRef,
    }
}

/// Every operation is a map whose first entry is `:kind`, with the atom that
/// names what the operation is.
pub proof fn lemma_op_kind(op: Operation)
    ensures
        op_v(op) matches TermV::Dict(ks, vs) && ks.len() == vs.len() && ks.len() > 0 && ks[0]
            == TermV::Atom(Atom::Kind) && vs[0] == TermV::Atom(op_kind(op)),
{
}

/// Encodes a simple expression (see [`expr_v`]).
pub fn encode_simple_expr(e: &Expr) -> (r: Term)
    ensures
        r@ == expr_v(*e),
{
    if e.is_static {
        let vals = vec![Term::Atom(Atom::Static), string_term(&e.content)];
        let ghost vv = vals@;
        proof {
            lemma_views(vv);
        }
        assert(views(vv) =~= seq![TermV::Atom(Atom::Static), TermV::Str(e.content@)]);
        Term::Tuple(vals)
    } else {
        string_term(&e.content)
    }
}

/// Encodes expressions as a list.
pub fn encode_exprs(es: &Vec<Expr>) -> (r: Term)
    ensures
        r@ == TermV::List(exprs_v(es@)),
{
    let mut out: Vec<Term> = Vec::new();
    let mut i: usize = 0;
    while i < es.len()
        invariant
            i <= es@.len(),
            views(out@) == exprs_v(es@.take(i as int)),
        decreases es@.len() - i,
    {
        push_term(&mut out, encode_simple_expr(&es[i]));
        i = i + 1;
        assert(exprs_v(es@.take(i as int)) =~= exprs_v(es@.take(i - 1)).push(expr_v(es@[i - 1])));
    }
    assert(es@.take(es@.len() as int) =~= es@);
    list(out)
}

pub fn encode_opt_expr(o: &Option<Expr>) -> (r: Term)
    ensures
        r@ == opt_expr_v(*o),
{
    match o {
        Some(e) => encode_simple_expr(e),
        None => Term::Nil,
    }
}

/// Encodes a property (see [`prop_v`]).
pub fn encode_ir_prop(p: &Prop) -> (r: Term)
    ensures
        r@ == prop_v(*p),
{
    let vals = vec![encode_simple_expr(&p.key), encode_exprs(&p.values), Term::Bool(p.is_component)];
    let ghost vv = vals@;
    let r = dict(vec![Atom::Key, Atom::Values, Atom::IsComponent], vals);
    assert(views(vv) =~= seq![expr_v(p.key), TermV::List(exprs_v(p.values@)), TermV::Bool(p.is_component)]);
    r
}

/// Encodes properties as a list.
pub fn encode_props(ps: &Vec<Prop>) -> (r: Term)
    ensures
        r@ == TermV::List(props_v(ps@)),
{
    let mut out: Vec<Term> = Vec::new();
    let mut i: usize = 0;
    while i < ps.len()
        invariant
            i <= ps@.len(),
            views(out@) == props_v(ps@.take(i as int)),
        decreases ps@.len() - i,
    {
        push_term(&mut out, encode_ir_prop(&ps[i]));
        i = i + 1;
        assert(props_v(ps@.take(i as int)) =~= props_v(ps@.take(i - 1)).push(prop_v(ps@[i - 1])));
    }
    assert(ps@.take(ps@.len() as int) =~= ps@);
    list(out)
}

/// The atom naming a component kind.
pub fn component_kind_atom(k: ComponentKind) -> (r: Atom)
    ensures
        r == kind_atom(k),
{
    match k {
        ComponentKind::Regular => Atom::Regular,
        ComponentKind::Teleport => Atom::Teleport,
        ComponentKind::KeepAlive => Atom::KeepAlive,
        ComponentKind::Suspense => Atom::Suspense,
        ComponentKind::Dynamic => Atom::Dynamic,
    }
}

/// The text of a compound expression (see [`compound_text`]).
pub fn join_compound(parts: &Vec<CompoundPart>) -> (r: String)
    ensures
        r@ == compound_text(parts@),
{
    let mut out = String::new();
    let mut i: usize = 0;
    while i < parts.len()
        invariant
            i <= parts@.len(),
            out@ == compound_text(parts@.take(i as int)),
        decreases parts@.len() - i,
    {
        match &parts[i] {
            CompoundPart::Simple(e) => out.append(e.content.as_str()),
            CompoundPart::Text(t) => out.append(t.as_str()),
            CompoundPart::Other => {},
        }
        i = i + 1;
        assert(parts@.take(i as int).drop_last() =~= parts@.take(i - 1));
    }
    assert(parts@.take(parts@.len() as int) =~= parts@);
    out
}

/// Encodes the expression of a directive (see [`dir_exp_v`]).
pub fn encode_dir_exp(o: &Option<DirectiveExp>) -> (r: Term)
    ensures
        r@ == dir_exp_v(*o),
{
    match o {
        Some(DirectiveExp::Simple(e)) => encode_simple_expr(e),
        Some(DirectiveExp::Compound(parts)) => Term::Str(join_compound(parts)),
        None => Term::Nil,
    }
}

/// Encodes one operation (see [`op_v`]).
pub fn encode_operation(op: &Operation) -> (r: Term)
    ensures
        r@ == op_v(*op),
    decreases op,
{
    match op {
        Operation::SetProp { element, prop, tag, camel, prop_modifier } => {
            let vals = vec![
                Term::Atom(Atom::SetProp),
                Term::Int(*element),
                string_term(tag),
                Term::Bool(*camel),
                Term::Bool(*prop_modifier),
                encode_ir_prop(prop),
            ];
            let ghost vv = vals@;
            let r = dict(
                vec![Atom::Kind, Atom::Element, Atom::Tag, Atom::Camel, Atom::PropModifier, Atom::Value],
                vals,
            );
            assert(views(vv) =~= seq![
                TermV::Atom(Atom::SetProp),
                TermV::Int(*element as int),
                TermV::Str(tag@),
                TermV::Bool(*camel),
                TermV::Bool(*prop_modifier),
                prop_v(*prop),
            ]);
            r
        },
        Operation::SetDynamicProps { element, props } => {
            let vals = vec![Term::Atom(Atom::SetDynamicProps), Term::Int(*element), encode_exprs(props)];
            let ghost vv = vals@;
            let r = dict(vec![Atom::Kind, Atom::Element, Atom::Props], vals);
            assert(views(vv) =~= seq![
                TermV::Atom(Atom::SetDynamicProps),
                TermV::Int(*element as int),
                TermV::List(exprs_v(props@)),
            ]);
            r
        },
        Operation::SetText { element, values } => {
            let vals = vec![Term::Atom(Atom::SetText), Term::Int(*element), encode_exprs(values)];
            let ghost vv = vals@;
            let r = dict(vec![Atom::Kind, Atom::Element, Atom::Values], vals);
            assert(views(vv) =~= seq![
                TermV::Atom(Atom::SetText),
                TermV::Int(*element as int),
                TermV::List(exprs_v(values@)),
            ]);
            r
        },
        Operation::SetEvent { element, key, value, delegate, effect } => {
            let vals = vec![
                Term::Atom(Atom::SetEvent),
                Term::Int(*element),
                encode_simple_expr(key),
                encode_opt_expr(value),
                Term::Bool(*delegate),
                Term::Bool(*effect),
            ];
            let ghost vv = vals@;
            let r = dict(
                vec![Atom::Kind, Atom::Element, Atom::Key, Atom::Value, Atom::Delegate, Atom::Effect],
                vals,
            );
            assert(views(vv) =~= seq![
                TermV::Atom(Atom::SetEvent),
                TermV::Int(*element as int),
                expr_v(*key),
                opt_expr_v(*value),
                TermV::Bool(*delegate),
                TermV::Bool(*effect),
            ]);
            r
        },
        Operation::SetHtml { element, value } => {
            let vals = vec![Term::Atom(Atom::SetHtml), Term::Int(*element), encode_simple_expr(value)];
            let ghost vv = vals@;
            let r = dict(vec![Atom::Kind, Atom::Element, Atom::Value], vals);
            assert(views(vv) =~= seq![
                TermV::Atom(Atom::SetHtml),
                TermV::Int(*element as int),
                expr_v(*value),
            ]);
            r
        },
        Operation::SetTemplateRef { element, value } => {
            let vals = vec![
                Term::Atom(Atom::SetTemplateRef),
                Term::Int(*element),
                encode_simple_expr(value),
            ];
            let ghost vv = vals@;
            let r = dict(vec![Atom::Kind, Atom::Element, Atom::Value], vals);
            assert(views(vv) =~= seq![
                TermV::Atom(Atom::SetTemplateRef),
                TermV::Int(*element as int),
                expr_v(*value),
            ]);
            r
        },
        Operation::InsertNode { elements, parent, anchor } => {
            let vals = vec![
                Term::Atom(Atom::InsertNode),
                int_list(elements),
                Term::Int(*parent),
                opt_int_term(*anchor),
            ];
            let ghost vv = vals@;
            let r = dict(vec![Atom::Kind, Atom::Element, Atom::Parent, Atom::Anchor], vals);
            assert(views(vv) =~= seq![
                TermV::Atom(Atom::InsertNode),
                TermV::List(ints_v(elements@)),
                TermV::Int(*parent as int),
                opt_int_v(*anchor),
            ]);
            r
        },
        Operation::PrependNode { elements, parent } => {
            let vals = vec![Term::Atom(Atom::PrependNode), int_list(elements), Term::Int(*parent)];
            let ghost vv = vals@;
            let r = dict(vec![Atom::Kind, Atom::Element, Atom::Parent], vals);
            assert(views(vv) =~= seq![
                TermV::Atom(Atom::PrependNode),
                TermV::List(ints_v(elements@)),
                TermV::Int(*parent as int),
            ]);
            r
        },
        Operation::Directive { element, name, tag, exp } => {
            let vals = vec![
                Term::Atom(Atom::Directive),
                Term::Int(*element),
                string_term(name),
                string_term(tag),
                encode_dir_exp(exp),
            ];
            let ghost vv = vals@;
            let r = dict(vec![Atom::Kind, Atom::Element, Atom::Name, Atom::Tag, Atom::Value], vals);
            assert(views(vv) =~= seq![
                TermV::Atom(Atom::Directive),
                TermV::Int(*element as int),
                TermV::Str(name@),
                TermV::Str(tag@),
                dir_exp_v(*exp),
            ]);
            r
        },
        Operation::If(n) => encode_if_node(n),
        Operation::For(n) => encode_for_node(n),
        Operation::CreateComponent(c) => {
            let vals = vec![
                Term::Atom(Atom::CreateComponent),
                string_term(&c.tag),
                encode_props(&c.props),
                Term::Bool(c.asset),
                Term::Bool(c.once),
                Term::Bool(c.dynamic_slots),
                opt_int_term(c.parent),
                opt_int_term(c.anchor),
                Term::Atom(component_kind_atom(c.kind)),
            ];
            let ghost vv = vals@;
            let r = dict(
                vec![
                    Atom::Kind,
                    Atom::Tag,
                    Atom::Props,
                    Atom::Asset,
                    Atom::Once,
                    Atom::DynamicSlots,
                    Atom::Parent,
                    Atom::Anchor,
                    Atom::Value,
                ],
                vals,
            );
            assert(views(vv) =~= seq![
                TermV::Atom(Atom::CreateComponent),
                TermV::Str(c.tag@),
                TermV::List(props_v(c.props@)),
                TermV::Bool(c.asset),
                TermV::Bool(c.once),
                TermV::Bool(c.dynamic_slots),
                opt_int_v(c.parent),
                opt_int_v(c.anchor),
                TermV::Atom(kind_atom(c.kind)),
            ]);
            r
        },
        Operation::SlotOutlet { name, props } => {
            let vals = vec![Term::Atom(Atom::SlotOutlet), encode_simple_expr(name), encode_props(props)];
            let ghost vv = vals@;
            let r = dict(vec![Atom::Kind, Atom::Name, Atom::Props], vals);
            assert(views(vv) =~= seq![
                TermV::Atom(Atom::SlotOutlet),
                expr_v(*name),
                TermV::List(props_v(props@)),
            ]);
            r
        },
        Operation::GetTextChild { parent } => {
            let vals = vec![Term::Atom(Atom::GetTextChild), Term::Int(*parent)];
            let ghost vv = vals@;
            let r = dict(vec![Atom::Kind, Atom::Parent], vals);
            assert(views(vv) =~= seq![TermV::Atom(Atom::GetTextChild), TermV::Int(*parent as int)]);
            r
        },
        Operation::ChildRef { child_id, parent_id, offset } => {
            let vals = vec![
                Term::Atom(Atom::ChildRef),
                Term::Int(*child_id),
                Term::Int(*parent_id),
                Term::Int(*offset),
            ];
            let ghost vv = vals@;
            let r = dict(vec![Atom::Kind, Atom::ChildId, Atom::ParentId, Atom::Offset], vals);
            assert(views(vv) =~= seq![
                TermV::Atom(Atom::ChildRef),
                TermV::Int(*child_id as int),
                TermV::Int(*parent_id as int),
                TermV::Int(*offset as int),
            ]);
            r
        },
        Operation::NextRef { child_id, prev_id, offset } => {
            let vals = vec![
                Term::Atom(Atom::NextRef),
                Term::Int(*child_id),
                Term::Int(*prev_id),
                Term::Int(*offset),
            ];
            let ghost vv = vals@;
            let r = dict(vec![Atom::Kind, Atom::ChildId, Atom::ParentId, Atom::Offset], vals);
            assert(views(vv) =~= seq![
                TermV::Atom(Atom::NextRef),
                TermV::Int(*child_id as int),
                TermV::Int(*prev_id as int),
                TermV::Int(*offset as int),
            ]);
            r
        },
    }
}

/// Encodes a sequence of operations, in order.
pub fn encode_operations(ops: &Vec<Operation>) -> (r: Term)
    ensures
        r@ == TermV::List(ops_v(ops@)),
    decreases ops,
{
    let mut out: Vec<Term> = Vec::new();
    let mut i: usize = 0;
    while i < ops.len()
        invariant
            i <= ops@.len(),
            views(out@) == ops_v(ops@.take(i as int)),
        decreases ops@.len() - i,
    {
        push_term(&mut out, encode_operation(&ops[i]));
        i = i + 1;
        assert(ops@.take(i as int).drop_last() =~= ops@.take(i - 1));
    }
    assert(ops@.take(ops@.len() as int) =~= ops@);
    list(out)
}

/// Encodes effects, each as the list of its operations.
pub fn encode_effects(effs: &Vec<Effect>) -> (r: Term)
    ensures
        r@ == TermV::List(effects_v(effs@)),
    decreases effs,
{
    let mut out: Vec<Term> = Vec::new();
    let mut i: usize = 0;
    while i < effs.len()
        invariant
            i <= effs@.len(),
            views(out@) == effects_v(effs@.take(i as int)),
        decreases effs@.len() - i,
    {
        push_term(&mut out, encode_operations(&effs[i].operations));
        i = i + 1;
        assert(effs@.take(i as int).drop_last() =~= effs@.take(i - 1));
    }
    assert(effs@.take(effs@.len() as int) =~= effs@);
    list(out)
}

/// Encodes a block (see [`block_v`]).
pub fn encode_block(b: &Block) -> (r: Term)
    ensures
        r@ == block_v(*b),
    decreases b,
{
    let vals = vec![encode_operations(&b.operation), encode_effects(&b.effect), int_list(&b.returns)];
    let ghost vv = vals@;
    let r = dict(vec![Atom::Operations, Atom::Effects, Atom::Returns], vals);
    assert(views(vv) =~= seq![
        TermV::List(ops_v(b.operation@)),
        TermV::List(effects_v(b.effect@)),
        TermV::List(ints_v(b.returns@)),
    ]);
    r
}

/// Encodes a `v-if` node (see [`if_v`]).
pub fn encode_if_node(n: &IfNode) -> (r: Term)
    ensures
        r@ == if_v(*n),
    decreases n,
{
    let negative = match &n.negative {
        Some(Negative::Block(b)) => encode_block(b),
        Some(Negative::If(m)) => encode_if_node(m),
        None => Term::Nil,
    };
    let ghost neg_v = negative_v(n.negative);
    assert(negative@ == neg_v);
    let vals = vec![
        Term::Atom(Atom::IfNode),
        encode_simple_expr(&n.condition),
        encode_block(&n.positive),
        negative,
        Term::Bool(n.once),
        opt_int_term(n.parent),
        opt_int_term(n.anchor),
    ];
    let ghost vv = vals@;
    let r = dict(
        vec![
            Atom::Kind,
            Atom::Condition,
            Atom::Positive,
            Atom::Negative,
            Atom::Once,
            Atom::Parent,
            Atom::Anchor,
        ],
        vals,
    );
    assert(views(vv) =~= seq![
        TermV::Atom(Atom::IfNode),
        expr_v(n.condition),
        block_v(n.positive),
        neg_v,
        TermV::Bool(n.once),
        opt_int_v(n.parent),
        opt_int_v(n.anchor),
    ]);
    r
}

/// Encodes a `v-for` node (see [`for_v`]).
pub fn encode_for_node(n: &ForNode) -> (r: Term)
    ensures
        r@ == for_v(*n),
        maps_key(r@, Atom::Source, expr_v(n.source)),
        maps_key(r@, Atom::Value, opt_expr_v(n.value)),
        maps_key(r@, Atom::Key, opt_expr_v(n.key)),
        maps_key(r@, Atom::Index, opt_expr_v(n.index)),
        maps_key(r@, Atom::KeyProp, opt_expr_v(n.key_prop)),
    decreases n,
{
    let vals = vec![
        Term::Atom(Atom::ForNode),
        encode_simple_expr(&n.source),
        encode_opt_expr(&n.value),
        encode_opt_expr(&n.key),
        encode_opt_expr(&n.index),
        encode_opt_expr(&n.key_prop),
        encode_block(&n.render),
        Term::Bool(n.once),
        opt_int_term(n.parent),
        opt_int_term(n.anchor),
    ];
    let ghost vv = vals@;
    let r = dict(
        vec![
            Atom::Kind,
            Atom::Source,
            Atom::Value,
            Atom::Key,
            Atom::Index,
            Atom::KeyProp,
            Atom::Render,
            Atom::Once,
            Atom::Parent,
            Atom::Anchor,
        ],
        vals,
    );
    assert(views(vv) =~= seq![
        TermV::Atom(Atom::ForNode),
        expr_v(n.source),
        opt_expr_v(n.value),
        opt_expr_v(n.key),
        opt_expr_v(n.index),
        opt_expr_v(n.key_prop),
        block_v(n.render),
        TermV::Bool(n.once),
        opt_int_v(n.parent),
        opt_int_v(n.anchor),
    ]);
    proof {
        lemma_for_entries(*n);
    }
    r
}

} // verus!
