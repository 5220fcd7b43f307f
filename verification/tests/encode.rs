use vize_ex_nif::encode::{
    encode_block, encode_dir_exp, encode_for_node, encode_if_node, encode_ir_prop, encode_operation,
    encode_simple_expr, join_compound,
};
use vize_ex_nif::ir::{
    Block, Component, ComponentKind, CompoundPart, DirectiveExp, Effect, Expr, ForNode, IfNode,
    Negative, Operation, Prop,
};
use vize_ex_nif::term::{Atom, Term};

fn dynamic(s: &str) -> Expr {
    Expr { content: s.to_string(), is_static: false }
}

fn keys(t: &Term) -> Vec<Atom> {
    match t {
        Term::Dict(ks, _) => ks
            .iter()
            .map(|k| match k {
                Term::Atom(a) => *a,
                other => panic!("{:?}", other),
            })
            .collect(),
        other => panic!("not a map: {:?}", other),
    }
}

fn get<'a>(t: &'a Term, key: Atom) -> &'a Term {
    match t {
        Term::Dict(ks, vs) => {
            let i = ks.iter().position(|k| matches!(k, Term::Atom(a) if *a == key)).expect("key");
            &vs[i]
        }
        other => panic!("not a map: {:?}", other),
    }
}

fn empty_block() -> Block {
    Block { operation: vec![], effect: vec![], returns: vec![] }
}

#[test]
fn static_expressions_are_tagged_and_dynamic_ones_are_plain() {
    let s = encode_simple_expr(&Expr { content: "hi".to_string(), is_static: true });
    assert!(matches!(&s, Term::Tuple(v) if matches!(v.as_slice(), [Term::Atom(Atom::Static), Term::Str(x)] if x == "hi")));
    let d = encode_simple_expr(&dynamic("count + 1"));
    assert!(matches!(&d, Term::Str(x) if x == "count + 1"));
}

#[test]
fn props_have_key_values_and_component_flag() {
    let p = encode_ir_prop(&Prop { key: dynamic("id"), values: vec![dynamic("a"), dynamic("b")], is_component: true });
    assert_eq!(keys(&p), vec![Atom::Key, Atom::Values, Atom::IsComponent]);
    assert!(matches!(get(&p, Atom::Values), Term::List(v) if v.len() == 2));
    assert!(matches!(get(&p, Atom::IsComponent), Term::Bool(true)));
}

#[test]
fn each_operation_is_a_map_tagged_by_kind() {
    let cases: Vec<(Operation, Atom, Vec<Atom>)> = vec![
        (
            Operation::SetText { element: 3, values: vec![dynamic("msg")] },
            Atom::SetText,
            vec![Atom::Kind, Atom::Element, Atom::Values],
        ),
        (
            Operation::SetHtml { element: 1, value: dynamic("raw") },
            Atom::SetHtml,
            vec![Atom::Kind, Atom::Element, Atom::Value],
        ),
        (
            Operation::InsertNode { elements: vec![1, 2], parent: 0, anchor: None },
            Atom::InsertNode,
            vec![Atom::Kind, Atom::Element, Atom::Parent, Atom::Anchor],
        ),
        (
            Operation::GetTextChild { parent: 4 },
            Atom::GetTextChild,
            vec![Atom::Kind, Atom::Parent],
        ),
        (
            Operation::ChildRef { child_id: 2, parent_id: 1, offset: 0 },
            Atom::ChildRef,
            vec![Atom::Kind, Atom::ChildId, Atom::ParentId, Atom::Offset],
        ),
    ];
    for (op, kind, ks) in cases {
        let t = encode_operation(&op);
        assert_eq!(keys(&t), ks);
        assert!(matches!(get(&t, Atom::Kind), Term::Atom(a) if *a == kind));
    }
}

#[test]
fn next_ref_reports_its_previous_element_as_parent_id() {
    let t = encode_operation(&Operation::NextRef { child_id: 5, prev_id: 4, offset: 2 });
    assert!(matches!(get(&t, Atom::Kind), Term::Atom(Atom::NextRef)));
    assert!(matches!(get(&t, Atom::ParentId), Term::Int(4)));
    assert!(matches!(get(&t, Atom::Offset), Term::Int(2)));
}

#[test]
fn set_event_without_a_handler_has_nil_value() {
    let t = encode_operation(&Operation::SetEvent { element: 0, key: dynamic("click"), value: None, delegate: true, effect: false });
    assert!(matches!(get(&t, Atom::Value), Term::Nil));
    assert!(matches!(get(&t, Atom::Delegate), Term::Bool(true)));
}

#[test]
fn component_kind_is_its_atom() {
    let c = Component {
        tag: "KeepAlive".to_string(),
        props: vec![],
        asset: false,
        once: false,
        dynamic_slots: false,
        kind: ComponentKind::KeepAlive,
        parent: Some(0),
        anchor: None,
    };
    let t = encode_operation(&Operation::CreateComponent(c));
    assert!(matches!(get(&t, Atom::Value), Term::Atom(Atom::KeepAlive)));
    assert!(matches!(get(&t, Atom::Parent), Term::Int(0)));
    assert!(matches!(get(&t, Atom::Anchor), Term::Nil));
}

#[test]
fn compound_directive_expressions_are_joined() {
    let parts = vec![CompoundPart::Simple(dynamic("a")), CompoundPart::Text(" + ".to_string()), CompoundPart::Other, CompoundPart::Simple(dynamic("b"))];
    assert_eq!(join_compound(&parts), "a + b");
    assert!(matches!(encode_dir_exp(&Some(DirectiveExp::Compound(parts))), Term::Str(s) if s == "a + b"));
    assert!(matches!(encode_dir_exp(&None), Term::Nil));
}

#[test]
fn block_lists_operations_effects_and_returns() {
    let b = Block {
        operation: vec![Operation::GetTextChild { parent: 0 }],
        effect: vec![Effect { operations: vec![Operation::SetText { element: 0, values: vec![] }] }, Effect { operations: vec![] }],
        returns: vec![0, 7],
    };
    let t = encode_block(&b);
    assert_eq!(keys(&t), vec![Atom::Operations, Atom::Effects, Atom::Returns]);
    assert!(matches!(get(&t, Atom::Effects), Term::List(v) if v.len() == 2 && matches!(&v[1], Term::List(w) if w.is_empty())));
    assert!(matches!(get(&t, Atom::Returns), Term::List(v) if matches!(v.as_slice(), [Term::Int(0), Term::Int(7)])));
}

#[test]
fn nested_else_if_is_encoded_as_an_if_node() {
    let inner = IfNode { condition: dynamic("b"), positive: empty_block(), negative: Some(Negative::Block(empty_block())), once: false, parent: None, anchor: None };
    let outer = IfNode { condition: dynamic("a"), positive: empty_block(), negative: Some(Negative::If(Box::new(inner))), once: true, parent: Some(1), anchor: Some(2) };
    let t = encode_if_node(&outer);
    assert_eq!(keys(&t), vec![Atom::Kind, Atom::Condition, Atom::Positive, Atom::Negative, Atom::Once, Atom::Parent, Atom::Anchor]);
    let neg = get(&t, Atom::Negative);
    assert!(matches!(get(neg, Atom::Kind), Term::Atom(Atom::IfNode)));
    assert_eq!(keys(get(neg, Atom::Negative)), vec![Atom::Operations, Atom::Effects, Atom::Returns]);
}

#[test]
fn for_node_fills_missing_aliases_with_nil() {
    let n = ForNode {
        source: dynamic("items"),
        value: Some(dynamic("item")),
        key: None,
        index: None,
        key_prop: Some(dynamic("item.id")),
        render: empty_block(),
        once: false,
        parent: None,
        anchor: None,
    };
    let t = encode_for_node(&n);
    assert_eq!(keys(&t), vec![Atom::Kind, Atom::Source, Atom::Value, Atom::Key, Atom::Index, Atom::KeyProp, Atom::Render, Atom::Once, Atom::Parent, Atom::Anchor]);
    assert!(matches!(get(&t, Atom::Key), Term::Nil));
    assert!(matches!(get(&t, Atom::KeyProp), Term::Str(s) if s == "item.id"));
}

#[test]
fn atom_names_are_the_elixir_atoms() {
    assert_eq!(Atom::OkTag.name(), "ok");
    assert_eq!(Atom::Static.name(), "static");
    assert_eq!(Atom::End.name(), "end_");
    assert_eq!(Atom::ElementTemplateMap.name(), "element_template_map");
    assert_eq!(Atom::VShow.name(), "v_show");
}
