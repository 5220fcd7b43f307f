use vize_ex_nif::ir::{
    Block, Component, ComponentKind, DirectiveExp, Effect, Expr, IfNode, Negative, Operation, Prop,
    VaporRoot,
};
use vize_ex_nif::markers::{PROP_MARKER, STRUCT_MARKER, TEXT_MARKER};
use vize_ex_nif::split::process_block;
use vize_ex_nif::term::{Atom, Term};
use vize_ex_nif::vapor::{vapor_ir, vapor_ir_source, vapor_split, vapor_split_source};

fn expr(s: &str) -> Expr {
    Expr { content: s.to_string(), is_static: false }
}

fn block(returns: Vec<usize>, operation: Vec<Operation>, effects: Vec<Operation>) -> Block {
    let effect = if effects.is_empty() { vec![] } else { vec![Effect { operations: effects }] };
    Block { operation, effect, returns }
}

fn root(templates: &[&str], block: Block) -> VaporRoot {
    VaporRoot {
        templates: templates.iter().map(|t| t.to_string()).collect(),
        components: vec![],
        directives: vec![],
        block,
        element_template_map: (0..templates.len()).map(|i| (i, i)).collect(),
    }
}

fn get<'a>(t: &'a Term, key: Atom) -> &'a Term {
    match t {
        Term::Dict(ks, vs) => {
            for (k, v) in ks.iter().zip(vs.iter()) {
                if let Term::Atom(a) = k {
                    if *a == key {
                        return v;
                    }
                }
            }
            panic!("no key {:?} in {:?}", key, t)
        }
        _ => panic!("not a map: {:?}", t),
    }
}

fn strs(t: &Term) -> Vec<String> {
    match t {
        Term::List(v) => v
            .iter()
            .map(|x| match x {
                Term::Str(s) => s.clone(),
                other => panic!("not a string: {:?}", other),
            })
            .collect(),
        _ => panic!("not a list: {:?}", t),
    }
}

fn slot_kind(t: &Term) -> Atom {
    match get(t, Atom::Kind) {
        Term::Atom(a) => *a,
        other => panic!("kind is not an atom: {:?}", other),
    }
}

fn ok_value(t: &Term) -> &Term {
    match t {
        Term::Tuple(v) if v.len() == 2 && matches!(v[0], Term::Atom(Atom::OkTag)) => &v[1],
        _ => panic!("not {{:ok, _}}: {:?}", t),
    }
}

#[test]
fn text_effect_replaces_the_placeholder_space() {
    let b = block(vec![0], vec![], vec![Operation::SetText { element: 0, values: vec![expr("msg")] }]);
    let r = root(&["<div> </div>"], b);
    let (statics, slots) = process_block(&r.block, &r);
    assert_eq!(statics, vec!["<div>".to_string(), "</div>".to_string()]);
    assert_eq!(slots.len(), 1);
    assert_eq!(slot_kind(&slots[0]), Atom::SetText);
    assert_eq!(strs(get(&slots[0], Atom::Values)), vec!["msg".to_string()]);
}

#[test]
fn text_effect_without_a_space_still_has_a_slot() {
    let b = block(vec![0], vec![], vec![Operation::SetText { element: 0, values: vec![expr("m")] }]);
    let r = root(&["<div></div>"], b);
    let (statics, slots) = process_block(&r.block, &r);
    assert_eq!(statics, vec!["<div></div>".to_string()]);
    assert_eq!(slots.len(), 1);
}

#[test]
fn events_become_phx_attributes_and_props_become_markers() {
    let ev = Operation::SetEvent {
        element: 0,
        key: expr("click"),
        value: Some(expr("inc")),
        delegate: false,
        effect: false,
    };
    let prop = Operation::SetProp {
        element: 0,
        prop: Prop { key: expr("class"), values: vec![expr("cls")], is_component: false },
        tag: "button".to_string(),
        camel: false,
        prop_modifier: false,
    };
    let r = root(&["<button>go</button>"], block(vec![0], vec![ev], vec![prop]));
    let (statics, slots) = process_block(&r.block, &r);
    assert_eq!(
        statics,
        vec!["<button phx-click=\"inc\" class=\"".to_string(), "\">go</button>".to_string()]
    );
    assert_eq!(slots.len(), 1);
    assert_eq!(slot_kind(&slots[0]), Atom::SetProp);
    assert_eq!(strs(get(&slots[0], Atom::Values)), vec!["cls".to_string()]);
}

#[test]
fn event_handler_defaults_to_the_event_name() {
    let ev = Operation::SetEvent { element: 0, key: expr("submit"), value: None, delegate: false, effect: false };
    let r = root(&["<form></form>"], block(vec![0], vec![ev], vec![]));
    let (statics, slots) = process_block(&r.block, &r);
    assert_eq!(statics, vec!["<form phx-submit=\"submit\"></form>".to_string()]);
    assert!(slots.is_empty());
}

#[test]
fn props_are_marked_in_element_order() {
    let prop = |element: usize, key: &str, value: &str| Operation::SetProp {
        element,
        prop: Prop { key: expr(key), values: vec![expr(value)], is_component: false },
        tag: String::new(),
        camel: false,
        prop_modifier: false,
    };
    let child = Operation::ChildRef { child_id: 1, parent_id: 0, offset: 0 };
    let r = root(
        &["<div><a></a></div>"],
        block(vec![0], vec![child], vec![prop(1, "href", "u"), prop(0, "id", "i")]),
    );
    let (statics, slots) = process_block(&r.block, &r);
    assert_eq!(
        statics,
        vec!["<div id=\"".to_string(), "\"><a href=\"".to_string(), "\"></a></div>".to_string()]
    );
    assert_eq!(strs(get(&slots[0], Atom::Values)), vec!["i".to_string()]);
    assert_eq!(strs(get(&slots[1], Atom::Values)), vec!["u".to_string()]);
}

#[test]
fn v_show_binds_the_style_attribute() {
    let dir = Operation::Directive {
        element: 0,
        name: "vShow".to_string(),
        tag: "p".to_string(),
        exp: Some(DirectiveExp::Simple(expr("visible"))),
    };
    let r = root(&["<p>t</p>"], block(vec![0], vec![dir], vec![]));
    let (statics, slots) = process_block(&r.block, &r);
    assert_eq!(statics, vec!["<p style=\"".to_string(), "\">t</p>".to_string()]);
    assert_eq!(slot_kind(&slots[0]), Atom::VShow);
    assert!(matches!(get(&slots[0], Atom::Value), Term::Str(s) if s == "visible"));
}

#[test]
fn v_model_binds_the_value_and_a_change_handler() {
    let dir = Operation::Directive {
        element: 0,
        name: "model".to_string(),
        tag: "input".to_string(),
        exp: Some(DirectiveExp::Simple(expr("name"))),
    };
    let r = root(&["<input>"], block(vec![0], vec![dir], vec![]));
    let (statics, slots) = process_block(&r.block, &r);
    assert_eq!(
        statics,
        vec!["<input value=\"".to_string(), "\" phx-change=\"name_changed\">".to_string()]
    );
    assert_eq!(slots.len(), 1);
    assert_eq!(slot_kind(&slots[0]), Atom::VModel);
}

#[test]
fn other_directives_are_left_alone() {
    let dir = Operation::Directive { element: 0, name: "focus".to_string(), tag: "input".to_string(), exp: None };
    let r = root(&["<input>"], block(vec![0], vec![dir], vec![]));
    let (statics, slots) = process_block(&r.block, &r);
    assert_eq!(statics, vec!["<input>".to_string()]);
    assert!(slots.is_empty());
}

#[test]
fn v_if_inside_a_parent_splits_its_branch_in_turn() {
    let positive = block(vec![1], vec![], vec![]);
    let node = IfNode {
        condition: expr("ok"),
        positive,
        negative: None,
        once: false,
        parent: Some(0),
        anchor: None,
    };
    let r = root(&["<div></div>", "<span>yes</span>"], block(vec![0], vec![Operation::If(Box::new(node))], vec![]));
    let (statics, slots) = process_block(&r.block, &r);
    assert_eq!(statics, vec!["<div>".to_string(), "</div>".to_string()]);
    assert_eq!(slots.len(), 1);
    assert_eq!(slot_kind(&slots[0]), Atom::IfNode);
    let pos = get(&slots[0], Atom::Positive);
    assert_eq!(strs(get(pos, Atom::Statics)), vec!["<span>yes</span>".to_string()]);
    assert!(matches!(get(&slots[0], Atom::Negative), Term::Nil));
}

#[test]
fn v_else_branch_and_nested_else_if_are_split_too() {
    let else_block = Negative::Block(block(vec![2], vec![], vec![]));
    let inner = IfNode { condition: expr("b"), positive: block(vec![1], vec![], vec![]), negative: Some(else_block), once: false, parent: None, anchor: None };
    let outer = IfNode {
        condition: expr("a"),
        positive: block(vec![0], vec![], vec![]),
        negative: Some(Negative::If(Box::new(inner))),
        once: false,
        parent: None,
        anchor: None,
    };
    let r = root(&["<i>a</i>", "<i>b</i>", "<i>c</i>"], block(vec![], vec![Operation::If(Box::new(outer))], vec![]));
    let (statics, slots) = process_block(&r.block, &r);
    assert_eq!(statics, vec![String::new(), String::new()]);
    let neg = get(&slots[0], Atom::Negative);
    assert_eq!(slot_kind(neg), Atom::IfNode);
    let last = get(neg, Atom::Negative);
    assert_eq!(strs(get(last, Atom::Statics)), vec!["<i>c</i>".to_string()]);
}

#[test]
fn component_at_the_root_goes_at_the_end() {
    let comp = Component {
        tag: "Foo".to_string(),
        props: vec![],
        asset: true,
        once: false,
        dynamic_slots: false,
        kind: ComponentKind::Teleport,
        parent: None,
        anchor: None,
    };
    let r = root(&["<p>x</p>"], block(vec![0], vec![Operation::CreateComponent(comp)], vec![]));
    let (statics, slots) = process_block(&r.block, &r);
    assert_eq!(statics, vec!["<p>x</p>".to_string(), String::new()]);
    assert_eq!(slot_kind(&slots[0]), Atom::CreateComponent);
    assert!(matches!(get(&slots[0], Atom::Value), Term::Atom(Atom::Teleport)));
    assert!(matches!(get(&slots[0], Atom::Tag), Term::Str(s) if s == "Foo"));
}

#[test]
fn a_block_with_nothing_dynamic_is_its_template() {
    let r = root(&["<h1>Title</h1>", "<p>body</p>"], block(vec![0, 1], vec![], vec![]));
    let (statics, slots) = process_block(&r.block, &r);
    assert_eq!(statics, vec!["<h1>Title</h1><p>body</p>".to_string()]);
    assert!(slots.is_empty());
}

#[test]
fn element_without_a_template_entry_uses_its_own_index() {
    let mut r = root(&["<a></a>", "<b></b>"], block(vec![1], vec![], vec![]));
    r.element_template_map = vec![];
    let (statics, _) = process_block(&r.block, &r);
    assert_eq!(statics, vec!["<b></b>".to_string()]);
    r.element_template_map = vec![(1, 0)];
    let (statics, _) = process_block(&r.block, &r);
    assert_eq!(statics, vec!["<a></a>".to_string()]);
    r.element_template_map = vec![(1, 7)];
    let (statics, _) = process_block(&r.block, &r);
    assert_eq!(statics, vec![String::new()]);
}

#[test]
fn vapor_split_answer_carries_templates_and_element_map() {
    let b = block(vec![0], vec![], vec![Operation::SetText { element: 0, values: vec![expr("msg")] }]);
    let r = root(&["<div> </div>"], b);
    let t = vapor_split(&Ok(r));
    let m = ok_value(&t);
    assert_eq!(strs(get(m, Atom::Statics)), vec!["<div>".to_string(), "</div>".to_string()]);
    assert_eq!(strs(get(m, Atom::Templates)), vec!["<div> </div>".to_string()]);
    match get(m, Atom::ElementTemplateMap) {
        Term::List(v) => {
            assert_eq!(v.len(), 1);
            assert!(matches!(&v[0], Term::Tuple(p) if matches!(p.as_slice(), [Term::Int(0), Term::Int(0)])));
        }
        other => panic!("{:?}", other),
    }
}

#[test]
fn vapor_answers_report_parse_errors() {
    let errs: Result<VaporRoot, Vec<String>> = Err(vec!["bad".to_string()]);
    for t in [vapor_split(&errs), vapor_ir(&errs)] {
        match t {
            Term::Tuple(v) => {
                assert!(matches!(v[0], Term::Atom(Atom::ErrorTag)));
                assert_eq!(strs(&v[1]), vec!["bad".to_string()]);
            }
            other => panic!("{:?}", other),
        }
    }
}

#[test]
fn vapor_ir_answer_has_the_readme_keys() {
    let r = root(&["<div> </div>"], block(vec![0], vec![], vec![]));
    let t = vapor_ir(&Ok(r));
    let m = ok_value(&t);
    assert_eq!(strs(get(m, Atom::Templates)), vec!["<div> </div>".to_string()]);
    let b = get(m, Atom::Block);
    assert!(matches!(get(b, Atom::Operations), Term::List(v) if v.is_empty()));
    assert!(matches!(get(b, Atom::Returns), Term::List(v) if matches!(v.as_slice(), [Term::Int(0)])));
}

#[test]
fn statics_rejoined_with_their_markers_give_the_marked_html() {
    let prop = Operation::SetProp {
        element: 0,
        prop: Prop { key: expr("title"), values: vec![expr("t")], is_component: false },
        tag: String::new(),
        camel: false,
        prop_modifier: false,
    };
    let text = Operation::SetText { element: 0, values: vec![expr("msg")] };
    let comp = Component {
        tag: "Child".to_string(),
        props: vec![],
        asset: false,
        once: false,
        dynamic_slots: false,
        kind: ComponentKind::Regular,
        parent: Some(0),
        anchor: None,
    };
    let r = root(&["<p> </p>"], block(vec![0], vec![Operation::CreateComponent(comp)], vec![prop, text]));
    let (statics, slots) = process_block(&r.block, &r);
    assert_eq!(statics.len(), 4);
    assert_eq!(slots.len(), 3);
    let joined = format!("{}{}{}{}{}{}{}", statics[0], PROP_MARKER, statics[1], TEXT_MARKER, statics[2], STRUCT_MARKER, statics[3]);
    assert_eq!(joined, format!("<p title=\"{}\">{}{}</p>", PROP_MARKER, TEXT_MARKER, STRUCT_MARKER));
}

#[test]
fn vapor_ir_source_lowers_a_template() {
    let t = vapor_ir_source("<div :class=\"cls\">{{ msg }}</div>");
    let m = ok_value(&t);
    let templates = strs(get(m, Atom::Templates));
    assert!(!templates.is_empty());
    assert!(templates[0].starts_with("<div"));
    let b = get(m, Atom::Block);
    assert!(matches!(get(b, Atom::Returns), Term::List(v) if v.len() == 1));
}

#[test]
fn vapor_split_source_splits_a_template() {
    let t = vapor_split_source("<div :class=\"cls\">{{ msg }}</div>");
    let m = ok_value(&t);
    let statics = strs(get(m, Atom::Statics));
    assert!(statics.len() >= 2);
    assert!(statics[0].starts_with("<div"));
    assert!(matches!(get(m, Atom::Slots), Term::List(v) if !v.is_empty()));
}

#[test]
fn vapor_sources_report_an_unclosed_element() {
    for t in [vapor_ir_source("<div>"), vapor_split_source("<div>")] {
        match &t {
            Term::Tuple(v) => {
                assert!(matches!(v[0], Term::Atom(Atom::ErrorTag)));
                assert!(strs(&v[1]).contains(&"Element is missing end tag.".to_string()), "{:?}", t);
            }
            other => panic!("{:?}", other),
        }
    }
}
