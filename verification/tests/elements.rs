use std::collections::HashMap;
use vize_ex_nif::elements::build_elem_to_tag;
use vize_ex_nif::html::parse_tag_tree;
use vize_ex_nif::ir::Operation;

fn chars(s: &str) -> Vec<char> {
    s.chars().collect()
}

fn pairs(m: &HashMap<usize, usize>) -> Vec<(usize, usize)> {
    let mut v: Vec<(usize, usize)> = m.iter().map(|(k, v)| (*k, *v)).collect();
    v.sort();
    v
}

#[test]
fn roots_children_and_siblings_map_to_their_tags() {
    let tags = parse_tag_tree(&chars("<div><span></span><b></b></div>"));
    let ops = vec![
        Operation::ChildRef { child_id: 1, parent_id: 0, offset: 0 },
        Operation::NextRef { child_id: 2, prev_id: 1, offset: 1 },
    ];
    let m = build_elem_to_tag(&vec![0], &ops, &tags);
    assert_eq!(pairs(&m), vec![(0, 0), (1, 1), (2, 2)]);
}

#[test]
fn references_resolve_whatever_order_they_come_in() {
    let tags = parse_tag_tree(&chars("<div><span></span><b></b></div>"));
    let ops = vec![
        Operation::NextRef { child_id: 2, prev_id: 1, offset: 1 },
        Operation::ChildRef { child_id: 1, parent_id: 0, offset: 0 },
    ];
    let m = build_elem_to_tag(&vec![0], &ops, &tags);
    assert_eq!(pairs(&m), vec![(0, 0), (1, 1), (2, 2)]);
}

#[test]
fn several_roots_take_the_root_tags_in_order() {
    let tags = parse_tag_tree(&chars("<p></p><i></i>"));
    let m = build_elem_to_tag(&vec![5, 9], &vec![], &tags);
    assert_eq!(pairs(&m), vec![(5, 0), (9, 1)]);
}

#[test]
fn references_past_the_last_child_are_left_out() {
    let tags = parse_tag_tree(&chars("<div><span></span></div>"));
    let ops = vec![
        Operation::ChildRef { child_id: 1, parent_id: 0, offset: 3 },
        Operation::NextRef { child_id: 2, prev_id: 0, offset: 1 },
        Operation::ChildRef { child_id: 3, parent_id: 42, offset: 0 },
    ];
    let m = build_elem_to_tag(&vec![0], &ops, &tags);
    assert_eq!(pairs(&m), vec![(0, 0)]);
}

#[test]
fn roots_without_a_tag_are_left_out() {
    let tags = parse_tag_tree(&chars("<p></p>"));
    let m = build_elem_to_tag(&vec![0, 1], &vec![], &tags);
    assert_eq!(pairs(&m), vec![(0, 0)]);
}

#[test]
fn other_operations_leave_the_map_as_it_is() {
    let tags = parse_tag_tree(&chars("<div><span></span><b></b></div>"));
    let refs = vec![
        Operation::ChildRef { child_id: 1, parent_id: 0, offset: 0 },
        Operation::NextRef { child_id: 2, prev_id: 1, offset: 1 },
    ];
    let mixed = vec![
        Operation::SetText { element: 0, values: vec![] },
        Operation::ChildRef { child_id: 1, parent_id: 0, offset: 0 },
        Operation::SetText { element: 1, values: vec![] },
        Operation::NextRef { child_id: 2, prev_id: 1, offset: 1 },
    ];
    let a = build_elem_to_tag(&vec![0], &refs, &tags);
    let b = build_elem_to_tag(&vec![0], &mixed, &tags);
    assert_eq!(pairs(&a), pairs(&b));
    for k in b.keys() {
        assert!(*k == 0 || *k == 1 || *k == 2);
    }
}
