use vize_ex_nif::html::{inject_attr, inject_before_close, is_void_element, parse_tag_tree, TagEntry};

fn chars(s: &str) -> Vec<char> {
    s.chars().collect()
}

fn text(v: &[char]) -> String {
    v.iter().collect()
}

fn shape(t: &TagEntry) -> (usize, String, Option<usize>, usize, usize, usize, Option<usize>) {
    (t.pos, t.name.clone(), t.parent, t.child_index, t.open_start, t.open_end, t.close_start)
}

#[test]
fn void_elements_are_known() {
    for name in ["area", "base", "br", "col", "embed", "hr", "img", "input", "link", "meta", "param", "source", "track", "wbr"] {
        assert!(is_void_element(name), "{name}");
    }
    for name in ["div", "span", "p", "template", "Br", ""] {
        assert!(!is_void_element(name), "{name}");
    }
}

#[test]
fn tag_tree_records_parents_children_and_offsets() {
    let html = chars("<div><span>a</span><br><img/></div><p></p>");
    let tags = parse_tag_tree(&html);
    let got: Vec<_> = tags.iter().map(shape).collect();
    assert_eq!(
        got,
        vec![
            (0, "div".to_string(), None, 0, 0, 5, Some(29)),
            (1, "span".to_string(), Some(0), 0, 5, 11, Some(12)),
            (2, "br".to_string(), Some(0), 1, 19, 23, None),
            (3, "img".to_string(), Some(0), 2, 23, 29, None),
            (4, "p".to_string(), None, 1, 35, 38, Some(38)),
        ]
    );
}

#[test]
fn tag_tree_reads_attributes_past_the_name() {
    let html = chars("<a href=\"x\">y</a>");
    let tags = parse_tag_tree(&html);
    assert_eq!(tags.len(), 1);
    assert_eq!(shape(&tags[0]), (0, "a".to_string(), None, 0, 0, 12, Some(13)));
}

#[test]
fn tag_tree_of_text_without_tags_is_empty() {
    assert!(parse_tag_tree(&chars("just text")).is_empty());
    assert!(parse_tag_tree(&chars("")).is_empty());
}

#[test]
fn unclosed_tag_at_the_end_stays_open() {
    let tags = parse_tag_tree(&chars("<div><b"));
    let got: Vec<_> = tags.iter().map(shape).collect();
    assert_eq!(
        got,
        vec![
            (0, "div".to_string(), None, 0, 0, 5, None),
            (1, "b".to_string(), Some(0), 0, 5, 7, None),
        ]
    );
}

#[test]
fn inject_attr_goes_before_the_closing_angle_and_moves_later_offsets() {
    let mut html = chars("<div><p>x</p></div>");
    let mut tags = parse_tag_tree(&html);
    inject_attr(&mut html, &mut tags, 1, &chars(" id=\"a\""));
    assert_eq!(text(&html), "<div><p id=\"a\">x</p></div>");
    let got: Vec<_> = tags.iter().map(shape).collect();
    assert_eq!(
        got,
        vec![
            (0, "div".to_string(), None, 0, 0, 5, Some(20)),
            (1, "p".to_string(), Some(0), 0, 5, 15, Some(16)),
        ]
    );
    assert_eq!(
        tags.iter().map(shape).collect::<Vec<_>>(),
        parse_tag_tree(&html).iter().map(shape).collect::<Vec<_>>()
    );
}

#[test]
fn inject_before_close_goes_before_the_closing_tag() {
    let mut html = chars("<div><p>x</p></div>");
    let mut tags = parse_tag_tree(&html);
    inject_before_close(&mut html, &mut tags, 0, &chars("M"));
    assert_eq!(text(&html), "<div><p>x</p>M</div>");
    assert_eq!(tags[0].close_start, Some(14));
    assert_eq!(tags[1].close_start, Some(9));
}

#[test]
fn inject_before_close_of_a_void_tag_goes_after_it() {
    let mut html = chars("<div><br></div>");
    let mut tags = parse_tag_tree(&html);
    inject_before_close(&mut html, &mut tags, 1, &chars("M"));
    assert_eq!(text(&html), "<div><br>M</div>");
    assert_eq!(tags[0].close_start, Some(10));
}

#[test]
fn injecting_into_a_missing_tag_changes_nothing() {
    let mut html = chars("<div></div>");
    let mut tags = parse_tag_tree(&html);
    inject_attr(&mut html, &mut tags, 7, &chars(" x"));
    inject_before_close(&mut html, &mut tags, 7, &chars("y"));
    assert_eq!(text(&html), "<div></div>");
    assert_eq!(shape(&tags[0]), (0, "div".to_string(), None, 0, 0, 5, Some(5)));
}

#[test]
fn injected_trees_match_reading_the_html_again() {
    let mut html = chars("<ul><li a=\"1\">x</li><li>y</li></ul><p></p>");
    let mut tags = parse_tag_tree(&html);
    inject_attr(&mut html, &mut tags, 2, &chars(" data-k=\"v\""));
    inject_before_close(&mut html, &mut tags, 0, &chars("\u{0}STRUCT\u{0}"));
    inject_attr(&mut html, &mut tags, 3, &chars(" id=\"q\""));
    inject_before_close(&mut html, &mut tags, 1, &chars("tail"));
    assert_eq!(
        text(&html),
        "<ul><li a=\"1\">xtail</li><li data-k=\"v\">y</li>\u{0}STRUCT\u{0}</ul><p id=\"q\"></p>"
    );
    assert_eq!(
        tags.iter().map(shape).collect::<Vec<_>>(),
        parse_tag_tree(&html).iter().map(shape).collect::<Vec<_>>()
    );
}

#[test]
fn tag_tree_opens_at_angles_in_order() {
    let html = chars("<div a=\"x>y\">1 / 2 > 0<p>q</p><br/></div>");
    let tags = parse_tag_tree(&html);
    assert_eq!(tags.len(), 3);
    for (k, t) in tags.iter().enumerate() {
        assert_eq!(t.pos, k);
        assert_eq!(html[t.open_start], '<');
        assert_ne!(html.get(t.open_start + 1), Some(&'/'));
        assert!(t.open_start < t.open_end && t.open_end <= html.len());
        if k > 0 {
            assert!(tags[k - 1].open_end <= t.open_start);
        }
    }
}

#[test]
fn content_with_angles_and_slashes_before_a_closing_tag_reparses() {
    let mut html = chars("<div><p>x</p></div>");
    let mut tags = parse_tag_tree(&html);
    inject_before_close(&mut html, &mut tags, 1, &chars(" a > b / c"));
    assert_eq!(text(&html), "<div><p>x a > b / c</p></div>");
    assert_eq!(tags[1].close_start, Some(19));
    assert_eq!(
        tags.iter().map(shape).collect::<Vec<_>>(),
        parse_tag_tree(&html).iter().map(shape).collect::<Vec<_>>()
    );
}
