use vize_ex_nif::markers::{split_on_markers, PROP_MARKER, STRUCT_MARKER, TEXT_MARKER};

#[test]
fn split_on_markers_preserves_segment_order() {
    let html = format!(
        "<div>{}middle{}tail{}</div>",
        PROP_MARKER, TEXT_MARKER, STRUCT_MARKER
    );

    assert_eq!(
        split_on_markers(&html),
        vec![
            "<div>".to_string(),
            "middle".to_string(),
            "tail".to_string(),
            "</div>".to_string()
        ]
    );
}

#[test]
fn split_on_markers_handles_marker_free_html() {
    assert_eq!(
        split_on_markers("<div>plain</div>"),
        vec!["<div>plain</div>".to_string()]
    );
}

#[test]
fn split_on_adjacent_and_edge_markers_gives_empty_pieces() {
    let html = format!("{}{}a{}", STRUCT_MARKER, PROP_MARKER, TEXT_MARKER);
    assert_eq!(
        split_on_markers(&html),
        vec![String::new(), String::new(), "a".to_string(), String::new()]
    );
}

#[test]
fn split_pieces_rejoin_to_the_input() {
    let html = format!("<p{}>x{}y</p>{}", PROP_MARKER, TEXT_MARKER, STRUCT_MARKER);
    let pieces = split_on_markers(&html);
    let markers = [PROP_MARKER, TEXT_MARKER, STRUCT_MARKER];
    let mut joined = String::new();
    for (i, p) in pieces.iter().enumerate() {
        joined.push_str(p);
        if i < markers.len() {
            joined.push_str(markers[i]);
        }
    }
    assert_eq!(pieces.len(), markers.len() + 1);
    assert_eq!(joined, html);
}

#[test]
fn split_of_empty_html_is_one_empty_piece() {
    assert_eq!(split_on_markers(""), vec![String::new()]);
}
