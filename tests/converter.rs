use mirage::converter::{convert, ConverterState};

fn lines(v: &[&str]) -> Vec<String> {
    v.iter().map(|s| s.to_string()).collect()
}

fn run(v: &[&str]) -> String {
    convert(&lines(v)).concat()
}

#[test]
fn heading_line_scenario() {
    // Only the marker is stripped: the space after it stays in the heading.
    assert_eq!(run(&["# Hello"]), "<h1> Hello</h1>\n");
    assert_eq!(run(&["#Hello"]), "<h1>Hello</h1>\n");
}

#[test]
fn paragraph_line_scenario() {
    assert_eq!(run(&["World"]), "<p>World</p>\n");
}

#[test]
fn empty_line_scenario() {
    assert_eq!(run(&[""]), "");
    assert!(convert(&lines(&[""])).is_empty());
}

#[test]
fn title_and_body_scenario() {
    assert_eq!(run(&["# Title", "Body text"]), "<h1> Title</h1>\n<p>Body text</p>\n");
}

#[test]
fn bare_marker_scenario() {
    assert_eq!(run(&["#"]), "<h1></h1>\n");
}

#[test]
fn consecutive_paragraphs_scenario() {
    assert_eq!(
        run(&["Line one", "Line two"]),
        "<p>Line one</p>\n<p>Line two</p>\n"
    );
}

#[test]
fn empty_lines_contribute_nothing() {
    let out = convert(&lines(&["", "a", "", "", "#b", ""]));
    assert_eq!(out, vec!["<p>a</p>\n".to_string(), "<h1>b</h1>\n".to_string()]);
}

#[test]
fn heading_line_gives_one_heading() {
    let out = convert(&lines(&["x", "#Some heading", "y"]));
    assert_eq!(out.len(), 3);
    assert_eq!(out[1], "<h1>Some heading</h1>\n");
}

#[test]
fn paragraph_line_gives_one_paragraph() {
    let out = convert(&lines(&["# h", "plain text # not a heading", ""]));
    assert_eq!(out.len(), 2);
    assert_eq!(out[1], "<p>plain text # not a heading</p>\n");
    assert_eq!(run(&[" # indented"]), "<p> # indented</p>\n");
}

#[test]
fn reordering_lines_keeps_each_fragment() {
    let a = convert(&lines(&["# one", "two", "", "three"]));
    let b = convert(&lines(&["three", "", "two", "# one"]));
    let mut sa = a.clone();
    let mut sb = b.clone();
    sa.sort();
    sb.sort();
    assert_eq!(sa, sb);
    assert_eq!(a[0], b[2]);
    assert_eq!(a[1], b[1]);
    assert_eq!(a[2], b[0]);
}

#[test]
fn fragments_follow_line_order() {
    let out = convert(&lines(&["c", "", "#b", "a"]));
    assert_eq!(
        out,
        vec![
            "<p>c</p>\n".to_string(),
            "<h1>b</h1>\n".to_string(),
            "<p>a</p>\n".to_string()
        ]
    );
}

#[test]
fn no_lines_give_no_fragments() {
    assert!(convert(&Vec::new()).is_empty());
}

#[test]
fn non_ascii_heading_content() {
    assert_eq!(run(&["#héllo wörld"]), "<h1>héllo wörld</h1>\n");
    assert_eq!(run(&["ü"]), "<p>ü</p>\n");
}

#[test]
fn state_starts_idle_and_ends_idle() {
    let mut st = ConverterState::new();
    assert!(!st.paragraph_open && !st.heading_open);
    assert_eq!(st.process_line("#x"), Some("<h1>x</h1>\n".to_string()));
    assert!(!st.paragraph_open && !st.heading_open);
    assert_eq!(st.process_line(""), None);
    assert_eq!(st.process_line("y"), Some("<p>y</p>\n".to_string()));
    assert!(!st.paragraph_open && !st.heading_open);
}

#[test]
fn open_paragraph_is_closed_before_heading() {
    let mut st = ConverterState { paragraph_open: true, heading_open: false };
    assert_eq!(st.process_line("#h"), Some("</p>\n<h1>h</h1>\n".to_string()));
    assert!(!st.paragraph_open && !st.heading_open);
}

#[test]
fn open_heading_is_closed_before_new_heading() {
    let mut st = ConverterState { paragraph_open: false, heading_open: true };
    assert_eq!(st.process_line("#h"), Some("</h1>\n<h1>h</h1>\n".to_string()));
}

#[test]
fn open_paragraph_continues_with_text() {
    let mut st = ConverterState { paragraph_open: true, heading_open: false };
    assert_eq!(st.process_line("more"), Some("more</p>\n".to_string()));
    let mut st = ConverterState { paragraph_open: false, heading_open: true };
    assert_eq!(st.process_line("t"), Some("<p>t</p>\n</h1>\n".to_string()));
}
