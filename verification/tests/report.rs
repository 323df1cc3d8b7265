use coretester::report::{bar_cells, render, replace, DATA_PLACEHOLDER, REPORT_TEMPLATE};

#[test]
fn replace_matches_str_replace() {
    for (s, p, r) in [("aaa", "aa", "b"), ("a</b></", "</", "<\\/"), ("", "x", "y"), ("abc", "abcd", "z"), ("xyx", "x", "")] {
        assert_eq!(replace(s, p, r), s.replace(p, r));
    }
}

#[test]
fn report_embeds_escaped_data() {
    let json = "{\"note\":\"</script><b>\"}";
    let html = render(json);
    assert_eq!(html, REPORT_TEMPLATE.replace(DATA_PLACEHOLDER, &json.replace("</", "<\\/")));
    assert!(!html.contains(DATA_PLACEHOLDER));
    assert!(html.contains("{\"note\":\"<\\/script><b>\"}"));
    assert!(html.starts_with("<!doctype html>"));
}

#[test]
fn escaped_data_has_no_closing_tag() {
    let html = render("<</</<///");
    let start = html.find("const D=").unwrap() + "const D=".len();
    let expected = "<</</<///".replace("</", "<\\/");
    assert_eq!(expected, "<<\\/<\\/<\\///");
    let data = &html[start..start + expected.len()];
    assert_eq!(data, expected);
    assert!(!data.contains("</"));
}

#[test]
fn score_bars() {
    assert_eq!(bar_cells(3, 5), "███░░");
    assert_eq!(bar_cells(0, 2), "░░");
    assert_eq!(bar_cells(2, 2), "██");
}
