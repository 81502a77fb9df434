use bocchi::markdown::markdown_to_html;

#[test]
fn markdown_renders_to_html() {
    let html = markdown_to_html("# title");
    assert_eq!(html, "<h1>title</h1>\n");
}

#[test]
fn math_delimiters_are_rewritten_to_dollar_style() {
    let html = markdown_to_html("before \\[x + y\\] after \\(z\\)");
    assert!(html.contains("$$x + y$$"));
    assert!(html.contains("$z$"));
}

#[test]
fn render_wraps_html_in_the_page_template() {
    let page = bocchi::markdown::render("<h1>t</h1>");
    assert!(page.starts_with("<!DOCTYPE html>"));
    assert!(page.contains("<body class=\"markdown-body\">\n<h1>t</h1>\n</body>"));
    assert!(page.ends_with("</html>\n"));
}
