use vellum::Template;

#[test]
fn render_substitutes_bound_key() {
    let out = Template::load("Hello {{name}}").set("name", "World").render();
    assert_eq!(out, "Hello World");
}

#[test]
fn render_strips_unbound_placeholder() {
    let out = Template::load("A{{x}}B").render();
    assert_eq!(out, "AB");
}

#[test]
fn render_does_not_rescan_inserted_value() {
    // single-pass substitution, then one cleanup pass: the inserted `{{b}}`
    // was never bound, so the cleanup strips it
    let out = Template::load("{{a}}").set("a", "{{b}}").render();
    assert_eq!(out, "");
}

#[test]
fn render_replaces_every_occurrence() {
    let out = Template::load("{{k}} and {{k}}").set("k", "v").render();
    assert_eq!(out, "v and v");
}

#[test]
fn render_last_set_wins() {
    let out = Template::load("{{k}}").set("k", "first").set("k", "second").render();
    assert_eq!(out, "second");
}

#[test]
fn render_binding_order_does_not_matter() {
    let one = Template::load("{{a}}-{{b}}").set("a", "x").set("b", "y").render();
    let two = Template::load("{{a}}-{{b}}").set("b", "y").set("a", "x").render();
    assert_eq!(one, "x-y");
    assert_eq!(one, two);
}

#[test]
fn render_keeps_empty_placeholder() {
    // the cleanup pattern needs a non-empty body
    let out = Template::load("{{}}").render();
    assert_eq!(out, "{{}}");
}

#[test]
fn render_keeps_placeholder_spanning_lines() {
    // the cleanup pattern does not cross a newline
    let out = Template::load("{{a\nb}}").render();
    assert_eq!(out, "{{a\nb}}");
}

#[test]
fn render_strips_shortest_match() {
    let out = Template::load("x{{a}}}y").render();
    assert_eq!(out, "x}y");
}

#[test]
fn render_plain_text_unchanged() {
    let out = Template::load("no placeholders here").set("k", "v").render();
    assert_eq!(out, "no placeholders here");
}
