use builder_supervisor::description::{builder_description, extract_description};
use builder_supervisor::paths::{builder_name_of, script_path};

#[test]
fn script_path_joins_builders_dir() {
    assert_eq!(script_path(&String::from("web")), "builders/web");
}

#[test]
fn extract_description_keeps_marked_lines_only() {
    let lines = vec![
        String::from("#!/bin/sh"),
        String::from("#DESC Builds the site, "),
        String::from("echo building"),
        String::from("#DESC then serves it."),
        String::from("#DESCX not a marker"),
    ];
    assert_eq!(extract_description(&lines), "Builds the site, then serves it.");
}

#[test]
fn extract_description_of_plain_script_is_empty() {
    let lines = vec![String::from("#!/bin/sh"), String::from("echo hi")];
    assert_eq!(extract_description(&lines), "");
}

#[test]
fn description_is_rendered_as_html() {
    // The marked text goes through the markdown renderer: a heading
    // comes back as HTML, not as the marker text itself.
    let lines = vec![String::from("#!/bin/sh"), String::from("#DESC # Hi Mercury!")];
    assert_eq!(builder_description(&lines), "<h1>Hi Mercury!</h1>");
}

#[test]
fn builder_name_is_last_component_before_query() {
    let name = builder_name_of("/builder/web?refresh=1").unwrap();
    assert_eq!(name, "web");
    assert_eq!(builder_name_of("/builder/db").unwrap(), "db");
    assert_eq!(builder_name_of("db").unwrap(), "db");
}

#[test]
fn pathless_requests_name_no_builder() {
    assert!(builder_name_of("").is_none());
    assert!(builder_name_of("/builder/").is_none());
    assert!(builder_name_of("/builder/?x=1").is_none());
}

#[test]
fn query_text_never_reaches_the_name() {
    // A slash inside the query must not pass for a path separator.
    assert_eq!(builder_name_of("/builder/web?next=/etc").unwrap(), "web");
    assert!(builder_name_of("/builder/?next=/etc").is_none());
}
