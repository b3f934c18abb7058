use miniextendr_macros::roxygen::{
    doc_conflict_warnings,
    find_tag_value, format_roxygen_tags, has_roxygen_tag, implicit_description_from_attrs,
    implicit_details_from_attrs, implicit_title_from_attrs, normalize_for_comparison, push_roxygen_tags,
    roxygen_tags_from_attrs, roxygen_tags_from_attrs_for_r6_method, strip_roxygen_from_attrs, tag_names,
};

/// The doc strings of `/// line` comments, one per line.
fn make_doc_attrs(lines: &[&str]) -> Vec<String> {
    lines.iter().map(|l| l.to_string()).collect()
}

fn make_doc_attrs_plain(lines: &[&str]) -> Vec<String> {
    make_doc_attrs(lines)
}

#[test]
fn test_implicit_title_simple() {
    let attrs = make_doc_attrs(&["Simple title"]);
    assert_eq!(implicit_title_from_attrs(&attrs), Some("Simple title".to_string()));
}

#[test]
fn test_implicit_title_with_period() {
    let attrs = make_doc_attrs(&["This is the title. This is description."]);
    assert_eq!(implicit_title_from_attrs(&attrs), Some("This is the title".to_string()));
}

#[test]
fn test_implicit_title_trailing_period_stripped() {
    let attrs = make_doc_attrs(&["Title with trailing period."]);
    assert_eq!(implicit_title_from_attrs(&attrs), Some("Title with trailing period".to_string()));
}

#[test]
fn test_implicit_title_multiline_before_blank() {
    let attrs = make_doc_attrs(&["First part of title", "second part of title", "", "Description"]);
    assert_eq!(
        implicit_title_from_attrs(&attrs),
        Some("First part of title second part of title".to_string())
    );
}

#[test]
fn test_implicit_title_none_when_starts_with_tag() {
    let attrs = make_doc_attrs(&["@param x A parameter"]);
    assert_eq!(implicit_title_from_attrs(&attrs), None);
}

#[test]
fn test_implicit_title_empty_docs() {
    let attrs: Vec<String> = vec![];
    assert_eq!(implicit_title_from_attrs(&attrs), None);
}

#[test]
fn test_implicit_description_is_second_paragraph() {
    let attrs = make_doc_attrs(&["This is the title.", "", "This is the description."]);
    assert_eq!(implicit_description_from_attrs(&attrs), Some("This is the description.".to_string()));
}

#[test]
fn test_implicit_description_multiline_second_paragraph() {
    let attrs = make_doc_attrs(&[
        "Title line.",
        "",
        "First line of description.",
        "Second line of description.",
    ]);
    assert_eq!(
        implicit_description_from_attrs(&attrs),
        Some("First line of description. Second line of description.".to_string())
    );
}

#[test]
fn test_implicit_description_stops_at_third_paragraph() {
    let attrs = make_doc_attrs(&[
        "Title.",
        "",
        "This is description.",
        "",
        "This is details (not description).",
    ]);
    assert_eq!(implicit_description_from_attrs(&attrs), Some("This is description.".to_string()));
}

#[test]
fn test_implicit_description_none_when_only_one_paragraph() {
    let attrs = make_doc_attrs(&["Just a title."]);
    assert_eq!(implicit_description_from_attrs(&attrs), None);
}

#[test]
fn test_implicit_description_none_when_starts_with_tag() {
    let attrs = make_doc_attrs(&["@title Explicit title", "@description Explicit desc"]);
    assert_eq!(implicit_description_from_attrs(&attrs), None);
}

#[test]
fn test_implicit_description_skips_multiple_blank_lines() {
    let attrs = make_doc_attrs(&["Title.", "", "", "Description after multiple blanks."]);
    assert_eq!(
        implicit_description_from_attrs(&attrs),
        Some("Description after multiple blanks.".to_string())
    );
}

#[test]
fn test_implicit_details_none_when_one_paragraph() {
    let attrs = make_doc_attrs(&["Just a title."]);
    assert_eq!(implicit_details_from_attrs(&attrs), None);
}

#[test]
fn test_implicit_details_none_when_two_paragraphs() {
    let attrs = make_doc_attrs(&["Title.", "", "Description only."]);
    assert_eq!(implicit_details_from_attrs(&attrs), None);
}

#[test]
fn test_implicit_details_returns_third_paragraph() {
    let attrs = make_doc_attrs(&["Title.", "", "Description.", "", "Details paragraph."]);
    assert_eq!(implicit_details_from_attrs(&attrs), Some("Details paragraph.".to_string()));
}

#[test]
fn test_implicit_details_joins_multiple_detail_paragraphs() {
    let attrs = make_doc_attrs(&[
        "Title.",
        "",
        "Description.",
        "",
        "First details para.",
        "",
        "Second details para.",
    ]);
    assert_eq!(
        implicit_details_from_attrs(&attrs),
        Some("First details para.\n\nSecond details para.".to_string())
    );
}

#[test]
fn test_implicit_details_stops_at_tag() {
    let attrs = make_doc_attrs(&["Title.", "", "Description.", "", "Details here.", "@param x Something"]);
    assert_eq!(implicit_details_from_attrs(&attrs), Some("Details here.".to_string()));
}

#[test]
fn test_implicit_details_multiline_detail_paragraph() {
    let attrs = make_doc_attrs(&[
        "Title.",
        "",
        "Description.",
        "",
        "First line of details.",
        "Second line of details.",
    ]);
    assert_eq!(
        implicit_details_from_attrs(&attrs),
        Some("First line of details. Second line of details.".to_string())
    );
}

#[test]
fn auto_details_not_injected_for_one_paragraph() {
    let attrs = make_doc_attrs_plain(&["Title.", "@param x A value"]);
    let tags = roxygen_tags_from_attrs(&attrs);
    assert!(!tags.iter().any(|t| t.starts_with("@details")));
}

#[test]
fn auto_details_not_injected_for_two_paragraphs() {
    let attrs = make_doc_attrs_plain(&["Title.", "", "Description.", "@param x A value"]);
    let tags = roxygen_tags_from_attrs(&attrs);
    assert!(tags.iter().any(|t| t.starts_with("@description")));
    assert!(!tags.iter().any(|t| t.starts_with("@details")));
}

#[test]
fn auto_details_injected_for_three_paragraphs() {
    let attrs = make_doc_attrs_plain(&[
        "Title.",
        "",
        "Description.",
        "",
        "Details paragraph.",
        "@param x A value",
    ]);
    let tags = roxygen_tags_from_attrs(&attrs);
    assert!(tags.iter().any(|t| t.starts_with("@description")));
    let details_tag = tags.iter().find(|t| t.starts_with("@details"));
    assert!(details_tag.is_some(), "expected @details tag in: {:?}", tags);
    assert!(details_tag.unwrap().contains("Details paragraph."));
}

#[test]
fn auto_details_joins_four_paragraphs() {
    let attrs = make_doc_attrs_plain(&[
        "Title.",
        "",
        "Description.",
        "",
        "First details.",
        "",
        "Second details.",
        "@param x A value",
    ]);
    let tags = roxygen_tags_from_attrs(&attrs);
    let details_tag = tags.iter().find(|t| t.starts_with("@details")).unwrap();
    assert!(details_tag.contains("First details."), "missing first: {:?}", tags);
    assert!(details_tag.contains("Second details."), "missing second: {:?}", tags);
}

#[test]
fn auto_details_idempotent_when_explicit_details_present() {
    let attrs = make_doc_attrs_plain(&[
        "Title.",
        "",
        "Description.",
        "",
        "This would become details.",
        "@details Explicit details.",
        "@param x A value",
    ]);
    let tags = roxygen_tags_from_attrs(&attrs);
    let count = tags.iter().filter(|t| t.starts_with("@details")).count();
    assert_eq!(count, 1, "expected exactly one @details tag: {:?}", tags);
    let details_tag = tags.iter().find(|t| t.starts_with("@details")).unwrap();
    assert!(details_tag.contains("Explicit details."));
}

#[test]
fn auto_details_order_is_title_description_details_param() {
    let attrs = make_doc_attrs_plain(&["Title.", "", "Description.", "", "Details.", "@param x A value"]);
    let tags = roxygen_tags_from_attrs(&attrs);
    let title_pos = tags.iter().position(|t| t.starts_with("@title"));
    let desc_pos = tags.iter().position(|t| t.starts_with("@description"));
    let details_pos = tags.iter().position(|t| t.starts_with("@details"));
    let param_pos = tags.iter().position(|t| t.starts_with("@param"));
    assert!(
        title_pos < desc_pos && desc_pos < details_pos && details_pos < param_pos,
        "expected title<desc<details<param order, got positions: title={:?} desc={:?} details={:?} param={:?}\ntags={:?}",
        title_pos,
        desc_pos,
        details_pos,
        param_pos,
        tags
    );
}

#[test]
fn test_format_single_line_tags() {
    let tags = vec!["@param x An input".to_string(), "@return Output".to_string()];
    let formatted = format_roxygen_tags(&tags);
    assert_eq!(formatted, "#' @param x An input\n#' @return Output\n");
}

#[test]
fn test_format_multiline_tag() {
    let tags = vec!["@description First line\nSecond line".to_string()];
    let formatted = format_roxygen_tags(&tags);
    assert_eq!(formatted, "#' @description First line\n#' Second line\n");
}

#[test]
fn test_push_multiline_tag() {
    let tags = vec!["@description Line one\nLine two\nLine three".to_string()];
    let mut lines = Vec::new();
    push_roxygen_tags(&mut lines, &tags);
    assert_eq!(lines, vec!["#' @description Line one", "#' Line two", "#' Line three"]);
}

#[test]
fn test_has_roxygen_tag_multiline() {
    let tags = vec!["@description First\nSecond".to_string()];
    assert!(has_roxygen_tag(&tags, "description"));
    assert!(!has_roxygen_tag(&tags, "param"));
}

#[test]
fn test_has_roxygen_tag_single_word() {
    let tags = vec!["@export".to_string(), "@noRd".to_string()];
    assert!(has_roxygen_tag(&tags, "export"));
    assert!(has_roxygen_tag(&tags, "noRd"));
    assert!(!has_roxygen_tag(&tags, "param"));
}

#[test]
fn test_has_roxygen_tag_keywords_internal() {
    let tags = vec!["@keywords internal".to_string()];
    assert!(has_roxygen_tag(&tags, "keywords internal"));
    assert!(has_roxygen_tag(&tags, "keywords"));
    assert!(!has_roxygen_tag(&tags, "internal"));
}

#[test]
fn test_has_roxygen_tag_keywords_internal_with_whitespace() {
    let tags = vec!["  @keywords internal  ".to_string()];
    assert!(has_roxygen_tag(&tags, "keywords internal"));
}

#[test]
fn test_has_roxygen_tag_keywords_other() {
    let tags = vec!["@keywords datasets".to_string()];
    assert!(has_roxygen_tag(&tags, "keywords"));
    assert!(!has_roxygen_tag(&tags, "keywords internal"));
}

#[test]
fn test_has_roxygen_tag_param_with_name() {
    let tags = vec!["@param x An input".to_string()];
    assert!(has_roxygen_tag(&tags, "param"));
    assert!(!has_roxygen_tag(&tags, "param x"));
}

#[test]
fn test_tag_names_extracts_first_word() {
    let tags = vec!["@param x Input".to_string(), "@return Output".to_string(), "@export".to_string()];
    let names = tag_names(&tags);
    assert!(names.contains(&"param".to_string()));
    assert!(names.contains(&"return".to_string()));
    assert!(names.contains(&"export".to_string()));
    assert!(!names.contains(&"x".to_string()));
}

#[test]
fn test_tag_names_ignores_non_tag_lines() {
    let tags = vec!["Just a comment".to_string(), "@title Real tag".to_string()];
    let names = tag_names(&tags);
    assert!(names.contains(&"title".to_string()));
    assert_eq!(names.len(), 1);
}

#[test]
fn test_tag_names_handles_leading_whitespace() {
    let tags = vec!["  @export".to_string()];
    let names = tag_names(&tags);
    assert!(names.contains(&"export".to_string()));
}

#[test]
fn test_find_tag_value() {
    let tags = vec![
        "@title My Title".to_string(),
        "@description A longer description".to_string(),
        "@param x An input".to_string(),
    ];
    assert_eq!(find_tag_value(&tags, "title").as_deref(), Some("My Title"));
    assert_eq!(find_tag_value(&tags, "description").as_deref(), Some("A longer description"));
    assert_eq!(find_tag_value(&tags, "param").as_deref(), Some("x An input"));
    assert_eq!(find_tag_value(&tags, "return").as_deref(), None);
}

#[test]
fn test_normalize_for_comparison() {
    assert_eq!(normalize_for_comparison("Hello World"), "hello world");
    assert_eq!(normalize_for_comparison("Hello    World"), "hello world");
    assert_eq!(normalize_for_comparison("Hello World."), "hello world");
    assert_eq!(normalize_for_comparison("Hello World!"), "hello world");
    assert_eq!(normalize_for_comparison("  Hello    World.  "), "hello world");
}

#[test]
fn tag_names_lists_each_name_once() {
    let tags = vec!["@param x A".to_string(), "@param y B".to_string(), "@export".to_string()];
    let names = tag_names(&tags);
    assert_eq!(names.len(), 2);
    for name in &names {
        assert!(has_roxygen_tag(&tags, name));
    }
}

#[test]
fn every_rendered_line_has_the_lead() {
    let tags = vec!["@examples\nf(1)\n\nf(2)".to_string(), "@export".to_string()];
    let mut lines = Vec::new();
    push_roxygen_tags(&mut lines, &tags);
    assert!(lines.iter().all(|l| l.starts_with("#' ")));
    assert_eq!(lines, vec!["#' @examples", "#' f(1)", "#' ", "#' f(2)", "#' @export"]);
}

#[test]
fn find_tag_value_of_a_bare_tag_is_none() {
    let tags = vec!["@export".to_string(), "@export yes".to_string()];
    assert_eq!(find_tag_value(&tags, "export"), None);
}

#[test]
fn method_docs_without_tags_become_the_description() {
    let attrs = make_doc_attrs(&["Line one", "line two"]);
    assert_eq!(roxygen_tags_from_attrs_for_r6_method(&attrs), vec!["@description Line one line two"]);
    assert!(roxygen_tags_from_attrs(&attrs).is_empty());
}

#[test]
fn strip_keeps_other_attributes_and_prose() {
    let attrs: Vec<Option<String>> = vec![
        Some("Title.".to_string()),
        None,
        Some("@param x A value".to_string()),
        Some("continued".to_string()),
        Some("".to_string()),
        Some("Back to prose.".to_string()),
        None,
    ];
    let kept = strip_roxygen_from_attrs(&attrs);
    assert_eq!(kept, vec![0, 1, 5, 6]);
}

#[test]
fn doc_lint_flags_title_that_differs_from_first_line() {
    let docs = vec![" Sum two numbers".to_string(), "".to_string(), " @title Add".to_string()];
    assert_eq!(
        doc_conflict_warnings(&docs),
        vec![
            "miniextendr doc-lint: explicit @title differs from first doc line. R's roxygen2 uses the first line as the title. implicit: \"Sum two numbers\", explicit @title: \"Add\"".to_string()
        ]
    );
}

#[test]
fn doc_lint_accepts_title_equal_after_normalization() {
    let docs = vec![" Sum two numbers".to_string(), "".to_string(), " @title sum   TWO numbers.".to_string()];
    assert!(doc_conflict_warnings(&docs).is_empty());
    let plain = vec![" Sum two numbers".to_string()];
    assert!(doc_conflict_warnings(&plain).is_empty());
}
