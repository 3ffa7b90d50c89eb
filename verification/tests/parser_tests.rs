use web_search_agent::parser::{extract_between_braces, extract_from_code_fence, search_report_candidates};

#[test]
fn fence_with_json_tag() {
    let c = "Here it is:\n```json\n{\"a\": 1}\n```\nthanks";
    assert_eq!(extract_from_code_fence(c), Some("{\"a\": 1}".to_string()));
}

#[test]
fn fence_without_tag() {
    assert_eq!(extract_from_code_fence("```\n{\"a\": 1}\n```"), Some("{\"a\": 1}".to_string()));
    assert_eq!(extract_from_code_fence("```{\"a\": 1}```"), Some("{\"a\": 1}".to_string()));
}

#[test]
fn fence_with_other_tag_keeps_text_after_the_tag_line() {
    assert_eq!(extract_from_code_fence("```python\nx = 1\n```"), Some("x = 1".to_string()));
}

#[test]
fn fence_missing_or_unclosed() {
    assert_eq!(extract_from_code_fence("no fence here"), None);
    assert_eq!(extract_from_code_fence("```json\n{\"a\": 1}"), None);
    assert_eq!(extract_from_code_fence("```json"), None);
}

#[test]
fn braces_from_first_to_last() {
    assert_eq!(
        extract_between_braces("Sure! {\"a\": {\"b\": 2}} Done."),
        Some("{\"a\": {\"b\": 2}}".to_string())
    );
    assert_eq!(extract_between_braces("} then {"), None);
    assert_eq!(extract_between_braces("no braces"), None);
    assert_eq!(extract_between_braces("{ only open"), None);
}

#[test]
fn candidates_in_order() {
    let c = "  note ```json\n{\"x\":1}\n``` end  ";
    assert_eq!(
        search_report_candidates(c),
        vec![
            "note ```json\n{\"x\":1}\n``` end".to_string(),
            "{\"x\":1}".to_string(),
            "{\"x\":1}".to_string(),
        ]
    );
    assert_eq!(search_report_candidates(" plain "), vec!["plain".to_string()]);
}
