use my_augment::code_extractor::{extract_code_blocks, CodeBlock};

#[test]
fn test_empty_input() {
    assert!(extract_code_blocks("").is_empty());
}

#[test]
fn test_no_code_blocks() {
    let text = "This is some text without any code blocks.";
    assert!(extract_code_blocks(text).is_empty());
}

#[test]
fn test_simple_code_block() {
    let text = "```rust\nlet x = 5;\n```";
    let blocks = extract_code_blocks(text);
    assert_eq!(blocks.len(), 1);
    assert_eq!(
        blocks[0],
        CodeBlock {
            lang: Some("rust".to_string()),
            path: None,
            mode: None,
            code: "let x = 5;".to_string(),
            start_line: 2,
            end_line: 2,
        }
    );
}

#[test]
fn test_full_metadata() {
    let text = "```rust path=/tmp/foo.rs mode=EDIT\nlet x = 5;\n```";
    let blocks = extract_code_blocks(text);
    assert_eq!(blocks.len(), 1);
    assert_eq!(
        blocks[0],
        CodeBlock {
            lang: Some("rust".to_string()),
            path: Some("/tmp/foo.rs".to_string()),
            mode: Some("EDIT".to_string()),
            code: "let x = 5;".to_string(),
            start_line: 2,
            end_line: 2,
        }
    );
}

#[test]
fn test_multiline_block() {
    let text = "```\nline 1\nline 2\nline 3\n```";
    let blocks = extract_code_blocks(text);
    assert_eq!(blocks.len(), 1);
    assert_eq!(blocks[0].code, "line 1\nline 2\nline 3");
    assert_eq!(blocks[0].start_line, 2);
    assert_eq!(blocks[0].end_line, 4);
}

#[test]
fn test_multiple_blocks() {
    let text = "```rust\nlet x = 5;\n```\n```python\nprint(\"hello\")\n```";
    let blocks = extract_code_blocks(text);
    assert_eq!(blocks.len(), 2);
    assert_eq!(blocks[0].lang, Some("rust".to_string()));
    assert_eq!(blocks[0].code, "let x = 5;");
    assert_eq!(blocks[0].start_line, 2);
    assert_eq!(blocks[0].end_line, 2);
    assert_eq!(blocks[1].lang, Some("python".to_string()));
    assert_eq!(blocks[1].code, "print(\"hello\")");
    assert_eq!(blocks[1].start_line, 5);
    assert_eq!(blocks[1].end_line, 5);
}

#[test]
fn test_empty_block() {
    let text = "```rust\n```";
    let blocks = extract_code_blocks(text);
    assert_eq!(blocks.len(), 1);
    assert_eq!(blocks[0].code, "");
    assert_eq!(blocks[0].start_line, 2);
    assert_eq!(blocks[0].end_line, 1); // Special case: empty range
}

#[test]
fn test_extended_fence() {
    let text = "````rust\nlet x = 5;\n````";
    let blocks = extract_code_blocks(text);
    assert_eq!(blocks.len(), 1);
    assert_eq!(blocks[0].lang, Some("rust".to_string()));
    assert_eq!(blocks[0].code, "let x = 5;");
    assert_eq!(blocks[0].start_line, 2);
    assert_eq!(blocks[0].end_line, 2);
}

#[test]
fn test_nested_fences() {
    let text = "```\n```rust\nlet x = 5;\n```\n```";
    let blocks = extract_code_blocks(text);
    assert_eq!(blocks.len(), 1);
    assert_eq!(blocks[0].code, "```rust\nlet x = 5;");
    assert_eq!(blocks[0].start_line, 2);
    assert_eq!(blocks[0].end_line, 3);
}

#[test]
fn test_unclosed_block() {
    let text = "```rust\nlet x = 5;";
    let blocks = extract_code_blocks(text);
    assert!(blocks.is_empty());
}

#[test]
fn test_closing_fence_with_whitespace() {
    let text = "```rust\nlet x = 5;\n```   ";
    let blocks = extract_code_blocks(text);
    assert_eq!(blocks.len(), 1);
    assert_eq!(blocks[0].code, "let x = 5;");
    assert_eq!(blocks[0].start_line, 2);
    assert_eq!(blocks[0].end_line, 2);
}

#[test]
fn test_closing_fence_min_length() {
    let text = "```rust\nlet x = 5;\n```";
    let blocks = extract_code_blocks(text);
    assert_eq!(blocks.len(), 1);
    assert_eq!(blocks[0].code, "let x = 5;");
    assert_eq!(blocks[0].start_line, 2);
    assert_eq!(blocks[0].end_line, 2);
}

#[test]
fn test_indented_closing_fence_ignored() {
    let text = "```rust\nlet x = 5;\n  ```";
    let blocks = extract_code_blocks(text);
    assert!(blocks.is_empty());
}
