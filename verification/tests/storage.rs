use python_ide::storage::{get_default_code, DEFAULT_CODE};
use python_ide::text::same_text;

#[test]
fn default_code_without_stored_code() {
    let expected = "# Welcome to Python IDE!\n# Write your Python code here and click Run\n\nprint(\"Hello, World!\")\n\nfor i in range(5):\n    print(f\"Count: {i}\")\n";
    assert_eq!(get_default_code(None), expected);
    assert_eq!(DEFAULT_CODE, expected);
}

#[test]
fn default_code_is_the_stored_code() {
    assert_eq!(get_default_code(Some("print(1)".to_string())), "print(1)");
    assert_eq!(get_default_code(Some(String::new())), "");
}

#[test]
fn same_text_compares_characters() {
    assert!(same_text("", ""));
    assert!(same_text("done", "done"));
    assert!(same_text("héllo ✓", "héllo ✓"));
    assert!(!same_text("done", "Done"));
    assert!(!same_text("done", "don"));
    assert!(!same_text("", "a"));
    assert!(!same_text("ab", "ba"));
}
