use agent_kernel::prompt::{build_system_prompt, PromptBuilder, PromptContext};

fn test_ctx() -> PromptContext {
    PromptContext {
        workspace: "/tmp/test-workspace".to_string(),
        tool_names: vec![
            "file_read".to_string(),
            "file_write".to_string(),
            "file_edit".to_string(),
            "shell".to_string(),
            "grep".to_string(),
            "ls".to_string(),
        ],
    }
}

#[test]
fn build_system_prompt_contains_all_sections() {
    let prompt = build_system_prompt(&test_ctx());
    assert!(prompt.contains("# System"));
    assert!(prompt.contains("# Doing tasks"));
    assert!(prompt.contains("# Executing actions with care"));
    assert!(prompt.contains("# Tool usage"));
    assert!(prompt.contains("# Git workflows"));
}

#[test]
fn build_system_prompt_interpolates_workspace() {
    let prompt = build_system_prompt(&test_ctx());
    assert!(prompt.contains("/tmp/test-workspace"));
}

#[test]
fn build_system_prompt_interpolates_tool_names() {
    let prompt = build_system_prompt(&test_ctx());
    assert!(prompt.contains("file_read"));
    assert!(prompt.contains("file_write"));
    assert!(prompt.contains("shell"));
    assert!(prompt.contains("grep"));
    assert!(prompt.contains("You have 6 tools: file_read, file_write, file_edit, shell, grep, ls."));
    assert!(prompt.contains(
        "You are a coding assistant working in the directory `/tmp/test-workspace`.\n\n\
         You have access to these tools: file_read, file_write, file_edit, shell, grep, ls.\n\n\
         ## Environment\n"
    ));
}

#[test]
fn builder_joins_sections_with_headings() {
    let result =
        PromptBuilder::new().section("Alpha", "Body one.").section("Beta", "Body two.").build();
    assert_eq!(result, "# Alpha\n\nBody one.\n\n# Beta\n\nBody two.\n");
}

#[test]
fn builder_trims_section_bodies() {
    let result = PromptBuilder::new()
        .section("Test", "\n  Leading and trailing whitespace  \n")
        .build();
    assert!(result.contains("Leading and trailing whitespace"));
    assert!(result.contains("# Test\n\nLeading"));
    assert_eq!(result, "# Test\n\nLeading and trailing whitespace\n");
}

#[test]
fn a_prompt_without_sections_is_empty() {
    assert_eq!(PromptBuilder::new().build(), "");
}
