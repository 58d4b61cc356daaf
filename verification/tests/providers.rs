use gitlens::providers::{
    build_prompt, choose_provider, command_args, exit_error_message, greet, response_text,
    spawn_error_message, BobShellProvider, ProviderChoice,
};

#[test]
fn build_prompt_includes_system_and_user() {
    let p = build_prompt("You are a helpful assistant.", "What is 2+2?", None);
    assert!(p.contains("SYSTEM INSTRUCTIONS:"));
    assert!(p.contains("You are a helpful assistant."));
    assert!(p.contains("What is 2+2?"));
}

#[test]
fn build_prompt_appends_schema_instruction() {
    let schema = "{\n  \"required\": [\n    \"answer\"\n  ],\n  \"type\": \"object\"\n}";
    let p = build_prompt("sys", "user", Some(schema));
    assert!(p.contains("valid JSON"));
    assert!(p.contains("answer"));
    assert!(p.contains("no markdown fences"));
}

#[test]
fn build_prompt_no_schema_no_json_instruction() {
    let p = build_prompt("", "hello", None);
    assert!(!p.contains("valid JSON"));
    assert_eq!(p.trim(), "hello");
}

#[test]
fn build_prompt_omits_system_section_when_empty() {
    let p = build_prompt("", "just the user part", None);
    assert!(!p.contains("SYSTEM INSTRUCTIONS:"));
}

#[test]
fn build_prompt_exact_layout() {
    let p = build_prompt("S", "U", Some("{}"));
    assert_eq!(
        p,
        "SYSTEM INSTRUCTIONS:\nS\n\nU\n\nYou MUST respond with valid JSON that matches this schema:\n{}\nReturn only the JSON object — no markdown fences, no explanation."
    );
}

#[test]
fn from_env_values_requires_api_key() {
    let e = BobShellProvider::from_env_values(None, None).unwrap_err();
    assert!(e.to_lowercase().contains("bob_api_key"));
    let e2 = BobShellProvider::from_env_values(Some("   ".into()), None).unwrap_err();
    assert_eq!(e2, "BOB_API_KEY is set but empty");
}

#[test]
fn from_env_values_reads_api_key_and_path() {
    let p = BobShellProvider::from_env_values(Some("test-key-value".into()), None).unwrap();
    assert_eq!(p.api_key(), "test-key-value");
    assert_eq!(p.bob_path(), "bob");
    let q = BobShellProvider::from_env_values(Some("k".into()), Some("/opt/bob".into())).unwrap();
    assert_eq!(q.bob_path(), "/opt/bob");
    let n = BobShellProvider::new("b".into(), "k2".into());
    assert_eq!((n.bob_path(), n.api_key()), ("b", "k2"));
}

#[test]
fn provider_selection_order() {
    assert_eq!(choose_provider(Some("1"), Some("bob")), ProviderChoice::Mock);
    assert_eq!(choose_provider(Some("0"), Some("bob")), ProviderChoice::Bob);
    assert_eq!(choose_provider(None, Some("gemini")), ProviderChoice::Stub);
    assert_eq!(choose_provider(None, None), ProviderChoice::Stub);
}

#[test]
fn client_arguments_and_messages() {
    assert_eq!(
        command_args("hi"),
        vec!["--auth-method", "api-key", "--hide-intermediary-output", "-p", "hi"]
    );
    let long: Vec<u8> = std::iter::repeat(b'e').take(400).collect();
    let m = exit_error_message(Some(2), &long);
    assert_eq!(m, format!("Bob Shell exited with code 2. stderr: {}", "e".repeat(300)));
    assert_eq!(exit_error_message(None, b"x"), "Bob Shell exited with code -1. stderr: x");
    assert!(spawn_error_message("/bin/bob", true, "").starts_with("Bob Shell binary not found at '/bin/bob'."));
    assert_eq!(spawn_error_message("bob", false, "denied"), "Failed to spawn Bob Shell: denied");
    assert_eq!(response_text(b"  {\"a\":1}\n"), "{\"a\":1}");
    assert_eq!(greet("Ada"), "Hello, Ada! You've been greeted from Rust!");
}
