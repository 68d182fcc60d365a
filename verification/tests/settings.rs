use autocommiter::api_client::build_commit_prompt;
use autocommiter::api_client::fallback_commit_message;
use autocommiter::config::get_api_key;
use autocommiter::config::get_gitignore_patterns;
use autocommiter::config::get_selected_model;
use autocommiter::config::gitignore_update;
use autocommiter::config::is_gitmoji_enabled;
use autocommiter::config::mask_api_key;
use autocommiter::config::set_api_key;
use autocommiter::config::set_gitmoji_enabled;
use autocommiter::config::set_selected_model;
use autocommiter::config::toggle_gitmoji;
use autocommiter::config::Config;
use autocommiter::git::numstat_command;
use autocommiter::git::parse_staged_files;
use autocommiter::git::unified_command;
use autocommiter::model_manager::get_default_models;
use autocommiter::model_manager::select_chat_models;
use autocommiter::model_manager::ModelInfo;

#[test]
fn default_config_values() {
    let c = Config::default();
    assert!(c.api_key.is_none());
    assert_eq!(c.selected_model.as_deref(), Some("gpt-4o-mini"));
    assert_eq!(c.enable_gitmoji, Some(false));
    assert_eq!(c.update_gitignore, Some(false));
    assert_eq!(
        c.gitignore_patterns,
        Some(vec![
            "*.env*".to_string(),
            ".env*".to_string(),
            "docx/".to_string(),
            ".docx/".to_string(),
        ])
    );
}

#[test]
fn api_key_set_and_get() {
    let mut c = Config::default();
    assert_eq!(get_api_key(&c), None);
    set_api_key(&mut c, "SECRET-REDACTED".to_string());
    assert_eq!(get_api_key(&c).as_deref(), Some("SECRET-REDACTED"));
    assert_eq!(c.enable_gitmoji, Some(false));
}

#[test]
fn selected_model_defaults_when_unset() {
    let mut c = Config::default();
    c.selected_model = None;
    assert_eq!(get_selected_model(&c), "gpt-4o-mini");
    set_selected_model(&mut c, "gpt-4o".to_string());
    assert_eq!(get_selected_model(&c), "gpt-4o");
}

#[test]
fn gitmoji_flag_set_and_toggle() {
    let mut c = Config::default();
    assert!(!is_gitmoji_enabled(&c));
    set_gitmoji_enabled(&mut c, true);
    assert!(is_gitmoji_enabled(&c));
    toggle_gitmoji(&mut c);
    assert!(!is_gitmoji_enabled(&c));
    c.enable_gitmoji = None;
    toggle_gitmoji(&mut c);
    assert!(is_gitmoji_enabled(&c));
}

#[test]
fn gitignore_patterns_default_when_unset() {
    let mut c = Config::default();
    c.gitignore_patterns = None;
    assert_eq!(
        get_gitignore_patterns(&c),
        vec!["*.env*", ".env*", "docx/", ".docx/"]
    );
}

#[test]
fn masking_long_and_short_keys() {
    assert_eq!(mask_api_key("abcdefghijk"), "abcd...hijk");
    assert_eq!(mask_api_key("abcdefgh"), "****");
    assert_eq!(mask_api_key(""), "****");
}

#[test]
fn gitignore_update_appends_missing_patterns() {
    let patterns = vec!["*.env*".to_string(), "docx/".to_string()];
    let updated = gitignore_update("target/\n*.env*\n", &patterns).expect("one pattern missing");
    assert_eq!(
        updated,
        "target/\n*.env*\n\n# Added by Autocommiter: ensure docx/\ndocx/\n"
    );
}

#[test]
fn gitignore_update_none_when_all_present() {
    let patterns = vec!["*.env*".to_string()];
    assert!(gitignore_update("  *.env*  \n# comment\n", &patterns).is_none());
}

#[test]
fn gitignore_update_on_blank_file_stands_alone() {
    let patterns = vec!["docx/".to_string()];
    let updated = gitignore_update("  \n", &patterns).expect("missing pattern");
    assert_eq!(updated, "# Added by Autocommiter: ensure docx/\ndocx/\n");
}

#[test]
fn git_commands_quote_the_path() {
    assert_eq!(
        numstat_command("src/main.rs"),
        "git diff --staged --numstat -- \"src/main.rs\""
    );
    assert_eq!(
        numstat_command("odd\"name.rs"),
        "git diff --staged --numstat -- \"odd\\\"name.rs\""
    );
    assert_eq!(
        unified_command("a.txt"),
        "git diff --staged --unified=0 -- \"a.txt\""
    );
}

#[test]
fn staged_files_are_trimmed_nonblank_lines() {
    let parsed = parse_staged_files("a.txt\n  b.txt \n\n c/d.rs\n");
    assert_eq!(parsed, vec!["a.txt", "b.txt", "c/d.rs"]);
    assert!(parse_staged_files("").is_empty());
}

#[test]
fn default_models_are_four_chat_models() {
    let models = get_default_models();
    assert_eq!(models.len(), 4);
    assert_eq!(models[0].id, "gpt-4o-mini");
    assert!(models.iter().all(|m| m.task.as_deref() == Some("chat-completion")));
}

fn model(id: &str, task: Option<&str>) -> ModelInfo {
    ModelInfo {
        id: id.to_string(),
        name: id.to_string(),
        friendly_name: None,
        publisher: None,
        summary: None,
        task: task.map(|t| t.to_string()),
        tags: None,
    }
}

#[test]
fn select_chat_models_keeps_only_chat_completion() {
    let fetched = vec![
        model("a", Some("chat-completion")),
        model("b", Some("embedding")),
        model("c", Some("chat-completion")),
        model("d", None),
    ];
    let kept = select_chat_models(fetched);
    let ids: Vec<&str> = kept.iter().map(|m| m.id.as_str()).collect();
    assert_eq!(ids, vec!["a", "c"]);
}

#[test]
fn select_chat_models_falls_back_to_defaults() {
    let fetched = vec![model("b", Some("embedding")), model("d", None)];
    let kept = select_chat_models(fetched);
    assert_eq!(kept.len(), 4);
    assert_eq!(kept[0].id, "gpt-4o-mini");
}

#[test]
fn prompt_holds_names_and_payload() {
    let prompt = build_commit_prompt("a.rs\nb.rs", "{\"files\":[]}");
    assert_eq!(
        prompt,
        "reply only with a very concise but informative commit message, and nothing else:\n\nFiles:\na.rs\nb.rs\n\nSummaryJSON:{\"files\":[]}"
    );
}

#[test]
fn fallback_message_is_fixed() {
    assert_eq!(
        fallback_commit_message(),
        "chore: automated commit generated by Autocommiter"
    );
}
