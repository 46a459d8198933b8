use slide_builder::deck_session::{tui_step, TuiAction, TuiCommand, BUSY_MESSAGE, NO_RENDERER_MESSAGE};
use slide_builder::cli::{parse_command_line, CliCommand, CliError, HELP};
use slide_builder::credentials::{check_api_key, ApiKeyError, KEYRING_SERVICE};
use slide_builder::design::DesignPackage;
use slide_builder::export::{destination, flatten_onto_white, parse_arguments, ExportArgumentError};
use slide_builder::integrations::herdr::{
    probe_request_params, read_response, release_request_params, report_request_params, request_text, PROBE_METHOD,
    RELEASE_METHOD, REPORT_METHOD,
    check_response_len, classify_rpc, state_name, ErrorMember, ResponseFields, ResultMember, RpcOutcome, GraphicsProbe, HerdrClient, HerdrGraphicsCapability, HerdrState, ReportQueue,
    ResponseError,
};
use slide_builder::models::AvailableModel;
use slide_builder::onboarding::account::{
    auth_kind_summary, auth_summary, login_message, logout_message, picker_row, stored_connections,
    AuthKind, AuthModeEntry, StoredConnection, PROVIDER_COLUMN,
};
use slide_builder::onboarding::{
    cancels_authentication, default_model_index, entry_step, initial_selection, max_visible_rows, model_row, picker_step,
    secret_entry_step, selection_gutter, unique_models_by_id, visible_window, EntryKey, EntryStep, KeyPress, ModelChoice,
    PickerKey, PickerStep, SecretStep,
};
use slide_builder::paths::{expand_tilde_with_home, project_key, AppPaths, PathError};
use slide_builder::preview::{deck_content_changed, preview_height, FileEventKind};
use slide_builder::prompt::{assemble, transition_message, PromptContext};
use slide_builder::sessions::{
    check_management, restored_active_slide, selection_for_save, settle_tool, Command, ModelSelection, SessionError,
    SessionManagement, ToolStatus,
};
use slide_builder::skills::{parse_skill, select_skills, Skill, SkillCandidate, SkillError, SkillSource};
use std::path::Path;

#[test]
fn service_is_not_rho() {
    assert_ne!(KEYRING_SERVICE, "rho");
}

#[test]
fn api_keys_must_not_be_blank() {
    assert_eq!(check_api_key(" \t"), Err(ApiKeyError::Empty));
    assert!(check_api_key(" sk-1 ").is_ok());
}

#[test]
fn tilde_expansion_is_leading_only() {
    let home = Path::new("/home/tester");
    assert_eq!(
        expand_tilde_with_home("~/decks", Some("/home/tester")).unwrap(),
        home.join("decks").to_str().unwrap()
    );
    assert_eq!(expand_tilde_with_home("/tmp/~/decks", Some("/home/tester")).unwrap(), "/tmp/~/decks");
    assert!(expand_tilde_with_home("~", None).is_err());
}

#[test]
fn project_keys_are_short_hex_and_stable() {
    let first = project_key("/tmp/example-project").unwrap();
    let second = project_key("/tmp/example-project").unwrap();
    assert_eq!(first, second);
    assert_eq!(first.len(), 16);
    assert!(first.bytes().all(|b| b.is_ascii_hexdigit()));
    assert_ne!(first, project_key("/tmp/other-project").unwrap());
    assert_eq!(project_key(""), Err(PathError::EmptyProjectPath));
}

#[test]
fn app_paths_have_expected_shape() {
    let paths = AppPaths::from_roots("/cfg", "/data");
    assert_eq!(paths.config_file(), "/cfg/config.toml");
    assert_eq!(paths.skills_dir(), "/data/skills");
    assert!(Path::new(&paths.project_dir("/repo").unwrap()).starts_with("/data/projects"));
    assert!(paths.render_cache_dir("/repo").unwrap().ends_with("/render-cache"));
}

#[test]
fn transition_names_both_old_and_new_contexts() {
    let message = transition_message("/old.pptx", "/new.pptx", Some("old-brand"), None);
    assert!(message.contains("/old.pptx") && message.contains("/new.pptx"));
    assert!(message.contains("old-brand") && message.contains("None"));
    assert!(message.contains("Inspect the new active deck"));
}

#[test]
fn prompt_sections_have_required_order_and_escape_content() {
    let design = DesignPackage {
        name: "Brand".into(),
        path: "/root/design".into(),
        guidelines: "Use <blue>".into(),
        supplementary_files: vec!["TEMPLATE-REFERENCE.md".into()],
        templates: Vec::new(),
    };
    let skill = Skill {
        name: "test-skill".into(),
        description: "Helpful & safe".into(),
        source: SkillSource::Project("/root/repo/sub".into()),
        path: "/root/repo/sub/SKILL.md".into(),
        contents: String::new(),
    };
    let instructions = vec![
        ("/root/repo/AGENTS.md".to_owned(), "parent rules".to_owned()),
        ("/root/repo/sub/AGENTS.md".to_owned(), "specific <rules>".to_owned()),
    ];
    let skills = vec![skill];
    let prompt = assemble(&PromptContext {
        active_deck: "/root/deck.pptx",
        decks_dir: "/root",
        repo_cwd: "sub",
        current_dir: "/root/repo",
        design: Some(&design),
        instructions: &instructions,
        skills: &skills,
        slide_index: 2,
        slide_count: 5,
        deck_generation: 9,
    });
    let design_at = prompt.find("<design_guidelines>").unwrap();
    let parent_at = prompt.find("parent rules").unwrap();
    let child_at = prompt.find("specific &lt;rules&gt;").unwrap();
    let skills_at = prompt.find("<available_skills>").unwrap();
    let state_at = prompt.find("<deck_state>").unwrap();
    assert!(design_at < parent_at && parent_at < child_at && child_at < skills_at && skills_at < state_at);
    assert!(prompt.contains("Use &lt;blue&gt;"));
    assert!(prompt.contains("Helpful &amp; safe"));
    assert!(prompt.contains("<repo_cwd>/root/repo/sub</repo_cwd>"));
    assert!(prompt.contains("(read on demand): /root/design/TEMPLATE-REFERENCE.md"));
    assert!(prompt.contains("<source>project: /root/repo/sub</source>"));
    assert!(prompt.contains("active_slide=2; slide_count=5; generation=9"));
}

#[test]
fn empty_deck_uses_slide_zero() {
    let prompt = assemble(&PromptContext {
        active_deck: "/root/deck.pptx",
        decks_dir: "/root",
        repo_cwd: "/root",
        current_dir: "/root",
        design: None,
        instructions: &[],
        skills: &[],
        slide_index: 8,
        slide_count: 0,
        deck_generation: 0,
    });
    assert!(prompt.contains("active_slide=0; slide_count=0"));
    assert!(!prompt.contains("<available_skills>"));
}

#[test]
fn parses_folded_description_frontmatter() {
    let path = "/skills/right/SKILL.md";
    let contents = "---\nname: right\ndescription: >\n  useful for decks\n  and layouts\n---\n# Body\n";
    let skill = parse_skill(contents, path, SkillSource::User(path.into())).unwrap();
    assert_eq!(skill.description, "useful for decks and layouts");
}

#[test]
fn rejects_bad_frontmatter_and_directory_mismatch() {
    let path = "/skills/right/SKILL.md";
    let mismatch = "---\nname: wrong\ndescription: useful\n---\n";
    assert!(parse_skill(mismatch, path, SkillSource::User("/skills/right".into())).is_err());
    let malformed = "name: right\ndescription: useful";
    assert!(parse_skill(malformed, path, SkillSource::User(path.into())).is_err());
}

#[test]
fn skill_frontmatter_errors_are_specific() {
    let p = "/s/right/SKILL.md";
    let src = || SkillSource::BuiltIn("/s/right".into());
    assert_eq!(parse_skill("---\nname: right\n", p, src()).unwrap_err(), SkillError::UnterminatedFrontmatter);
    assert_eq!(parse_skill("---\nname: right\nname: right\n---\n", p, src()).unwrap_err(), SkillError::DuplicateField);
    assert_eq!(parse_skill("---\ndescription: d\n---\n", p, src()).unwrap_err(), SkillError::MissingName);
    assert_eq!(parse_skill("---\nname: Right\ndescription: d\n---\n", p, src()).unwrap_err(), SkillError::NameCharacters);
    assert_eq!(parse_skill("---\nname: a--b\ndescription: d\n---\n", p, src()).unwrap_err(), SkillError::NameCharacters);
    assert_eq!(parse_skill("---\nname: right\ndescription: ''\n---\n", p, src()).unwrap_err(), SkillError::DescriptionLength);
    let quoted = parse_skill("---\nname: \"right\"\ndescription: |\n  line one\n  line two\n---\n", p, src()).unwrap();
    assert_eq!(quoted.description, "line one\nline two");
    assert_eq!(quoted.source, SkillSource::BuiltIn("/s/right".into()));
}

#[test]
fn project_skills_shadow_user_and_builtin_ones() {
    let skill = |dir: &str, desc: &str| format!("---\nname: slide-design\ndescription: {desc}\n---\n# Body\n{dir}");
    let candidates = vec![
        SkillCandidate {
            path: "/repo/.agents/skills/slide-design/SKILL.md".into(),
            source: SkillSource::Project("/repo/.agents/skills/slide-design".into()),
            contents: Some(skill("p", "project version")),
        },
        SkillCandidate {
            path: "/home/.agents/skills/slide-design/SKILL.md".into(),
            source: SkillSource::User("/home/.agents/skills/slide-design".into()),
            contents: Some(skill("u", "user version")),
        },
        SkillCandidate { path: "/b/broken/SKILL.md".into(), source: SkillSource::BuiltIn("/b/broken".into()), contents: None },
    ];
    let skills = select_skills(&candidates);
    assert_eq!(skills.len(), 1);
    assert_eq!(skills[0].description, "project version");
    assert!(matches!(skills[0].source, SkillSource::Project(_)));
}

#[test]
fn arguments_and_default_destination() {
    assert_eq!(parse_arguments("PDF").unwrap(), None);
    assert_eq!(parse_arguments("pdf output/my slides.pdf").unwrap(), Some("output/my slides.pdf".into()));
    assert!(parse_arguments("").unwrap_err().message().contains("Usage:"));
    assert!(parse_arguments("pptx").unwrap_err().message().contains("Unsupported export format"));
    assert!(parse_arguments("pdf original.pptx").is_err());
    assert_eq!(destination("/decks/talk.pptx", None), "/decks/talk.pdf");
}

#[test]
fn export_argument_errors_are_distinguished() {
    assert_eq!(parse_arguments("  "), Err(ExportArgumentError::Usage));
    assert_eq!(parse_arguments("png a.png"), Err(ExportArgumentError::UnsupportedFormat("png".into())));
    assert_eq!(parse_arguments("pdf a.PDF "), Ok(Some("a.PDF".into())));
    assert_eq!(parse_arguments("pdf\tx.txt"), Err(ExportArgumentError::NotPdf));
    assert_eq!(destination("/d/t.pptx", Some("/o.pdf".into())), "/o.pdf");
}

#[test]
fn herdr_needs_a_complete_environment() {
    let client = |e: Option<&str>, s: Option<&str>, p: Option<&str>| {
        HerdrClient::from_env_vars(e.map(str::to_owned), s.map(str::to_owned), p.map(str::to_owned))
    };
    for c in [
        client(Some("0"), Some("socket"), Some("pane")),
        client(Some("true"), Some("socket"), Some("pane")),
        client(Some("1"), None, Some("pane")),
        client(Some("1"), Some(""), Some("pane")),
        client(Some("1"), Some("socket"), None),
        client(Some("1"), Some("socket"), Some("")),
    ] {
        assert!(!c.is_configured());
        assert_eq!(c.capability_from_probe(None), HerdrGraphicsCapability::NotHerdr);
    }
    let c = client(Some("1"), Some("/s.sock"), Some("w1:p1"));
    assert!(c.is_configured());
    let probe = |w: Option<u64>, h: Option<u64>| Some(GraphicsProbe { cell_width_px: w, cell_height_px: h });
    assert_eq!(c.capability_from_probe(probe(Some(9), Some(18))), HerdrGraphicsCapability::Paintable { width: 9, height: 18 });
    assert_eq!(c.capability_from_probe(probe(Some(0), Some(18))), HerdrGraphicsCapability::Unpaintable);
    assert_eq!(c.capability_from_probe(probe(Some(65536), Some(18))), HerdrGraphicsCapability::Unpaintable);
    assert_eq!(c.capability_from_probe(probe(Some(9), None)), HerdrGraphicsCapability::Unpaintable);
    assert_eq!(c.capability_from_probe(None), HerdrGraphicsCapability::Unpaintable);
    assert_eq!(check_response_len(65537), Err(ResponseError::TooLarge));
    assert_eq!(check_response_len(0), Err(ResponseError::Empty));
    assert_eq!(state_name(HerdrState::Blocked), "blocked");
}

#[test]
fn herdr_queue_coalesces_skips_and_retries() {
    let mut q = ReportQueue::new();
    q.report(HerdrState::Working, None);
    let first = q.next_to_send().unwrap();
    for state in [HerdrState::Idle, HerdrState::Blocked, HerdrState::Working] {
        q.report(state, None);
    }
    q.acknowledge(&first, Err("malformed response".into()));
    let retry = q.next_to_send().unwrap();
    assert_eq!(retry.state, HerdrState::Working);
    assert!(q.last_error().unwrap().contains("malformed response"));
    q.acknowledge(&retry, Ok(()));
    q.report(HerdrState::Working, None);
    assert!(q.next_to_send().is_none());
    q.report(HerdrState::Working, Some("building"));
    let sent = q.next_to_send().unwrap();
    q.acknowledge(&sent, Err("unavailable".into()));
    q.report(HerdrState::Working, Some("building"));
    assert!(q.next_to_send().is_none());
}

#[test]
fn model_choices_dedup_by_id_then_sort_by_label() {
    assert_eq!(
        unique_models_by_id(vec![
            ModelChoice { id: "b".into(), label: "Zeta".into() },
            ModelChoice { id: "a".into(), label: "Zeta".into() },
            ModelChoice { id: "b".into(), label: "Alpha".into() },
        ]),
        vec![ModelChoice { id: "b".into(), label: "Alpha".into() }, ModelChoice { id: "a".into(), label: "Zeta".into() }]
    );
}

#[test]
fn configured_model_entry_matches_its_configuration() {
    let m = AvailableModel::from_config("openai", "gpt", None);
    assert_eq!(m.display_name, "gpt");
    assert_eq!(m.auth, "");
    assert!(m.matches_config("openai", "gpt"));
    assert!(!m.matches_config("openai", "other"));
}

#[test]
fn sessions_command_line_is_strict() {
    let args = |v: &[&str]| v.iter().map(|s| Some(s.to_string())).collect::<Vec<_>>();
    assert_eq!(Command::parse(&args(&["list"])), Ok(Command::List));
    assert_eq!(Command::parse(&args(&["continue"])), Ok(Command::Continue(None)));
    assert_eq!(Command::parse(&args(&["rename", "id", "New name"])), Ok(Command::Rename { id: "id".into(), name: "New name".into() }));
    assert_eq!(Command::parse(&args(&["rename", "id"])), Err(SessionError::MissingArgument));
    assert_eq!(Command::parse(&args(&["list", "x"])), Err(SessionError::ExtraArgument));
    assert_eq!(Command::parse(&args(&["stop"])), Err(SessionError::UnknownSubcommand));
    assert_eq!(Command::parse(&vec![]), Err(SessionError::MissingSubcommand));
    assert_eq!(Command::parse(&vec![Some("delete".into()), None]), Err(SessionError::NotUtf8));
    assert_eq!(
        check_management("cur", &SessionManagement::Delete("cur".into())),
        Err(SessionError::DeletesCurrentSession)
    );
    assert!(check_management("cur", &SessionManagement::Delete("other".into())).is_ok());
}

#[test]
fn authentication_wait_accepts_standard_cancel_keys() {
    let press = |key, control| KeyPress { key, control, release: false };
    assert!(cancels_authentication(press(PickerKey::Esc, false)));
    assert!(cancels_authentication(press(PickerKey::Char('c'), true)));
    assert!(!cancels_authentication(press(PickerKey::Enter, false)));
    assert!(!cancels_authentication(press(PickerKey::Char('c'), false)));
    assert!(!cancels_authentication(KeyPress { key: PickerKey::Esc, control: false, release: true }));
}

#[test]
fn selection_arrow_uses_a_fixed_gutter() {
    let selected = format!("{}Ollama", selection_gutter(true));
    let other = format!("{}OpenAI", selection_gutter(false));
    assert_eq!(selected, "› Ollama");
    assert_eq!(other, "  OpenAI");
    assert_eq!(selection_gutter(true).chars().count(), selection_gutter(false).chars().count());
}

#[test]
fn pickers_move_within_their_rows() {
    let press = |key| KeyPress { key, control: false, release: false };
    assert_eq!(picker_step(0, 3, press(PickerKey::Up)), PickerStep::Highlight(0));
    assert_eq!(picker_step(1, 3, press(PickerKey::Char('k'))), PickerStep::Highlight(0));
    assert_eq!(picker_step(1, 3, press(PickerKey::Down)), PickerStep::Highlight(2));
    assert_eq!(picker_step(2, 3, press(PickerKey::Char('j'))), PickerStep::Highlight(2));
    assert_eq!(picker_step(1, 3, press(PickerKey::Home)), PickerStep::Highlight(0));
    assert_eq!(picker_step(0, 3, press(PickerKey::End)), PickerStep::Highlight(2));
    assert_eq!(picker_step(1, 3, press(PickerKey::Enter)), PickerStep::Chosen(1));
    assert_eq!(picker_step(1, 3, press(PickerKey::Esc)), PickerStep::Back);
    assert_eq!(picker_step(1, 3, press(PickerKey::Char('x'))), PickerStep::Highlight(1));
    assert_eq!(
        picker_step(1, 3, KeyPress { key: PickerKey::Enter, control: false, release: true }),
        PickerStep::Highlight(1)
    );
    assert_eq!(initial_selection(7, 3), 2);
    assert_eq!(initial_selection(1, 3), 1);
}

#[test]
fn picker_window_keeps_the_selection_visible() {
    assert_eq!(max_visible_rows(5), 1);
    assert_eq!(max_visible_rows(30), 20);
    assert_eq!(visible_window(0, 3, 10), (0, 3));
    assert_eq!(visible_window(10, 50, 6), (7, 13));
    assert_eq!(visible_window(49, 50, 6), (44, 50));
    assert_eq!(visible_window(2, 50, 6), (0, 6));
}

#[test]
fn model_rows_and_default_model() {
    let same = ModelChoice { id: "model-a".into(), label: "model-a".into() };
    let labelled = ModelChoice { id: "model-b".into(), label: "Model B".into() };
    assert_eq!(model_row(&same), "model-a");
    assert_eq!(model_row(&labelled), "Model B  model-b");
    let models = vec![same, labelled];
    assert_eq!(default_model_index(&models, Some("model-b")), 1);
    assert_eq!(default_model_index(&models, Some("missing")), 0);
    assert_eq!(default_model_index(&models, None), 0);
}

#[test]
fn sign_in_summaries_and_rows() {
    assert_eq!(auth_kind_summary(AuthKind::NoSignIn), "local · no sign-in");
    assert_eq!(auth_kind_summary(AuthKind::ApiKey), "API key");
    assert_eq!(auth_kind_summary(AuthKind::KimiOAuth), "browser sign-in");
    assert_eq!(auth_kind_summary(AuthKind::OllamaDeviceKey), "device sign-in");
    assert_eq!(auth_summary(&vec![AuthKind::ApiKey]), "API key");
    assert_eq!(auth_summary(&vec![AuthKind::ApiKey, AuthKind::CodexOAuth]), "2 connection options");
    let row = picker_row("OpenAI", PROVIDER_COLUMN, "API key");
    assert_eq!(row, format!("{:<22} {}", "OpenAI", "API key"));
    let long = "A provider name longer than the column";
    assert_eq!(picker_row(long, PROVIDER_COLUMN, "x"), format!("{:<22} {}", long, "x"));
}

#[test]
fn only_stored_keyring_connections_can_be_removed() {
    let entry = |id: &str, provider: &str, label: &str, kind, stored| AuthModeEntry {
        auth_id: id.into(),
        provider: provider.into(),
        login_label: label.into(),
        kind,
        stored,
    };
    let nothing_saved = vec![
        entry("ollama-local", "Ollama", "Local", AuthKind::NoSignIn, true),
        entry("ollama-cloud", "Ollama", "Cloud", AuthKind::OllamaDeviceKey, true),
        entry("xai-api-key", "xAI", "API key", AuthKind::ApiKey, false),
    ];
    assert_eq!(stored_connections(&nothing_saved), Vec::<StoredConnection>::new());
    let saved = vec![
        entry("openrouter-oauth", "OpenRouter", "Browser", AuthKind::BearerCredential, true),
        entry("openrouter-api-key", "OpenRouter", "API key", AuthKind::ApiKey, false),
        entry("xai-api-key", "xAI", "API key", AuthKind::ApiKey, true),
    ];
    assert_eq!(
        stored_connections(&saved),
        vec![
            StoredConnection { auth_id: "openrouter-oauth".into(), label: "OpenRouter · Browser".into() },
            StoredConnection { auth_id: "xai-api-key".into(), label: "xAI · API key".into() },
        ]
    );
}

#[test]
fn account_messages() {
    assert_eq!(login_message(AuthKind::NoSignIn, "Ollama", "Local", false, None), "Ollama does not require sign-in.");
    assert_eq!(
        login_message(AuthKind::ApiKey, "xAI", "API key", true, Some("timeout")),
        "Saved credentials for xAI · API key. An environment credential still takes precedence. Model discovery failed: timeout"
    );
    assert!(login_message(AuthKind::OllamaDeviceKey, "Ollama", "Cloud", false, None).starts_with("Ollama Cloud device setup"));
    assert_eq!(logout_message(true, "xAI · API key", false), "Removed saved credentials for xAI · API key.");
    assert_eq!(
        logout_message(false, "xAI · API key", true),
        "No saved credentials remain for xAI · API key. An environment credential remains active."
    );
}

#[test]
fn api_key_prompt_edits_and_saves_trimmed_text() {
    let mut secret = Vec::new();
    assert_eq!(entry_step(&mut secret, EntryKey::Enter), EntryStep::Continue);
    for c in [' ', 's', 'k', '\u{7}', 'x'] {
        assert_eq!(entry_step(&mut secret, EntryKey::Char(c)), EntryStep::Continue);
    }
    assert_eq!(secret, vec![' ', 's', 'k', 'x']);
    entry_step(&mut secret, EntryKey::Backspace);
    assert_eq!(entry_step(&mut secret, EntryKey::Enter), EntryStep::Submit("sk".into()));
    assert_eq!(entry_step(&mut secret, EntryKey::Esc), EntryStep::Back);
}

#[test]
fn command_line_chooses_help_new_inspect_or_open() {
    let args = |a: &[&str]| a.iter().map(|s| s.to_string()).collect::<Vec<_>>();
    assert_eq!(parse_command_line(&args(&[])), Ok(CliCommand::Help));
    assert_eq!(parse_command_line(&args(&["--help", "deck.pptx"])), Ok(CliCommand::Help));
    assert_eq!(parse_command_line(&args(&["new", "a.pptx"])), Ok(CliCommand::New("a.pptx".into())));
    assert_eq!(parse_command_line(&args(&["new"])), Err(CliError::NewWithoutDestination));
    assert_eq!(CliError::NewWithoutDestination.message(), "new requires a destination .pptx");
    assert_eq!(parse_command_line(&args(&["inspect", "b.pptx"])), Ok(CliCommand::Inspect("b.pptx".into())));
    assert_eq!(parse_command_line(&args(&["inspect"])), Err(CliError::InspectWithoutDeck));
    assert_eq!(CliError::InspectWithoutDeck.message(), "inspect requires a .pptx");
    assert_eq!(parse_command_line(&args(&["deck.pptx", "extra"])), Ok(CliCommand::Open("deck.pptx".into())));
    assert!(HELP.contains("slide-builder inspect DECK.pptx"));
}

#[test]
fn deck_watcher_ignores_renderer_reads() {
    let deck = "/tmp/deck.pptx";
    assert!(!deck_content_changed(FileEventKind::Access, &vec![deck.to_string()], deck));
}

#[test]
fn deck_watcher_accepts_content_changes_only_for_active_deck() {
    let deck = "/tmp/deck.pptx";
    let other_deck = "/tmp/other.pptx";
    assert!(deck_content_changed(FileEventKind::Modify, &vec![deck.to_string()], deck));
    assert!(deck_content_changed(FileEventKind::Create, &vec![deck.to_string()], deck));
    assert!(!deck_content_changed(FileEventKind::Modify, &vec![other_deck.to_string()], deck));
    assert!(deck_content_changed(
        FileEventKind::Remove,
        &vec![other_deck.to_string(), "/tmp//deck.pptx".to_string()],
        deck
    ));
}

#[test]
fn previews_are_sixteen_by_nine() {
    assert_eq!(preview_height(1280), 720);
    assert_eq!(preview_height(1000), 562);
    assert_eq!(preview_height(u32::MAX), u32::MAX / 16);
}

#[test]
fn unrelated_configuration_save_keeps_global_model_but_explicit_switch_updates_it() {
    let sel = |p: &str, a: &str, m: &str| ModelSelection { provider: p.into(), auth: a.into(), model: m.into() };
    let global = sel("global-provider", "global-auth", "global-model");
    let resumed = sel("session-provider", "session-auth", "session-model");
    // Editing another setting keeps the resumed selection in the edited configuration.
    let mut edited = resumed.clone();
    assert_eq!(selection_for_save(&edited, &resumed, &global), global);
    edited.model = "explicit-model".into();
    assert_eq!(selection_for_save(&edited, &resumed, &global), edited);
}

#[test]
fn restored_sessions_settle_live_tools_and_clamp_the_slide() {
    assert_eq!(restored_active_slide(5, 3), 2);
    assert_eq!(restored_active_slide(1, 3), 1);
    assert_eq!(restored_active_slide(4, 0), 0);
    assert_eq!(settle_tool(ToolStatus::Running), (ToolStatus::Failed, true));
    assert_eq!(settle_tool(ToolStatus::Proposed), (ToolStatus::Failed, true));
    assert_eq!(settle_tool(ToolStatus::Succeeded), (ToolStatus::Succeeded, false));
    assert_eq!(settle_tool(ToolStatus::Failed), (ToolStatus::Failed, false));
}

fn json_object(members: &[(&str, serde_json::Value)]) -> serde_json::Value {
    let mut map = serde_json::Map::new();
    for (key, value) in members {
        map.insert(key.to_string(), value.clone());
    }
    serde_json::Value::Object(map)
}

fn text(value: &str) -> serde_json::Value {
    serde_json::Value::String(value.to_string())
}

#[test]
fn herdr_requests_are_compact_json_lines() {
    let params = report_request_params("pane-1", "session \"7\"", HerdrState::Working, Some("Editing deck"));
    let expected_params = json_object(&[
        ("agent", text("slide-builder")),
        ("agent_session_id", text("session \"7\"")),
        ("message", text("Editing deck")),
        ("pane_id", text("pane-1")),
        ("source", text("herdr:slide-builder")),
        ("state", text("working")),
    ]);
    assert_eq!(params, serde_json::to_string(&expected_params).unwrap());
    let line = request_text("abc", REPORT_METHOD, &params);
    let expected = json_object(&[
        ("id", text("herdr:slide-builder:abc")),
        ("method", text("pane.report_agent")),
        ("params", expected_params),
    ]);
    assert_eq!(line, format!("{}\n", serde_json::to_string(&expected).unwrap()));
    let quiet = report_request_params("p", "s", HerdrState::Idle, None);
    assert!(!quiet.contains("message"));
    assert_eq!(
        release_request_params("p"),
        serde_json::to_string(&json_object(&[
            ("agent", text("slide-builder")),
            ("pane_id", text("p")),
            ("source", text("herdr:slide-builder")),
        ]))
        .unwrap()
    );
    assert_eq!(probe_request_params("p\n"), "{\"pane_id\":\"p\\n\"}");
    assert_eq!(PROBE_METHOD, "pane.graphics.info");
    assert_eq!(RELEASE_METHOD, "pane.release_agent");
}

#[test]
fn herdr_responses_give_results_or_errors() {
    let probe = read_response(PROBE_METHOD, b"{\"result\":{\"cell_width_px\":9,\"cell_height_px\":18}}\n").unwrap();
    assert_eq!((probe.cell_width_px, probe.cell_height_px), (Some(9), Some(18)));
    let partial = read_response(PROBE_METHOD, b"{\"result\":{\"cell_width_px\":-1}}").unwrap();
    assert_eq!((partial.cell_width_px, partial.cell_height_px), (None, None));
    assert!(read_response(REPORT_METHOD, b"{\"result\":null,\"error\":null}").is_ok());
    assert_eq!(
        read_response(REPORT_METHOD, b"{\"error\":{\"code\":1}}").unwrap_err(),
        "Herdr pane.report_agent: RPC error: {\"code\":1}"
    );
    assert_eq!(
        read_response(REPORT_METHOD, b"{}").unwrap_err(),
        "Herdr pane.report_agent: response is missing result"
    );
    assert!(read_response(REPORT_METHOD, b"not json")
        .unwrap_err()
        .starts_with("Herdr pane.report_agent: malformed response: "));
}

#[test]
fn pdf_pages_flatten_transparency_onto_white() {
    let rgba = vec![255, 0, 0, 255, 0, 0, 0, 0, 100, 50, 0, 128];
    assert_eq!(flatten_onto_white(&rgba), vec![255, 0, 0, 255, 255, 255, 177, 152, 127]);
    assert_eq!(flatten_onto_white(&Vec::new()), Vec::<u8>::new());
}

#[test]
fn discovered_directories_name_the_application() {
    match AppPaths::discover() {
        Ok(paths) => {
            assert!(paths.config_dir.contains("slide-builder"));
            assert!(paths.data_dir.contains("slide-builder"));
        }
        Err(error) => assert_eq!(error, PathError::DirectoriesUnavailable),
    }
}

#[test]
fn rpc_error_comes_before_result_and_null_error_is_absent() {
    let result = Some(ResultMember { cell_width_px: Some(9), cell_height_px: None });
    let null_error = Some(ErrorMember { is_null: true, text: "null".into() });
    assert_eq!(
        classify_rpc(Ok(ResponseFields { error: null_error, result })),
        RpcOutcome::Answered { cell_width_px: Some(9), cell_height_px: None }
    );
    let error = Some(ErrorMember { is_null: false, text: "{\"code\":1}".into() });
    assert_eq!(classify_rpc(Ok(ResponseFields { error, result })), RpcOutcome::Failed("{\"code\":1}".into()));
    assert_eq!(classify_rpc(Ok(ResponseFields { error: None, result: None })), RpcOutcome::MissingResult);
    assert_eq!(classify_rpc(Err("EOF".into())), RpcOutcome::Malformed("EOF".into()));
}

#[test]
fn command_line_secret_is_saved_untrimmed_and_blank_is_refused() {
    let mut text: Vec<char> = Vec::new();
    assert_eq!(secret_entry_step(&mut text, EntryKey::Enter), SecretStep::Continue);
    for c in [' ', 'k', '1', ' '] {
        assert_eq!(secret_entry_step(&mut text, EntryKey::Char(c)), SecretStep::Continue);
    }
    assert_eq!(secret_entry_step(&mut text, EntryKey::Enter), SecretStep::Save(" k1 ".into()));
    let mut blank = vec![' ', '\t'];
    match secret_entry_step(&mut blank, EntryKey::Enter) {
        SecretStep::Refused(error) => assert_eq!(error.message(), "API key cannot be empty"),
        other => panic!("{other:?}"),
    }
    assert_eq!(secret_entry_step(&mut blank, EntryKey::Esc), SecretStep::Cancel);
}

fn session() -> slide_builder::deck_session::TuiState {
    slide_builder::deck_session::TuiState {
        run_active: false,
        import_active: false,
        renderer_available: false,
        design_name: String::new(),
        pending_design_context: None,
        import_directory: "/work".into(),
        browser_path: "auto".into(),
    }
}

#[test]
fn session_owes_design_guidelines_to_the_next_message() {
    let (s, actions) = tui_step(
        session(),
        TuiCommand::DesignLoaded { name: "Acme".into(), path: "/d/acme".into(), guidelines: "Blue.".into() },
    );
    assert_eq!(actions, vec![TuiAction::SystemMessage("Selected design 'Acme'.".into())]);
    assert_eq!(s.design_name, "Acme");
    let (s, actions) = tui_step(s, TuiCommand::SendMessage { text: "Add a slide".into(), attach_active_slide: true });
    match &actions[0] {
        TuiAction::SendToAgent { text, attach_active_slide } => {
            assert!(text.starts_with("[slide-builder context transition] The user explicitly selected design 'Acme'."));
            assert!(text.ends_with("</design_guidelines>\n\nAdd a slide"));
            assert!(*attach_active_slide);
        }
        other => panic!("{other:?}"),
    }
    let (_, actions) = tui_step(s, TuiCommand::SendMessage { text: "Again".into(), attach_active_slide: false });
    assert_eq!(actions, vec![TuiAction::SendToAgent { text: "Again".into(), attach_active_slide: false }]);
}

#[test]
fn session_imports_one_design_at_a_time() {
    let (s, actions) = tui_step(session(), TuiCommand::ImportDesign { source: "/t/a.pptx".into(), parent: Some("/t".into()) });
    assert_eq!(actions, vec![TuiAction::StartImport { source: "/t/a.pptx".into(), configured_browser: None }]);
    assert!(s.run_active);
    assert_eq!(s.import_directory, "/t");
    let (s, actions) = tui_step(s, TuiCommand::OpenImportPicker);
    assert_eq!(actions, vec![TuiAction::SystemMessage(BUSY_MESSAGE.into())]);
    let mut busy = s.clone();
    busy.import_active = true;
    assert_eq!(tui_step(busy, TuiCommand::CancelRun).1, vec![TuiAction::CancelImport]);
    assert_eq!(tui_step(session(), TuiCommand::CancelRun).1, vec![TuiAction::CancelAgent]);
    assert_eq!(tui_step(session(), TuiCommand::RequestRender).1, vec![TuiAction::RendererUnavailable(NO_RENDERER_MESSAGE.into())]);
    let mut chromium = session();
    chromium.browser_path = "/usr/bin/chromium".into();
    assert_eq!(
        tui_step(chromium, TuiCommand::ImportDesign { source: "x.pptx".into(), parent: None }).1,
        vec![TuiAction::StartImport { source: "x.pptx".into(), configured_browser: Some("/usr/bin/chromium".into()) }]
    );
    assert_eq!(
        tui_step(session(), TuiCommand::ConfigurationSaved { changed: true }).1,
        vec![TuiAction::SystemMessage("Configuration saved. Restart slide-builder to apply the changes.".into())]
    );
}
