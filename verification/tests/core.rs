use llama_orchestrator::args::{build_server_args, model_display_name, parse_custom_args, parse_port_from_args};
use llama_orchestrator::models::{GlobalConfig, LaunchResult, ModelConfig};
use llama_orchestrator::ports::find_available_port;
use llama_orchestrator::resolver::{pick_best, resolve_executable, preferred_executable_path, Resolution, VersionCandidate};
use llama_orchestrator::text::{i32_to_string, parse_u16, path_join, u64_to_string};

#[test]
fn tokenizer_quoted_spans() {
    let tokens = parse_custom_args("--foo \"a b\" --bar");
    assert_eq!(tokens, vec!["--foo".to_string(), "a b".to_string(), "--bar".to_string()]);
}

#[test]
fn tokenizer_single_quotes_and_mixed() {
    let tokens = parse_custom_args("--ctx 'x y' z");
    assert_eq!(tokens, vec!["--ctx".to_string(), "x y".to_string(), "z".to_string()]);
}

#[test]
fn tokenizer_unbalanced_quote_emits_trailing_token() {
    let tokens = parse_custom_args("--foo \"a b");
    assert_eq!(tokens, vec!["--foo".to_string(), "a b".to_string()]);
}

#[test]
fn tokenizer_empty_and_spaces() {
    assert_eq!(parse_custom_args(""), Vec::<String>::new());
    assert_eq!(parse_custom_args("   "), Vec::<String>::new());
}

#[test]
fn tokenizer_collapses_repeated_spaces() {
    let tokens = parse_custom_args("  a   b  ");
    assert_eq!(tokens, vec!["a".to_string(), "b".to_string()]);
}

#[test]
fn port_override_space_form() {
    assert_eq!(parse_port_from_args("--port 9001", 8080), 9001);
}

#[test]
fn port_override_equals_form() {
    assert_eq!(parse_port_from_args("--ctx 4 --port=9001 --x", 8080), 9001);
}

#[test]
fn port_override_absent_keeps_default() {
    assert_eq!(parse_port_from_args("--ctx 4", 8080), 8080);
}

#[test]
fn port_override_unparseable_keeps_default() {
    assert_eq!(parse_port_from_args("--port abc", 8080), 8080);
    assert_eq!(parse_port_from_args("--port 70000", 8080), 8080);
    assert_eq!(parse_port_from_args("--port", 8080), 8080);
    assert_eq!(parse_port_from_args("--port ", 8080), 8080);
}

#[test]
fn port_override_leading_plus_parses() {
    assert_eq!(parse_port_from_args("--port +9001", 8080), 9001);
}

#[test]
fn parse_u16_behaviour() {
    assert_eq!(parse_u16(&"9001".chars().collect()), Some(9001));
    assert_eq!(parse_u16(&"+80".chars().collect()), Some(80));
    assert_eq!(parse_u16(&"65535".chars().collect()), Some(65535));
    assert_eq!(parse_u16(&"65536".chars().collect()), None);
    assert_eq!(parse_u16(&"".chars().collect()), None);
    assert_eq!(parse_u16(&"+".chars().collect()), None);
    assert_eq!(parse_u16(&"-1".chars().collect()), None);
    assert_eq!(parse_u16(&"12a".chars().collect()), None);
    assert_eq!(parse_u16(&"00080".chars().collect()), Some(80));
}

#[test]
fn port_allocation_all_occupied_returns_start() {
    let free = vec![false; 11];
    assert_eq!(find_available_port(9000, &free), 9000);
}

#[test]
fn port_allocation_takes_next_free() {
    let mut free = vec![false; 11];
    free[1] = true;
    assert_eq!(find_available_port(9000, &free), 9001);
}

#[test]
fn port_allocation_start_free_is_kept() {
    let free = vec![true; 11];
    assert_eq!(find_available_port(9000, &free), 9000);
}

#[test]
fn port_allocation_first_free_wins() {
    let mut free = vec![false; 11];
    free[4] = true;
    free[9] = true;
    assert_eq!(find_available_port(9000, &free), 9004);
}

#[test]
fn end_to_end_port_override_scenario() {
    // A model at /models/a.gguf with custom_args "--port 9001" and a
    // configured default of 8080 resolves to port 9001; with 9001 free
    // the launch binds 9001.
    let config = ModelConfig::new("/models/a.gguf".to_string());
    assert_eq!(config.server_port, 8080);
    let requested = parse_port_from_args("--port 9001", config.server_port);
    assert_eq!(requested, 9001);
    let free = vec![true; 11];
    let bound = find_available_port(requested, &free);
    assert_eq!(bound, 9001);
    let name = model_display_name("/models/a.gguf");
    assert_eq!(name, "a");
    let args = build_server_args("/models/a.gguf", "127.0.0.1", bound, "--port 9001");
    assert_eq!(
        args,
        vec![
            "-m".to_string(),
            "/models/a.gguf".to_string(),
            "--host".to_string(),
            "127.0.0.1".to_string(),
            "--port".to_string(),
            "9001".to_string(),
            "--port".to_string(),
            "9001".to_string(),
        ]
    );
}

#[test]
fn server_args_without_custom_args() {
    let args = build_server_args("/m/x.gguf", "0.0.0.0", 8080, "");
    assert_eq!(
        args,
        vec![
            "-m".to_string(),
            "/m/x.gguf".to_string(),
            "--host".to_string(),
            "0.0.0.0".to_string(),
            "--port".to_string(),
            "8080".to_string(),
        ]
    );
}

#[test]
fn display_name_cases() {
    assert_eq!(model_display_name("/models/a.gguf"), "a");
    assert_eq!(model_display_name("model.q4.gguf"), "model.q4");
    assert_eq!(model_display_name(".gguf"), ".gguf");
    assert_eq!(model_display_name("noext"), "noext");
    assert_eq!(model_display_name(""), "unknown");
    assert_eq!(model_display_name("/models/"), "unknown");
}

#[test]
fn number_rendering() {
    assert_eq!(u64_to_string(0), "0");
    assert_eq!(u64_to_string(9001), "9001");
    assert_eq!(u64_to_string(u64::MAX), "18446744073709551615");
    assert_eq!(i32_to_string(0), "0");
    assert_eq!(i32_to_string(-1), "-1");
    assert_eq!(i32_to_string(i32::MIN), "-2147483648");
}

#[test]
fn path_join_uses_forward_slash() {
    assert_eq!(path_join("/opt/llama", "versions"), "/opt/llama/versions");
}

#[test]
fn model_config_defaults() {
    let c = ModelConfig::new("/m/a.gguf".to_string());
    assert_eq!(c.custom_args, "");
    assert_eq!(c.server_host, "127.0.0.1");
    assert_eq!(c.server_port, 8080);
    assert_eq!(c.model_path, "/m/a.gguf");
}

#[test]
fn global_config_initial_layout() {
    let c = GlobalConfig::initial("/home/u");
    assert_eq!(c.models_directory, "/home/u/.llama-os/models");
    assert_eq!(c.executable_folder, "/home/u/.llama-os/llama.cpp");
    assert!(c.active_executable_folder.is_none());
    assert!(c.active_executable_version.is_none());
    assert_eq!(c.theme_color, "dark-gray");
}

#[test]
fn launch_result_builders() {
    let r = LaunchResult::for_managed(7, "127.0.0.1".to_string(), 9001, "a".to_string());
    assert!(r.success);
    assert_eq!(r.process_id, "7");
    assert_eq!(r.server_port, 9001);
    assert_eq!(r.message, "Model server launched successfully");
    let e = LaunchResult::for_external("127.0.0.1".to_string(), 9001, "a".to_string());
    assert_eq!(e.process_id, "external");
    assert_eq!(e.message, "Model launched in external terminal");
}

fn cand(name: &str, path: &str, created: Option<u64>) -> VersionCandidate {
    VersionCandidate { name: name.to_string(), path: path.to_string(), created }
}

#[test]
fn pick_best_prefers_most_recent() {
    let cands = vec![
        cand("v1", "/v/v1", Some(100)),
        cand("v3", "/v/v3", Some(300)),
        cand("v2", "/v/v2", Some(200)),
    ];
    assert_eq!(pick_best(&cands), Some(1));
}

#[test]
fn pick_best_known_time_beats_unknown() {
    let cands = vec![cand("zzz", "/v/zzz", None), cand("aaa", "/v/aaa", Some(1))];
    assert_eq!(pick_best(&cands), Some(1));
}

#[test]
fn pick_best_unknown_times_use_reverse_name_order() {
    let cands = vec![cand("b100", "/v/b100", None), cand("b900", "/v/b900", None)];
    assert_eq!(pick_best(&cands), Some(1));
}

#[test]
fn pick_best_empty_is_none() {
    assert_eq!(pick_best(&Vec::new()), None);
}

#[test]
fn preferred_path_version_name_takes_precedence() {
    let cfg = GlobalConfig {
        models_directory: "/h/.llama-os/models".to_string(),
        executable_folder: "/h/.llama-os/llama.cpp".to_string(),
        active_executable_folder: Some("/elsewhere".to_string()),
        active_executable_version: Some("v2".to_string()),
        theme_color: "dark-gray".to_string(),
    };
    let p = preferred_executable_path(&cfg, "llama-server");
    assert_eq!(p, "/h/.llama-os/llama.cpp/versions/v2/llama-server");
}

#[test]
fn preferred_path_active_folder_when_no_version() {
    let cfg = GlobalConfig {
        models_directory: "/m".to_string(),
        executable_folder: "/e".to_string(),
        active_executable_folder: Some("/elsewhere".to_string()),
        active_executable_version: None,
        theme_color: "dark-gray".to_string(),
    };
    assert_eq!(preferred_executable_path(&cfg, "llama-server"), "/elsewhere/llama-server");
}

#[test]
fn resolution_uses_existing_preferred_path() {
    // An active version that exists on disk is returned as is, without
    // consulting the fallback candidates or touching the configuration.
    let mut cfg = GlobalConfig {
        models_directory: "/m".to_string(),
        executable_folder: "/e".to_string(),
        active_executable_folder: None,
        active_executable_version: Some("v1".to_string()),
        theme_color: "dark-gray".to_string(),
    };
    let decoys = vec![cand("v9", "/e/versions/v9", Some(999))];
    let r = resolve_executable(&mut cfg, "llama-server", true, &decoys);
    match r {
        Resolution::UsePreferred { path } => assert_eq!(path, "/e/versions/v1/llama-server"),
        _ => panic!("expected the preferred path"),
    }
    assert_eq!(cfg.active_executable_version.as_deref(), Some("v1"));
    assert!(cfg.active_executable_folder.is_none());
}

#[test]
fn resolution_falls_back_to_most_recent_and_activates_it() {
    let mut cfg = GlobalConfig {
        models_directory: "/m".to_string(),
        executable_folder: "/e".to_string(),
        active_executable_folder: None,
        active_executable_version: Some("gone".to_string()),
        theme_color: "dark-gray".to_string(),
    };
    let cands = vec![
        cand("v1", "/e/versions/v1", Some(100)),
        cand("v2", "/e/versions/v2", Some(200)),
    ];
    let r = resolve_executable(&mut cfg, "llama-server", false, &cands);
    match r {
        Resolution::UseFallback { path, version_name, folder } => {
            assert_eq!(path, "/e/versions/v2/llama-server");
            assert_eq!(version_name, "v2");
            assert_eq!(folder, "/e/versions/v2");
        },
        _ => panic!("expected a fallback"),
    }
    assert_eq!(cfg.active_executable_version.as_deref(), Some("v2"));
    assert_eq!(cfg.active_executable_folder.as_deref(), Some("/e/versions/v2"));
}

#[test]
fn resolution_with_nothing_installed_reports_missing() {
    let mut cfg = GlobalConfig {
        models_directory: "/m".to_string(),
        executable_folder: "/e".to_string(),
        active_executable_folder: None,
        active_executable_version: None,
        theme_color: "dark-gray".to_string(),
    };
    let r = resolve_executable(&mut cfg, "llama-server", false, &Vec::new());
    match r {
        Resolution::Missing { path } => assert_eq!(path, "/e/llama-server"),
        _ => panic!("expected a missing resolution"),
    }
    assert!(cfg.active_executable_version.is_none());
}
