use sentinel::engine::config::{find_name, process_names, ConfigManager};
use sentinel::engine::dependency::{depth_first_search, order_graph};
use sentinel::error::SentinelError;
use sentinel::models::config::{
    default_auto_restart, default_graceful_shutdown_timeout, default_log_level,
    default_max_log_files, default_max_log_size, default_restart_delay, default_restart_limit,
    is_valid_process_name, Config, GlobalSettings, ProcessConfig,
};

fn process(name: &str, command: &str, depends_on: &[&str]) -> ProcessConfig {
    ProcessConfig {
        name: name.to_string(),
        command: command.to_string(),
        args: vec![],
        cwd: None,
        env: vec![],
        auto_restart: true,
        restart_limit: 5,
        restart_delay: 1000,
        depends_on: depends_on.iter().map(|s| s.to_string()).collect(),
        health_check: None,
    }
}

fn config_of(processes: Vec<ProcessConfig>) -> Config {
    Config { processes, settings: GlobalSettings::default(), global_env: vec![] }
}

#[test]
fn test_validate_duplicate_names() {
    let config = Config {
        processes: vec![
            ProcessConfig {
                name: "dup".to_string(),
                command: "cmd1".to_string(),
                args: vec![],
                cwd: None,
                env: vec![],
                auto_restart: true,
                restart_limit: 5,
                restart_delay: 1000,
                depends_on: vec![],
                health_check: None,
            },
            ProcessConfig {
                name: "dup".to_string(),
                command: "cmd2".to_string(),
                args: vec![],
                cwd: None,
                env: vec![],
                auto_restart: true,
                restart_limit: 5,
                restart_delay: 1000,
                depends_on: vec![],
                health_check: None,
            },
        ],
        settings: Default::default(),
        global_env: vec![],
    };

    let result = ConfigManager::validate(&config);
    assert!(matches!(result, Err(SentinelError::InvalidConfig { .. })));
}

#[test]
fn test_validate_unknown_dependency() {
    let config = Config {
        processes: vec![ProcessConfig {
            name: "test".to_string(),
            command: "cmd".to_string(),
            args: vec![],
            cwd: None,
            env: vec![],
            auto_restart: true,
            restart_limit: 5,
            restart_delay: 1000,
            depends_on: vec!["nonexistent".to_string()],
            health_check: None,
        }],
        settings: Default::default(),
        global_env: vec![],
    };

    let result = ConfigManager::validate(&config);
    assert!(matches!(result, Err(SentinelError::UnknownDependency { .. })));
}

#[test]
fn test_validate_circular_dependency() {
    let config = Config {
        processes: vec![
            ProcessConfig {
                name: "A".to_string(),
                command: "cmd".to_string(),
                args: vec![],
                cwd: None,
                env: vec![],
                auto_restart: true,
                restart_limit: 5,
                restart_delay: 1000,
                depends_on: vec!["B".to_string()],
                health_check: None,
            },
            ProcessConfig {
                name: "B".to_string(),
                command: "cmd".to_string(),
                args: vec![],
                cwd: None,
                env: vec![],
                auto_restart: true,
                restart_limit: 5,
                restart_delay: 1000,
                depends_on: vec!["A".to_string()],
                health_check: None,
            },
        ],
        settings: Default::default(),
        global_env: vec![],
    };

    let result = ConfigManager::validate(&config);
    assert!(matches!(result, Err(SentinelError::DependencyCycle { .. })));
}

#[test]
fn test_default_config() {
    let config = ConfigManager::default_config();
    assert_eq!(config.processes.len(), 1);
    assert_eq!(config.processes[0].name, "example");
    assert!(ConfigManager::validate(&config).is_ok());
}

#[test]
fn test_dependency_cycle_dos() {
    let config = Config {
        processes: vec![
            ProcessConfig {
                name: "a".to_string(),
                command: "echo".to_string(),
                args: vec![],
                cwd: None,
                env: vec![],
                depends_on: vec!["b".to_string()],
                auto_restart: true,
                restart_limit: 5,
                restart_delay: 1000,
                health_check: None,
            },
            ProcessConfig {
                name: "b".to_string(),
                command: "echo".to_string(),
                args: vec![],
                cwd: None,
                env: vec![],
                depends_on: vec!["a".to_string()],
                auto_restart: true,
                restart_limit: 5,
                restart_delay: 1000,
                health_check: None,
            },
        ],
        settings: GlobalSettings::default(),
        global_env: vec![],
    };

    // Validation should detect cycle
    let validation_result = ConfigManager::validate(&config);
    assert!(validation_result.is_err(), "Dependency cycle was not detected");
}

#[test]
fn test_global_settings_defaults() {
    let settings = GlobalSettings::default();
    assert_eq!(settings.log_level, "info");
    assert_eq!(settings.max_log_size, 10 * 1024 * 1024);
    assert_eq!(settings.max_log_files, 5);
    assert_eq!(settings.graceful_shutdown_timeout, 30_000);
}

#[test]
fn test_process_name_validation() {
    let valid_names = vec!["my-app", "backend_service", "api.server", "worker123"];

    let invalid_names = vec![
        "".to_string(),                    // Empty
        "a".repeat(256),                   // Too long
        "my app".to_string(),              // Spaces
        "../../../etc/passwd".to_string(), // Path traversal
        "process\x00name".to_string(),     // Null byte
        "process\nname".to_string(),       // Newline
    ];

    for name in valid_names {
        assert!(is_valid_process_name(name), "Valid name rejected: {}", name);
    }

    for name in invalid_names {
        assert!(!is_valid_process_name(&name), "Invalid name accepted: {}", name);
    }
}

#[test]
fn test_log_input_sanitization() {
    let malicious_process_names = vec![
        "../../../var/log/system.log",
        "/etc/passwd",
        "process\x00name",
        "process\n../../sensitive.log",
    ];

    for name in malicious_process_names {
        // Validate process name before using in filesystem operations
        assert!(!is_valid_process_name(name), "Malicious name not rejected: {}", name);
    }
}

#[test]
fn process_name_length_limit_is_128_characters() {
    assert!(is_valid_process_name(&"a".repeat(128)));
    assert!(!is_valid_process_name(&"a".repeat(129)));
    assert!(is_valid_process_name("A-Z_a-z.0-9"));
    assert!(!is_valid_process_name("caf\u{e9}"));
    assert!(!is_valid_process_name("semi;colon"));
}

#[test]
fn config_defaults_of_a_process() {
    assert!(default_auto_restart());
    assert_eq!(default_restart_limit(), 5);
    assert_eq!(default_restart_delay(), 1000);
    assert_eq!(default_log_level(), "info");
    assert_eq!(default_max_log_size(), 10_485_760);
    assert_eq!(default_max_log_files(), 5);
    assert_eq!(default_graceful_shutdown_timeout(), 30_000);
    let settings = GlobalSettings::default();
    assert!(settings.log_directory.is_none());
    let config = ConfigManager::default_config();
    assert_eq!(config.processes[0].command, "echo 'Hello from Sentinel'");
    assert!(config.processes[0].auto_restart);
    assert_eq!(config.processes[0].restart_limit, 5);
    assert_eq!(config.processes[0].restart_delay, 1000);
    assert!(config.global_env.is_empty());
    let copy = config.clone();
    assert_eq!(copy.processes[0].name, "example");
    assert_eq!(copy.settings.log_level, "info");
}

#[test]
fn validate_names_the_repeated_name() {
    let config = config_of(vec![
        process("one", "cmd", &[]),
        process("two", "cmd", &[]),
        process("one", "cmd", &[]),
        process("two", "cmd", &[]),
    ]);
    match ConfigManager::validate(&config) {
        Err(SentinelError::InvalidConfig { reason }) => {
            assert_eq!(reason, "Duplicate process name: 'one'")
        },
        other => panic!("unexpected result: {:?}", other),
    }
}

#[test]
fn validate_rejects_blank_name_and_blank_command() {
    let blank_name = config_of(vec![process(" \t", "cmd", &[])]);
    match ConfigManager::validate(&blank_name) {
        Err(SentinelError::InvalidConfig { reason }) => {
            assert_eq!(reason, "Process name cannot be empty")
        },
        other => panic!("unexpected result: {:?}", other),
    }
    let blank_command = config_of(vec![process("api", "  \u{00a0} ", &[])]);
    match ConfigManager::validate(&blank_command) {
        Err(SentinelError::InvalidConfig { reason }) => {
            assert_eq!(reason, "Process 'api' has empty command")
        },
        other => panic!("unexpected result: {:?}", other),
    }
    let empty_name = config_of(vec![process("", "cmd", &[])]);
    assert!(matches!(
        ConfigManager::validate(&empty_name),
        Err(SentinelError::InvalidConfig { .. })
    ));
}

#[test]
fn validate_reports_the_first_fault_in_declaration_order() {
    // A repeated name comes before any fault of a single process.
    let config = config_of(vec![
        process("a", "cmd", &["missing"]),
        process("a", "cmd", &[]),
    ]);
    assert!(matches!(ConfigManager::validate(&config), Err(SentinelError::InvalidConfig { .. })));

    // The first process with a fault is reported, and its first unknown dependency.
    let config = config_of(vec![
        process("a", "cmd", &["b"]),
        process("b", "cmd", &["a", "x", "y"]),
        process("c", "", &[]),
    ]);
    match ConfigManager::validate(&config) {
        Err(SentinelError::UnknownDependency { process, dependency }) => {
            assert_eq!(process, "b");
            assert_eq!(dependency, "x");
        },
        other => panic!("unexpected result: {:?}", other),
    }
}

#[test]
fn validate_accepts_a_configuration_without_faults() {
    let config = config_of(vec![
        process("frontend", "npm start", &["backend"]),
        process("backend", "cargo run", &["database"]),
        process("database", "docker-compose up postgres", &[]),
    ]);
    assert!(ConfigManager::validate(&config).is_ok());
    assert!(ConfigManager::check_dependency_cycles(&config).is_ok());
    assert!(ConfigManager::validate(&config_of(vec![])).is_ok());
}

#[test]
fn cycle_error_names_the_dependency_and_then_the_dependent() {
    let config = config_of(vec![process("A", "cmd", &["B"]), process("B", "cmd", &["A"])]);
    match ConfigManager::check_dependency_cycles(&config) {
        Err(SentinelError::DependencyCycle { deps }) => {
            assert_eq!(deps, vec!["A".to_string(), "B".to_string()])
        },
        other => panic!("unexpected result: {:?}", other),
    }
    let own = config_of(vec![process("solo", "cmd", &["solo"])]);
    match ConfigManager::validate(&own) {
        Err(SentinelError::DependencyCycle { deps }) => {
            assert_eq!(deps, vec!["solo".to_string(), "solo".to_string()])
        },
        other => panic!("unexpected result: {:?}", other),
    }
    let long = config_of(vec![
        process("a", "cmd", &["b"]),
        process("b", "cmd", &["c"]),
        process("c", "cmd", &["a"]),
    ]);
    match ConfigManager::validate(&long) {
        Err(SentinelError::DependencyCycle { deps }) => {
            assert_eq!(deps, vec!["a".to_string(), "c".to_string()])
        },
        other => panic!("unexpected result: {:?}", other),
    }
}

#[test]
fn start_order_puts_dependencies_first() {
    let config = config_of(vec![
        process("a", "cmd", &["b"]),
        process("b", "cmd", &["c"]),
        process("c", "cmd", &[]),
    ]);
    let order = ConfigManager::start_order(&config).unwrap();
    assert_eq!(order, vec!["c".to_string(), "b".to_string(), "a".to_string()]);
}

#[test]
fn start_order_breaks_ties_by_declaration_order() {
    let independent = config_of(vec![
        process("x", "cmd", &[]),
        process("y", "cmd", &[]),
        process("z", "cmd", &[]),
    ]);
    assert_eq!(
        ConfigManager::start_order(&independent).unwrap(),
        vec!["x".to_string(), "y".to_string(), "z".to_string()]
    );

    let config = config_of(vec![
        process("a", "cmd", &["c"]),
        process("b", "cmd", &[]),
        process("c", "cmd", &[]),
    ]);
    assert_eq!(
        ConfigManager::start_order(&config).unwrap(),
        vec!["c".to_string(), "a".to_string(), "b".to_string()]
    );

    let diamond = config_of(vec![
        process("app", "cmd", &["api", "worker"]),
        process("worker", "cmd", &["db"]),
        process("api", "cmd", &["db", "cache"]),
        process("cache", "cmd", &[]),
        process("db", "cmd", &[]),
    ]);
    assert_eq!(
        ConfigManager::start_order(&diamond).unwrap(),
        vec![
            "db".to_string(),
            "cache".to_string(),
            "api".to_string(),
            "worker".to_string(),
            "app".to_string()
        ]
    );
    assert!(ConfigManager::start_order(&config_of(vec![])).unwrap().is_empty());
}

#[test]
fn start_order_respects_every_edge_of_a_larger_graph() {
    let mut processes = Vec::new();
    for i in 0..12usize {
        let mut deps: Vec<String> = Vec::new();
        for j in (i + 1)..12 {
            if (i * 7 + j * 3) % 4 == 0 {
                deps.push(format!("p{}", j));
            }
        }
        let refs: Vec<&str> = deps.iter().map(|s| s.as_str()).collect();
        processes.push(process(&format!("p{}", i), "cmd", &refs));
    }
    let config = config_of(processes);
    let order = ConfigManager::start_order(&config).unwrap();
    assert_eq!(order.len(), 12);
    for p in &config.processes {
        let own = order.iter().position(|n| *n == p.name).unwrap();
        assert_eq!(order.iter().filter(|n| **n == p.name).count(), 1);
        for dep in &p.depends_on {
            let at = order.iter().position(|n| n == dep).unwrap();
            assert!(at < own, "{} must start before {}", dep, p.name);
        }
    }
}

#[test]
fn start_order_reports_faults() {
    let duplicate = config_of(vec![process("a", "cmd", &[]), process("a", "cmd", &[])]);
    match ConfigManager::start_order(&duplicate) {
        Err(SentinelError::InvalidConfig { reason }) => {
            assert_eq!(reason, "Duplicate process name: 'a'")
        },
        other => panic!("unexpected result: {:?}", other),
    }
    let unknown = config_of(vec![process("a", "cmd", &[]), process("b", "cmd", &["a", "ghost"])]);
    match ConfigManager::start_order(&unknown) {
        Err(SentinelError::UnknownDependency { process, dependency }) => {
            assert_eq!(process, "b");
            assert_eq!(dependency, "ghost");
        },
        other => panic!("unexpected result: {:?}", other),
    }
    let cycle = config_of(vec![
        process("a", "cmd", &[]),
        process("b", "cmd", &["c"]),
        process("c", "cmd", &["b"]),
    ]);
    match ConfigManager::start_order(&cycle) {
        Err(SentinelError::DependencyCycle { deps }) => {
            assert_eq!(deps, vec!["b".to_string(), "c".to_string()])
        },
        other => panic!("unexpected result: {:?}", other),
    }
    // A blank command does not keep the processes from being ordered.
    let blank = config_of(vec![process("a", "", &[])]);
    assert_eq!(ConfigManager::start_order(&blank).unwrap(), vec!["a".to_string()]);
}

#[test]
fn graph_search_on_indices() {
    // 0 -> 1 -> 2, 3 alone
    let rows: Vec<Vec<usize>> = vec![vec![1], vec![2], vec![], vec![]];
    assert_eq!(order_graph(&rows), Ok(vec![2, 1, 0, 3]));
    // 0 -> 1 -> 0
    let rows: Vec<Vec<usize>> = vec![vec![1], vec![0]];
    assert_eq!(order_graph(&rows), Err((0, 1)));

    let rows: Vec<Vec<usize>> = vec![vec![2, 1], vec![], vec![1]];
    let mut visited = vec![false; 3];
    let mut in_progress = vec![false; 3];
    let mut order: Vec<usize> = Vec::new();
    assert_eq!(depth_first_search(&rows, 0, &mut visited, &mut in_progress, &mut order), None);
    assert_eq!(order, vec![1, 2, 0]);
    assert_eq!(visited, vec![true, true, true]);
    assert_eq!(in_progress, vec![false, false, false]);

    let names = vec!["a".to_string(), "b".to_string(), "c".to_string()];
    let mut visited = vec![false; 3];
    let mut rec_stack = vec![false; 3];
    let mut order: Vec<usize> = Vec::new();
    let cyclic: Vec<Vec<usize>> = vec![vec![1], vec![2], vec![0]];
    let found = ConfigManager::dfs_cycle(&cyclic, &names, 0, &mut visited, &mut rec_stack, &mut order);
    assert_eq!(found, Some(vec!["a".to_string(), "c".to_string()]));

    // A cycle that the start node reaches without lying on it: 0 -> 1 -> 2 -> 1.
    let tail: Vec<Vec<usize>> = vec![vec![1], vec![2], vec![1]];
    let mut visited = vec![false; 3];
    let mut rec_stack = vec![false; 3];
    let mut order: Vec<usize> = Vec::new();
    let found = ConfigManager::dfs_cycle(&tail, &names, 0, &mut visited, &mut rec_stack, &mut order);
    assert_eq!(found, Some(vec!["b".to_string(), "c".to_string()]));
    // From a node that reaches no cycle nothing is found.
    let apart: Vec<Vec<usize>> = vec![vec![], vec![2], vec![1]];
    let mut visited = vec![false; 3];
    let mut rec_stack = vec![false; 3];
    let mut order: Vec<usize> = Vec::new();
    let found = ConfigManager::dfs_cycle(&apart, &names, 0, &mut visited, &mut rec_stack, &mut order);
    assert_eq!(found, None);
    assert_eq!(order, vec![0]);
}

#[test]
fn names_are_found_at_their_first_position() {
    let config = config_of(vec![
        process("a", "cmd", &[]),
        process("b", "cmd", &[]),
        process("a", "cmd", &[]),
    ]);
    let names = process_names(&config.processes);
    assert_eq!(names, vec!["a".to_string(), "b".to_string(), "a".to_string()]);
    assert_eq!(find_name(&names, "a"), Some(0));
    assert_eq!(find_name(&names, "b"), Some(1));
    assert_eq!(find_name(&names, "c"), None);
    assert_eq!(find_name(&names, "A"), None);
    assert!(ConfigManager::check_unique_names(&names).is_err());
    let rows = ConfigManager::resolve_dependencies(
        &vec![process("x", "cmd", &["y", "y"]), process("y", "cmd", &[])],
        &vec!["x".to_string(), "y".to_string()],
    );
    assert_eq!(rows, vec![vec![1, 1], vec![]]);
    assert!(ConfigManager::validate_process(&process("x", "cmd", &["y"]), &names).is_err());
    assert!(ConfigManager::check_dependencies(&process("x", "cmd", &["a", "b"]), &names).is_ok());
}

#[test]
fn global_environment_lies_beneath_the_environment_of_the_process() {
    let mut own = process("api", "node server.js", &[]);
    own.env = vec![
        ("PORT".to_string(), "3000".to_string()),
        ("MODE".to_string(), "dev".to_string()),
    ];
    let global = vec![
        ("PORT".to_string(), "80".to_string()),
        ("HOME".to_string(), "/srv".to_string()),
    ];
    let merged = own.with_global_env(&global);
    assert_eq!(
        merged.env,
        vec![
            ("PORT".to_string(), "80".to_string()),
            ("HOME".to_string(), "/srv".to_string()),
            ("PORT".to_string(), "3000".to_string()),
            ("MODE".to_string(), "dev".to_string()),
        ]
    );
    // Applied in order, the entry of the process is the one that stays.
    let mut applied = std::collections::HashMap::new();
    for (key, value) in &merged.env {
        applied.insert(key.clone(), value.clone());
    }
    assert_eq!(applied["PORT"], "3000");
    assert_eq!(applied["HOME"], "/srv");
    assert_eq!(applied["MODE"], "dev");
    assert_eq!(merged.name, "api");
    assert_eq!(merged.command, "node server.js");
    assert_eq!(own.with_global_env(&vec![]).env, own.env);
}

fn env_of(pairs: &[(&str, &str)]) -> Vec<(String, String)> {
    pairs.iter().map(|(k, v)| (k.to_string(), v.to_string())).collect()
}

#[test]
fn test_interpolate_env_vars_simple() {
    let env = env_of(&[("TEST_VAR", "test_value")]);

    let result = ConfigManager::interpolate_env_vars("Value is ${TEST_VAR}", &env);
    assert_eq!(result, "Value is test_value");
}

#[test]
fn test_interpolate_env_vars_with_default() {
    // Make sure variable doesn't exist
    let env = env_of(&[]);

    let result = ConfigManager::interpolate_env_vars("${NONEXISTENT_VAR:-default_value}", &env);
    assert_eq!(result, "default_value");
}

#[test]
fn test_interpolate_env_vars_multiple() {
    let env = env_of(&[("HOST", "localhost"), ("PORT", "3000")]);

    let result = ConfigManager::interpolate_env_vars("http://${HOST}:${PORT}/api", &env);
    assert_eq!(result, "http://localhost:3000/api");
}

#[test]
fn test_interpolate_env_vars_missing_no_default() {
    let env = env_of(&[]);

    // Without a default the reference stays as it is
    let result = ConfigManager::interpolate_env_vars("Value: ${MISSING}", &env);
    assert_eq!(result, "Value: ${MISSING}");
}

#[test]
fn test_interpolate_env_vars_with_numbers() {
    let env = env_of(&[("VAR_123", "value")]);

    let result = ConfigManager::interpolate_env_vars("${VAR_123}", &env);
    assert_eq!(result, "value");
}

#[test]
fn test_interpolate_env_vars_empty_default() {
    let env = env_of(&[]);

    let result = ConfigManager::interpolate_env_vars("${EMPTY_TEST:-}", &env);
    assert_eq!(result, "");
}

#[test]
fn test_interpolate_env_vars_in_config() {
    let env = env_of(&[("API_PORT", "8080")]);

    let yaml = r#"
processes:
  - name: api
    command: npm start
    env:
      PORT: ${API_PORT:-3000}
settings:
  logLevel: info
"#;

    let interpolated = ConfigManager::interpolate_env_vars(yaml, &env);
    assert!(interpolated.contains("PORT: 8080"));
    assert!(!interpolated.contains("${API_PORT"));
}

#[test]
fn interpolation_leaves_what_is_no_reference_as_it_is() {
    let env = env_of(&[("A", "1"), ("B", "first"), ("B", "second"), ("_x9", "u")]);
    let run = |text: &str| ConfigManager::interpolate_env_vars(text, &env);
    assert_eq!(run(""), "");
    assert_eq!(run("plain text"), "plain text");
    assert_eq!(run("$A ${ A} ${} ${9A} ${A"), "$A ${ A} ${} ${9A} ${A");
    assert_eq!(run("${A}${A}"), "11");
    assert_eq!(run("${B}"), "second");
    assert_eq!(run("${_x9}"), "u");
    assert_eq!(run("${A:-unused}"), "1");
    assert_eq!(run("${C:-with spaces: and ${ signs}"), "with spaces: and ${ signs");
    assert_eq!(run("${C:-}}"), "}");
    assert_eq!(run("${C:x}"), "${C:x}");
    assert_eq!(run("${C-}"), "${C-}");
    assert_eq!(run("${C:-never closed"), "${C:-never closed");
    assert_eq!(run("${${A}}"), "${1}");
    assert_eq!(run("$${A}"), "$1");
    assert_eq!(run("${A}}"), "1}");
    assert_eq!(run("caf\u{e9} ${A} \u{1F600}"), "caf\u{e9} 1 \u{1F600}");
    assert_eq!(run("${\u{e9}}"), "${\u{e9}}");
    // What a value holds is not read again.
    let nested = env_of(&[("OUTER", "${INNER}"), ("INNER", "x")]);
    assert_eq!(ConfigManager::interpolate_env_vars("${OUTER}", &nested), "${INNER}");
}

#[test]
fn undeclared_dependencies_lie_on_no_cycle() {
    // A dependency that names no process is passed over by the cycle check.
    let config = config_of(vec![
        process("a", "cmd", &["ghost", "b"]),
        process("b", "cmd", &["phantom"]),
    ]);
    assert!(ConfigManager::check_dependency_cycles(&config).is_ok());
    // The whole validation still reports it.
    assert!(matches!(
        ConfigManager::validate(&config),
        Err(SentinelError::UnknownDependency { .. })
    ));
    // A cycle beside it is found all the same.
    let cyclic = config_of(vec![
        process("a", "cmd", &["ghost", "b"]),
        process("b", "cmd", &["a"]),
    ]);
    match ConfigManager::check_dependency_cycles(&cyclic) {
        Err(SentinelError::DependencyCycle { deps }) => {
            assert_eq!(deps, vec!["a".to_string(), "b".to_string()])
        },
        other => panic!("unexpected result: {:?}", other),
    }

    let names = process_names(&config.processes);
    let rows = ConfigManager::resolve_dependencies(&config.processes, &names);
    assert_eq!(rows, vec![vec![2, 1], vec![2]]);
    assert_eq!(order_graph(&rows), Ok(vec![1, 0]));
    assert_eq!(order_graph(&vec![vec![7], vec![0, 9]]), Ok(vec![0, 1]));
    assert_eq!(order_graph(&vec![vec![1, 9], vec![9, 0]]), Err((0, 1)));

    let mut visited = vec![false; 2];
    let mut rec_stack = vec![false; 2];
    let mut order: Vec<usize> = Vec::new();
    let found = ConfigManager::dfs_cycle(&rows, &names, 0, &mut visited, &mut rec_stack, &mut order);
    assert_eq!(found, None);
    assert_eq!(order, vec![1, 0]);
}
