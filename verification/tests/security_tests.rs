use sentinel::models::config::ProcessConfig;

#[test]
fn test_environment_variable_injection() {
    let mut env: Vec<(String, String)> = Vec::new();
    env.push(("LD_PRELOAD".to_string(), "/malicious/lib.so".to_string()));
    env.push(("PATH".to_string(), "/malicious/bin:$PATH".to_string()));

    // Ensure dangerous environment variables are filtered or validated
    let dangerous_vars = vec!["LD_PRELOAD", "LD_LIBRARY_PATH", "DYLD_INSERT_LIBRARIES"];

    for var in dangerous_vars {
        if env.iter().any(|(key, _)| key == var) {
            // In production, either reject or carefully validate these
            println!("Warning: Dangerous environment variable {} detected", var);
        }
    }

    let config = ProcessConfig {
        name: "test".to_string(),
        command: "echo".to_string(),
        args: vec!["test".to_string()],
        cwd: None,
        env,
        auto_restart: false,
        restart_limit: 0,
        restart_delay: 0,
        depends_on: Vec::new(),
        health_check: None,
    };
    assert_eq!(config.env.len(), 2);
}

#[test]
fn test_resource_limits() {
    // In production, use rlimit crate to set resource limits
    // - Max CPU time
    // - Max memory
    // - Max file descriptors
    // - Max processes

    // This test documents the requirement
    println!("Production: Set resource limits using rlimit crate");
    println!("  - RLIMIT_CPU: 3600 seconds");
    println!("  - RLIMIT_AS: 1GB memory");
    println!("  - RLIMIT_NOFILE: 1024 file descriptors");
    println!("  - RLIMIT_NPROC: 100 child processes");
}
