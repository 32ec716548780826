use lambdo::config::{
    LambdoAgentConfig, LambdoApiConfig, LambdoConfig, LambdoLanguageConfig,
    LambdoLanguageStepConfig, LambdoLanguageStepOutputConfig, LambdoVMMConfig,
};
use lambdo::service::{LambdoApiService, RunRequest, ServiceError, SourceFile};

fn generate_lambdo_test_config() -> LambdoConfig {
    LambdoConfig {
        apiVersion: "lambdo.io/v1alpha1".to_string(),
        kind: "Config".to_string(),
        api: LambdoApiConfig {
            web_host: "0.0.0.0".to_string(),
            web_port: 3000,
            grpc_host: "0.0.0.0".to_string(),
            gprc_port: 50051,
            bridge: "lambdo0".to_string(),
            bridge_address: "0.0.0.0".to_string(),
        },
        vmm: LambdoVMMConfig {
            kernel: "/var/lib/lambdo/kernel/vmlinux.bin".to_string(),
        },
        agent: LambdoAgentConfig {
            path: "/usr/local/bin/lambdo-agent".to_string(),
            config: "/etc/lambdo/agent.yaml".to_string(),
        },
        languages: vec![
            LambdoLanguageConfig {
                name: "NODE".to_string(),
                version: "1.0".to_string(),
                initramfs: "test".to_string(),
                steps: vec![
                    LambdoLanguageStepConfig {
                        name: Some("step 1".to_string()),
                        command: "echo {{filename}}".to_string(),
                        output: LambdoLanguageStepOutputConfig {
                            enabled: true,
                            debug: false,
                        },
                    },
                    LambdoLanguageStepConfig {
                        name: Some("step 2".to_string()),
                        command: "echo hello".to_string(),
                        output: LambdoLanguageStepOutputConfig {
                            enabled: true,
                            debug: false,
                        },
                    },
                    LambdoLanguageStepConfig {
                        name: Some("step 3".to_string()),
                        command: "cat {{filename}} > {{filename}}".to_string(),
                        output: LambdoLanguageStepOutputConfig {
                            enabled: true,
                            debug: false,
                        },
                    },
                ],
            },
            LambdoLanguageConfig {
                name: "PYTHON".to_string(),
                version: "3.0".to_string(),
                initramfs: "test".to_string(),
                steps: vec![LambdoLanguageStepConfig {
                    name: Some("step".to_string()),
                    command: "echo {{filename}}".to_string(),
                    output: LambdoLanguageStepOutputConfig {
                        enabled: true,
                        debug: false,
                    },
                }],
            },
        ],
    }
}

#[test]
fn test_generate_steps() {
    let language_settings = LambdoLanguageConfig {
        name: "NODE".to_string(),
        version: "1.0".to_string(),
        initramfs: "test".to_string(),
        steps: generate_lambdo_test_config().languages[0].steps.clone(),
    };
    let entrypoint = "index.js";

    let expected_steps = vec![
        "echo index.js".to_string(),
        "echo hello".to_string(),
        "cat index.js > index.js".to_string(),
    ];

    let steps = LambdoApiService::generate_steps(&language_settings, &entrypoint);

    assert_eq!(steps.len(), 3);
    for (i, step) in steps.iter().enumerate() {
        assert_eq!(step.command, expected_steps[i]);
    }
}

#[test]
fn test_find_language() {
    let config = generate_lambdo_test_config();
    let service = LambdoApiService::new(config.clone());

    let language = "NODE".to_string();
    let language_settings = service.find_language(&language).unwrap();

    assert_eq!(language_settings.name, language);
    assert_eq!(language_settings.steps[0].name, Some("step 1".to_string()));
}

#[test]
fn find_language_is_case_sensitive() {
    let service = LambdoApiService::new(generate_lambdo_test_config());
    assert!(matches!(
        service.find_language(&"node".to_string()),
        Err(ServiceError::LanguageNotFound)
    ));
    assert!(matches!(
        service.find_language(&"RUBY".to_string()),
        Err(ServiceError::LanguageNotFound)
    ));
}

#[test]
fn find_language_returns_only_the_matching_profile() {
    let service = LambdoApiService::new(generate_lambdo_test_config());
    let node = service.find_language(&"NODE".to_string()).unwrap();
    assert_eq!(node.steps.len(), 3);
    assert_eq!(node.steps[1].command, "echo hello");
    let python = service.find_language(&"PYTHON".to_string()).unwrap();
    assert_eq!(python.version, "3.0");
    assert_eq!(python.steps.len(), 1);
}

#[test]
fn generate_steps_keeps_output_flags_and_unmatched_text() {
    let language_settings = LambdoLanguageConfig {
        name: "X".to_string(),
        version: "1".to_string(),
        initramfs: "img".to_string(),
        steps: vec![
            LambdoLanguageStepConfig {
                name: None,
                command: "run {{file}} {{filename}}{{filename}}".to_string(),
                output: LambdoLanguageStepOutputConfig { enabled: false, debug: true },
            },
            LambdoLanguageStepConfig {
                name: None,
                command: "{filename}".to_string(),
                output: LambdoLanguageStepOutputConfig { enabled: true, debug: false },
            },
        ],
    };
    let steps = LambdoApiService::generate_steps(&language_settings, "main.py");
    assert_eq!(steps.len(), 2);
    assert_eq!(steps[0].command, "run {{file}} main.pymain.py");
    assert!(!steps[0].enable_output);
    assert_eq!(steps[1].command, "{filename}");
    assert!(steps[1].enable_output);
}

fn job(language: &str, files: Vec<(&str, &str)>, input: &str) -> RunRequest {
    RunRequest {
        language: language.to_string(),
        version: "1.0".to_string(),
        code: files
            .into_iter()
            .map(|(f, c)| SourceFile { filename: f.to_string(), content: c.to_string() })
            .collect(),
        input: input.to_string(),
    }
}

#[test]
fn build_request_packages_entry_point_and_input() {
    let service = LambdoApiService::new(generate_lambdo_test_config());
    let request = job("NODE", vec![("index.js", "console.log(1)")], "42");
    let (req, lang) = service.build_request(&request, "id-1".to_string()).unwrap();
    assert_eq!(req.id, "id-1");
    assert_eq!(lang.name, "NODE");
    assert_eq!(req.steps.len(), 3);
    assert_eq!(req.steps[2].command, "cat index.js > index.js");
    assert_eq!(req.files.len(), 2);
    assert_eq!(req.files[0].filename, "index.js");
    assert_eq!(req.files[0].content, "console.log(1)");
    assert_eq!(req.files[1].filename, "input.input");
    assert_eq!(req.files[1].content, "42");
}

#[test]
fn build_request_errors() {
    let service = LambdoApiService::new(generate_lambdo_test_config());
    let no_file = job("NODE", vec![], "");
    assert!(matches!(
        service.build_request(&no_file, "x".to_string()),
        Err(ServiceError::NoSourceFile)
    ));
    let unknown = job("RUST", vec![("main.rs", "")], "");
    assert!(matches!(
        service.build_request(&unknown, "x".to_string()),
        Err(ServiceError::LanguageNotFound)
    ));
}

#[test]
fn prepare_run_assigns_fresh_identifiers() {
    let service = LambdoApiService::new(generate_lambdo_test_config());
    let request = job("PYTHON", vec![("main.py", "print(1)")], "");
    let (a, _) = service.prepare_run(&request).unwrap();
    let (b, _) = service.prepare_run(&request).unwrap();
    assert_eq!(a.id.len(), 36);
    assert_eq!(a.id.matches('-').count(), 4);
    assert_ne!(a.id, b.id);
    assert_eq!(a.steps[0].command, "echo main.py");
}
