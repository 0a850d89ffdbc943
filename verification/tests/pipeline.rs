use arch_demo::env_file::build_frontend;
use arch_demo::error::SetupError;
use arch_demo::layout::{demo_manifest, Tree};
use arch_demo::pipeline::{Action, Event, Pipeline, Settings, Stage};
use arch_demo::registry::{KeyPair, KeyRecord, KeyRegistry};

const PRISTINE: &str =
    "VITE_PROGRAM_PUBKEY=\nVITE_WALL_ACCOUNT_PUBKEY=\nVITE_NETWORK=\nVITE_RPC_URL=http://old:8080\n";

fn keypair(seed: u8) -> KeyPair {
    let mut public_key = [0u8; 33];
    public_key[0] = 2;
    for (i, b) in public_key.iter_mut().enumerate().skip(1) {
        *b = seed.wrapping_add(i as u8);
    }
    KeyPair { secret_key: [seed; 32], public_key }
}

fn hex_id(seed: u8) -> String {
    keypair(seed).identifier().to_hex()
}

fn registry(records: &[(&str, u8)]) -> KeyRegistry {
    let mut registry = KeyRegistry::new();
    for (name, seed) in records {
        assert!(registry.insert(KeyRecord { name: name.to_string(), keypair: keypair(*seed) }));
    }
    registry
}

fn settings() -> Settings {
    Settings { network: None, rpc_url: Some("http://rpc:9".to_string()), leader_rpc_endpoint: None }
}

fn started() -> Pipeline {
    let (pipeline, action) = Pipeline::start(settings());
    assert_eq!(action, Action::ProbeSharedLibraries);
    assert_eq!(pipeline.stage(), Stage::ProbingSharedLibraries);
    pipeline
}

/// A pipeline that has entered the demo's directory and asked for the
/// environment file.
fn at_env_file() -> Pipeline {
    let mut pipeline = started();
    assert_eq!(pipeline.step(Event::Exists(true)), Action::CreateProjectsDir);
    assert_eq!(pipeline.step(Event::Completed), Action::ProbeDemoDir);
    assert_eq!(pipeline.step(Event::Exists(true)), Action::EnterDemoDir);
    assert_eq!(pipeline.step(Event::Completed), Action::ReadEnvFile);
    assert_eq!(pipeline.stage(), Stage::ReadingEnvFile);
    pipeline
}

fn deploy(seed: u8) -> Action {
    Action::DeployProgram {
        keypair: keypair(seed),
        program_id: keypair(seed).identifier().serialize(),
        rpc_url: "http://rpc:9".to_string(),
    }
}

fn activate(seed: u8) -> Action {
    Action::ActivateProgram {
        keypair: keypair(seed),
        program_id: keypair(seed).identifier().serialize(),
        rpc_url: "http://rpc:9".to_string(),
    }
}

#[test]
fn start_settles_network_and_endpoint() {
    let pipeline = started();
    assert_eq!(pipeline.network(), "regtest");
    assert_eq!(pipeline.rpc_url(), "http://rpc:9");
    assert_eq!(pipeline.key_name(), "");
    assert_eq!(pipeline.program_pubkey(), "");
    assert_eq!(pipeline.wall_pubkey(), "");
    assert!(!pipeline.is_terminal());

    let (pipeline, _) = Pipeline::start(Settings {
        network: Some("testnet".to_string()),
        rpc_url: None,
        leader_rpc_endpoint: Some("http://leader:2".to_string()),
    });
    assert_eq!(pipeline.network(), "testnet");
    assert_eq!(pipeline.rpc_url(), "http://leader:2");

    let (pipeline, _) =
        Pipeline::start(Settings { network: None, rpc_url: None, leader_rpc_endpoint: None });
    assert_eq!(pipeline.rpc_url(), "http://localhost:9002/");
}

#[test]
fn first_run_on_a_clean_machine() {
    let mut pipeline = started();
    assert_eq!(pipeline.step(Event::Exists(false)), Action::Materialize(Tree::Common));
    assert_eq!(pipeline.step(Event::Completed), Action::Materialize(Tree::Program));
    assert_eq!(pipeline.step(Event::Completed), Action::Materialize(Tree::Bip322));
    assert_eq!(pipeline.step(Event::Completed), Action::CreateProjectsDir);
    assert_eq!(pipeline.step(Event::Completed), Action::ProbeDemoDir);
    assert_eq!(pipeline.step(Event::Exists(false)), Action::CreateDemoDir);
    assert_eq!(pipeline.step(Event::Completed), Action::Materialize(Tree::App));
    assert_eq!(
        pipeline.step(Event::Completed),
        Action::WriteManifest { content: demo_manifest() }
    );
    assert_eq!(pipeline.step(Event::Completed), Action::ProbeEnvExample);
    assert_eq!(pipeline.step(Event::Exists(true)), Action::RenameEnvExample);
    assert_eq!(pipeline.step(Event::Completed), Action::EnterDemoDir);
    assert_eq!(pipeline.step(Event::Completed), Action::ReadEnvFile);
    assert_eq!(pipeline.step(Event::Text(PRISTINE.to_string())), Action::LoadRegistry);
    assert_eq!(pipeline.program_pubkey(), "");
    assert_eq!(
        pipeline.step(Event::Registry(KeyRegistry::new())),
        Action::CreateAccount {
            name: "graffiti".to_string(),
            program_id: None,
            rpc_url: "http://rpc:9".to_string(),
        }
    );
    assert_eq!(pipeline.key_name(), "graffiti");
    assert_eq!(pipeline.step(Event::Completed), Action::LoadRegistry);
    assert_eq!(pipeline.step(Event::Registry(registry(&[("graffiti", 7)]))), deploy(7));
    assert_eq!(pipeline.program_pubkey(), hex_id(7));
    assert_eq!(pipeline.step(Event::Completed), activate(7));
    assert_eq!(pipeline.step(Event::Completed), Action::LoadRegistry);
    assert_eq!(
        pipeline.step(Event::Registry(registry(&[("graffiti", 7)]))),
        Action::CreateAccount {
            name: "graffiti_wall_state".to_string(),
            program_id: Some(hex_id(7)),
            rpc_url: "http://rpc:9".to_string(),
        }
    );
    assert_eq!(pipeline.step(Event::Completed), Action::LoadRegistry);
    assert_eq!(
        pipeline.step(Event::Registry(registry(&[("graffiti", 7), ("graffiti_wall_state", 8)]))),
        Action::ReadEnvFile
    );
    assert_eq!(pipeline.wall_pubkey(), hex_id(8));
    let written = format!(
        "VITE_PROGRAM_PUBKEY={}\nVITE_WALL_ACCOUNT_PUBKEY={}\nVITE_NETWORK=regtest\nVITE_RPC_URL=http://rpc:9\n",
        hex_id(7),
        hex_id(8)
    );
    assert_eq!(
        pipeline.step(Event::Text(PRISTINE.to_string())),
        Action::WriteEnvFile { content: written }
    );
    assert!(!pipeline.is_terminal());
    assert_eq!(
        pipeline.step(Event::Completed),
        Action::Finish {
            program_pubkey: hex_id(7),
            wall_pubkey: hex_id(8),
            rpc_url: "http://rpc:9".to_string(),
        }
    );
    assert_eq!(pipeline.stage(), Stage::Done);
    assert!(pipeline.is_terminal());
}

#[test]
fn what_exists_is_not_made_again() {
    let mut pipeline = started();
    let mut actions = Vec::new();
    actions.push(pipeline.step(Event::Exists(true)));
    actions.push(pipeline.step(Event::Completed));
    actions.push(pipeline.step(Event::Exists(true)));
    actions.push(pipeline.step(Event::Completed));
    let env = format!("VITE_PROGRAM_PUBKEY={}\nVITE_RPC_URL=old\n", hex_id(7));
    actions.push(pipeline.step(Event::Text(env.clone())));
    let records = [("graffiti", 7), ("graffiti_wall_state", 8)];
    actions.push(pipeline.step(Event::Registry(registry(&records))));
    actions.push(pipeline.step(Event::Completed));
    actions.push(pipeline.step(Event::Completed));
    actions.push(pipeline.step(Event::Registry(registry(&records))));
    actions.push(pipeline.step(Event::Text(env.clone())));
    actions.push(pipeline.step(Event::Completed));
    assert_eq!(
        actions,
        vec![
            Action::CreateProjectsDir,
            Action::ProbeDemoDir,
            Action::EnterDemoDir,
            Action::ReadEnvFile,
            Action::LoadRegistry,
            deploy(7),
            activate(7),
            Action::LoadRegistry,
            Action::ReadEnvFile,
            Action::WriteEnvFile {
                content: build_frontend(&env, Some("http://rpc:9"), &hex_id(7), &hex_id(8), "regtest"),
            },
            Action::Finish {
                program_pubkey: hex_id(7),
                wall_pubkey: hex_id(8),
                rpc_url: "http://rpc:9".to_string(),
            },
        ]
    );
    for action in &actions {
        assert!(!matches!(action, Action::Materialize(_)));
        assert!(!matches!(action, Action::CreateAccount { .. }));
        assert!(!matches!(action, Action::CreateDemoDir));
        assert!(!matches!(action, Action::WriteManifest { .. }));
        assert!(!matches!(action, Action::RenameEnvExample));
    }
}

#[test]
fn a_demo_without_an_example_file_goes_on() {
    let mut pipeline = started();
    pipeline.step(Event::Exists(true));
    pipeline.step(Event::Completed);
    assert_eq!(pipeline.step(Event::Exists(false)), Action::CreateDemoDir);
    pipeline.step(Event::Completed);
    pipeline.step(Event::Completed);
    assert_eq!(pipeline.step(Event::Completed), Action::ProbeEnvExample);
    assert_eq!(pipeline.step(Event::Exists(false)), Action::EnterDemoDir);
}

#[test]
fn an_existing_identity_is_used_again() {
    let mut pipeline = at_env_file();
    let env = format!("X=1\nVITE_PROGRAM_PUBKEY={}\n", hex_id(3));
    assert_eq!(pipeline.step(Event::Text(env)), Action::LoadRegistry);
    assert_eq!(pipeline.program_pubkey(), hex_id(3));
    let records = [("graffiti", 1), ("graffiti_1", 3), ("graffiti_wall_state", 4)];
    assert_eq!(pipeline.step(Event::Registry(registry(&records))), deploy(3));
    assert_eq!(pipeline.key_name(), "graffiti_1");
    assert_eq!(pipeline.program_pubkey(), hex_id(3));
}

#[test]
fn a_new_identity_gets_a_free_name() {
    let mut pipeline = at_env_file();
    pipeline.step(Event::Text(PRISTINE.to_string()));
    let records = [("graffiti", 1), ("graffiti_1", 3)];
    assert_eq!(
        pipeline.step(Event::Registry(registry(&records))),
        Action::CreateAccount {
            name: "graffiti_2".to_string(),
            program_id: None,
            rpc_url: "http://rpc:9".to_string(),
        }
    );
    assert_eq!(pipeline.stage(), Stage::CreatingProgramAccount);
}

#[test]
fn an_identifier_that_the_registry_lacks_is_inconsistent() {
    let mut pipeline = at_env_file();
    pipeline.step(Event::Text(format!("VITE_PROGRAM_PUBKEY={}", hex_id(9))));
    assert_eq!(
        pipeline.step(Event::Registry(registry(&[("graffiti", 1)]))),
        Action::Abort(SetupError::InconsistentState)
    );
    assert_eq!(pipeline.stage(), Stage::Failed(SetupError::InconsistentState));
    assert!(pipeline.is_terminal());
}

#[test]
fn a_created_account_that_left_no_record_is_not_found() {
    let mut pipeline = at_env_file();
    pipeline.step(Event::Text(String::new()));
    pipeline.step(Event::Registry(KeyRegistry::new()));
    assert_eq!(pipeline.step(Event::Completed), Action::LoadRegistry);
    assert_eq!(
        pipeline.step(Event::Registry(registry(&[("other", 1)]))),
        Action::Abort(SetupError::NotFound)
    );

    let mut pipeline = at_env_file();
    pipeline.step(Event::Text(format!("VITE_PROGRAM_PUBKEY={}", hex_id(1))));
    pipeline.step(Event::Registry(registry(&[("graffiti", 1)])));
    pipeline.step(Event::Completed);
    pipeline.step(Event::Completed);
    assert_eq!(
        pipeline.step(Event::Registry(registry(&[("graffiti", 1)]))),
        Action::CreateAccount {
            name: "graffiti_wall_state".to_string(),
            program_id: Some(hex_id(1)),
            rpc_url: "http://rpc:9".to_string(),
        }
    );
    assert_eq!(pipeline.step(Event::Completed), Action::LoadRegistry);
    assert_eq!(
        pipeline.step(Event::Registry(registry(&[("graffiti", 1)]))),
        Action::Abort(SetupError::NotFound)
    );
}

#[test]
fn a_failure_stops_the_pipeline_at_once() {
    for error in [SetupError::IoError, SetupError::NetworkError, SetupError::NotFound] {
        let mut pipeline = started();
        pipeline.step(Event::Exists(false));
        assert_eq!(pipeline.step(Event::Failed(error)), Action::Abort(error));
        assert_eq!(pipeline.stage(), Stage::Failed(error));
        assert_eq!(pipeline.step(Event::Completed), Action::Abort(error));
        assert_eq!(pipeline.step(Event::Exists(true)), Action::Abort(error));
        assert_eq!(
            pipeline.step(Event::Failed(SetupError::InconsistentState)),
            Action::Abort(error)
        );
        assert_eq!(pipeline.stage(), Stage::Failed(error));
    }
}

#[test]
fn a_failed_deployment_is_not_followed_by_an_activation() {
    let mut pipeline = at_env_file();
    pipeline.step(Event::Text(format!("VITE_PROGRAM_PUBKEY={}", hex_id(1))));
    assert_eq!(pipeline.step(Event::Registry(registry(&[("graffiti", 1)]))), deploy(1));
    assert_eq!(
        pipeline.step(Event::Failed(SetupError::NetworkError)),
        Action::Abort(SetupError::NetworkError)
    );
    assert_eq!(pipeline.step(Event::Completed), Action::Abort(SetupError::NetworkError));
}

#[test]
fn an_event_of_the_wrong_kind_stops_the_pipeline() {
    let mut pipeline = started();
    assert_eq!(pipeline.step(Event::Completed), Action::Abort(SetupError::UnexpectedEvent));
    assert_eq!(pipeline.stage(), Stage::Failed(SetupError::UnexpectedEvent));

    let mut pipeline = at_env_file();
    assert_eq!(
        pipeline.step(Event::Registry(KeyRegistry::new())),
        Action::Abort(SetupError::UnexpectedEvent)
    );

    let mut pipeline = at_env_file();
    pipeline.step(Event::Text(String::new()));
    assert_eq!(
        pipeline.step(Event::Text(String::new())),
        Action::Abort(SetupError::UnexpectedEvent)
    );
}

#[test]
fn a_finished_pipeline_repeats_its_results() {
    let mut pipeline = at_env_file();
    let env = format!("VITE_PROGRAM_PUBKEY={}\n", hex_id(7));
    let records = [("graffiti", 7), ("graffiti_wall_state", 8)];
    pipeline.step(Event::Text(env.clone()));
    pipeline.step(Event::Registry(registry(&records)));
    pipeline.step(Event::Completed);
    pipeline.step(Event::Completed);
    pipeline.step(Event::Registry(registry(&records)));
    pipeline.step(Event::Text(env));
    let finish = Action::Finish {
        program_pubkey: hex_id(7),
        wall_pubkey: hex_id(8),
        rpc_url: "http://rpc:9".to_string(),
    };
    assert_eq!(pipeline.step(Event::Completed), finish);
    assert_eq!(pipeline.step(Event::Completed), finish);
    assert_eq!(pipeline.step(Event::Failed(SetupError::IoError)), finish);
    assert_eq!(pipeline.stage(), Stage::Done);
}

#[test]
fn every_run_ends_within_23_steps() {
    let events: [fn() -> Event; 4] = [
        || Event::Completed,
        || Event::Exists(false),
        || Event::Text(PRISTINE.to_string()),
        || Event::Registry(KeyRegistry::new()),
    ];
    for pattern in 0..4096usize {
        let mut pipeline = started();
        let mut code = pattern;
        for _ in 0..23 {
            pipeline.step(events[code % 4]());
            code = code / 4 + pattern * 7;
        }
        assert!(pipeline.is_terminal());
    }
}

/// A whole run in which nothing fails: it answers the pipeline from the
/// file and the registry given, and gives back the file as the run leaves it,
/// the last action and all the actions before it.
fn run_through(env: &str, records: &[(&str, u8)], new_seed: u8) -> (String, Action, Vec<Action>) {
    let mut env = env.to_string();
    let mut records: Vec<(String, u8)> =
        records.iter().map(|(name, seed)| (name.to_string(), *seed)).collect();
    let mut seed = new_seed;
    let mut pipeline = at_env_file();
    let mut action = Action::ReadEnvFile;
    let mut actions = Vec::new();
    loop {
        let event = match &action {
            Action::ReadEnvFile => Event::Text(env.clone()),
            Action::LoadRegistry => {
                let held: Vec<(&str, u8)> =
                    records.iter().map(|(name, seed)| (name.as_str(), *seed)).collect();
                Event::Registry(registry(&held))
            }
            Action::CreateAccount { name, .. } => {
                records.push((name.clone(), seed));
                seed += 1;
                Event::Completed
            }
            Action::WriteEnvFile { content } => {
                env = content.clone();
                Event::Completed
            }
            Action::Finish { .. } | Action::Abort(_) => return (env, action, actions),
            _ => Event::Completed,
        };
        actions.push(action);
        action = pipeline.step(event);
    }
}

#[test]
fn the_next_run_finds_what_this_run_wrote() {
    let finish = Action::Finish {
        program_pubkey: hex_id(21),
        wall_pubkey: hex_id(22),
        rpc_url: "http://rpc:9".to_string(),
    };
    // First run: no identity yet.
    let (written, last, actions) = run_through(PRISTINE, &[], 21);
    assert_eq!(last, finish);
    assert_eq!(actions.iter().filter(|a| matches!(a, Action::CreateAccount { .. })).count(), 2);
    assert_eq!(
        written,
        format!(
            "VITE_PROGRAM_PUBKEY={}\nVITE_WALL_ACCOUNT_PUBKEY={}\nVITE_NETWORK=regtest\nVITE_RPC_URL=http://rpc:9\n",
            hex_id(21),
            hex_id(22)
        )
    );

    // Every later run uses the identity again and leaves the file as it is.
    let records = [("graffiti", 21), ("graffiti_wall_state", 22)];
    let mut env = written.clone();
    for _ in 0..4 {
        let (after, last, actions) = run_through(&env, &records, 90);
        assert_eq!(last, finish);
        assert_eq!(after, written);
        assert!(actions.contains(&deploy(21)));
        assert!(actions.contains(&activate(21)));
        assert!(!actions.iter().any(|a| matches!(a, Action::CreateAccount { .. })));
        env = after;
    }
}

#[test]
fn a_run_on_a_written_file_leaves_it_unchanged() {
    let env = format!(
        "VITE_PROGRAM_PUBKEY={}\nVITE_WALL_ACCOUNT_PUBKEY={}\nVITE_NETWORK=regtest\nVITE_RPC_URL=http://rpc:9",
        hex_id(3),
        hex_id(4)
    );
    let (after, last, _) = run_through(&env, &[("graffiti", 3), ("graffiti_wall_state", 4)], 90);
    assert!(matches!(last, Action::Finish { .. }));
    assert_eq!(after, env);
}

#[test]
fn the_state_account_is_owned_by_the_program() {
    let mut pipeline = at_env_file();
    pipeline.step(Event::Text(format!("VITE_PROGRAM_PUBKEY={}\n", hex_id(5))));
    pipeline.step(Event::Registry(registry(&[("graffiti_7", 5)])));
    pipeline.step(Event::Completed);
    pipeline.step(Event::Completed);
    match pipeline.step(Event::Registry(registry(&[("graffiti_7", 5)]))) {
        Action::CreateAccount { name, program_id, rpc_url } => {
            assert_eq!(name, "graffiti_wall_state");
            assert_eq!(program_id, Some(hex_id(5)));
            assert_eq!(program_id.unwrap().len(), 64);
            assert_eq!(rpc_url, "http://rpc:9");
        }
        other => panic!("{:?}", other),
    }
}
