//! The setup pipeline as a state machine. The driver performs each action
//! and answers with an event; `Pipeline::step` decides what is done next.
//! Every guard is a probe: what exists already is not made again.

use crate::config::{get_network, get_rpc_url, optional_text, resolved_network, resolved_rpc_url};
use crate::env_file::{build_frontend, configured, program_pubkey_in, program_pubkey_of};
use crate::error::SetupError;
use crate::hexadecimal::hex_encoding;
use crate::layout::{demo_manifest, manifest_text, Tree};
use crate::naming::{create_unique_key_name, unique_name, KEY_NAME_BASE, STATE_ACCOUNT_NAME};
use crate::registry::{found, names, hex_identifiers, KeyPair, KeyRecordView, KeyRegistry};
use vstd::prelude::*;
use vstd::string::StringExecFns;

verus! {

/// What the pipeline waits for.
#[derive(Clone, Copy, Debug, PartialEq, Eq, Structural)]
pub enum Stage {
    /// Whether the shared libraries are in place.
    ProbingSharedLibraries,
    /// The copy of the shared support code.
    MaterializingCommon,
    /// The copy of the shared program code.
    MaterializingProgram,
    /// The copy of the shared signature-format library.
    MaterializingBip322,
    /// The directory of all projects.
    CreatingProjectsDir,
    /// Whether the demo's directory is in place.
    ProbingDemoDir,
    /// The demo's directory.
    CreatingDemoDir,
    /// The copy of the demo's application.
    MaterializingApp,
    /// The demo's manifest.
    WritingManifest,
    /// Whether the bundle brought an example of an environment file.
    ProbingEnvExample,
    /// The example put in place as the environment file.
    RenamingEnvExample,
    /// The change of the working directory.
    EnteringDemoDir,
    /// The environment file, read for the program's identifier.
    ReadingEnvFile,
    /// The registry, read for the program's key.
    LoadingRegistry,
    /// The creation of the program's account.
    CreatingProgramAccount,
    /// The registry, read again for the program's new key.
    ReloadingRegistry,
    /// The deployment of the program.
    Deploying,
    /// The activation of the program.
    Activating,
    /// The registry, read for the state account.
    LoadingRegistryForState,
    /// The creation of the state account.
    CreatingStateAccount,
    /// The registry, read again for the state account's new key.
    ReloadingRegistryForState,
    /// The environment file, read to be configured.
    ReadingEnvForUpdate,
    /// The configured environment file.
    WritingEnvFile,
    /// Nothing: the setup is complete.
    Done,
    /// Nothing: the setup has failed.
    Failed(SetupError),
}

/// What the driver is asked to do.
#[derive(Debug, PartialEq, Eq)]
#[allow(inconsistent_fields)]
pub enum Action {
    /// Say whether the directory that marks the shared libraries exists.
    ProbeSharedLibraries,
    /// Copy a tree of the bundle to its place.
    Materialize(Tree),
    /// Create the directory of all projects, unless it exists.
    CreateProjectsDir,
    /// Say whether the demo's directory exists.
    ProbeDemoDir,
    /// Create the demo's directory.
    CreateDemoDir,
    /// Write the demo's manifest.
    WriteManifest { content: String },
    /// Say whether the example of an environment file exists.
    ProbeEnvExample,
    /// Rename the example to the environment file in use.
    RenameEnvExample,
    /// Make the demo's directory the working directory.
    EnterDemoDir,
    /// Read the environment file.
    ReadEnvFile,
    /// Read the key registry.
    LoadRegistry,
    /// Create an account and store its key under `name`.
    CreateAccount { name: String, program_id: Option<String>, rpc_url: String },
    /// Deploy the shared program under the given key.
    DeployProgram { keypair: KeyPair, program_id: [u8; 32], rpc_url: String },
    /// Make the deployed program executable.
    ActivateProgram { keypair: KeyPair, program_id: [u8; 32], rpc_url: String },
    /// Write the environment file.
    WriteEnvFile { content: String },
    /// Stop: the setup is complete, with these results.
    Finish { program_pubkey: String, wall_pubkey: String, rpc_url: String },
    /// Stop: the setup has failed.
    Abort(SetupError),
}

/// What the driver answers.
#[derive(Debug)]
pub enum Event {
    /// The action was performed.
    Completed,
    /// The answer to a probe.
    Exists(bool),
    /// The content of the file read.
    Text(String),
    /// The records of the registry read.
    Registry(KeyRegistry),
    /// The action failed.
    Failed(SetupError),
}

/// An action as contracts speak of it.
#[allow(inconsistent_fields)]
pub enum ActionView {
    ProbeSharedLibraries,
    Materialize(Tree),
    CreateProjectsDir,
    ProbeDemoDir,
    CreateDemoDir,
    WriteManifest { content: Seq<char> },
    ProbeEnvExample,
    RenameEnvExample,
    EnterDemoDir,
    ReadEnvFile,
    LoadRegistry,
    CreateAccount { name: Seq<char>, program_id: Option<Seq<char>>, rpc_url: Seq<char> },
    DeployProgram { keypair: KeyPair, program_id: Seq<u8>, rpc_url: Seq<char> },
    ActivateProgram { keypair: KeyPair, program_id: Seq<u8>, rpc_url: Seq<char> },
    WriteEnvFile { content: Seq<char> },
    Finish { program_pubkey: Seq<char>, wall_pubkey: Seq<char>, rpc_url: Seq<char> },
    Abort(SetupError),
}

/// An event as contracts speak of it.
pub enum EventView {
    Completed,
    Exists(bool),
    Text(Seq<char>),
    Registry(Seq<KeyRecordView>),
    Failed(SetupError),
}

impl View for Action {
    type V = ActionView;

    open spec fn view(&self) -> ActionView {
        match *self {
            Action::ProbeSharedLibraries => ActionView::ProbeSharedLibraries,
            Action::Materialize(tree) => ActionView::Materialize(tree),
            Action::CreateProjectsDir => ActionView::CreateProjectsDir,
            Action::ProbeDemoDir => ActionView::ProbeDemoDir,
            Action::CreateDemoDir => ActionView::CreateDemoDir,
            Action::WriteManifest { content } => ActionView::WriteManifest { content: content@ },
            Action::ProbeEnvExample => ActionView::ProbeEnvExample,
            Action::RenameEnvExample => ActionView::RenameEnvExample,
            Action::EnterDemoDir => ActionView::EnterDemoDir,
            Action::ReadEnvFile => ActionView::ReadEnvFile,
            Action::LoadRegistry => ActionView::LoadRegistry,
            Action::CreateAccount { name, program_id, rpc_url } => ActionView::CreateAccount {
                name: name@,
                program_id: optional_text(program_id),
                rpc_url: rpc_url@,
            },
            Action::DeployProgram { keypair, program_id, rpc_url } => ActionView::DeployProgram {
                keypair,
                program_id: program_id@,
                rpc_url: rpc_url@,
            },
            Action::ActivateProgram { keypair, program_id, rpc_url } => ActionView::ActivateProgram {
                keypair,
                program_id: program_id@,
                rpc_url: rpc_url@,
            },
            Action::WriteEnvFile { content } => ActionView::WriteEnvFile { content: content@ },
            Action::Finish { program_pubkey, wall_pubkey, rpc_url } => ActionView::Finish {
                program_pubkey: program_pubkey@,
                wall_pubkey: wall_pubkey@,
                rpc_url: rpc_url@,
            },
            Action::Abort(error) => ActionView::Abort(error),
        }
    }
}

impl View for Event {
    type V = EventView;

    open spec fn view(&self) -> EventView {
        match *self {
            Event::Completed => EventView::Completed,
            Event::Exists(exists) => EventView::Exists(exists),
            Event::Text(text) => EventView::Text(text@),
            Event::Registry(registry) => EventView::Registry(registry@),
            Event::Failed(error) => EventView::Failed(error),
        }
    }
}

/// What the setup is given to start with.
#[derive(Debug, PartialEq, Eq)]
pub struct Settings {
    /// The network that the configuration names.
    pub network: Option<String>,
    /// The RPC URL given on the command line.
    pub rpc_url: Option<String>,
    /// The leader's RPC endpoint that the configuration names.
    pub leader_rpc_endpoint: Option<String>,
}

/// The pipeline between two steps.
#[derive(Debug)]
pub struct Pipeline {
    stage: Stage,
    network: String,
    rpc_url: String,
    key_name: String,
    program_pubkey: String,
    keypair: KeyPair,
    wall_pubkey: String,
}

/// The pipeline as contracts speak of it.
pub struct PipelineView {
    /// What the pipeline waits for.
    pub stage: Stage,
    /// The network's name.
    pub network: Seq<char>,
    /// The RPC endpoint in use.
    pub rpc_url: Seq<char>,
    /// The name of the program's key record, once it is known.
    pub key_name: Seq<char>,
    /// The program's identifier in hexadecimal, once it is known.
    pub program_pubkey: Seq<char>,
    /// The program's key pair, once it is known.
    pub keypair: KeyPair,
    /// The state account's identifier in hexadecimal, once it is known.
    pub wall_pubkey: Seq<char>,
}

impl View for Pipeline {
    type V = PipelineView;

    closed spec fn view(&self) -> PipelineView {
        PipelineView {
            stage: self.stage,
            network: self.network@,
            rpc_url: self.rpc_url@,
            key_name: self.key_name@,
            program_pubkey: self.program_pubkey@,
            keypair: self.keypair,
            wall_pubkey: self.wall_pubkey@,
        }
    }
}

/// Whether nothing more is done from `stage`.
pub open spec fn is_terminal(stage: Stage) -> bool {
    stage is Done || stage is Failed
}

/// The pipeline at its start.
pub open spec fn initial(
    network: Option<Seq<char>>,
    rpc_url: Option<Seq<char>>,
    leader_rpc_endpoint: Option<Seq<char>>,
) -> PipelineView {
    PipelineView {
        stage: Stage::ProbingSharedLibraries,
        network: resolved_network(network),
        rpc_url: resolved_rpc_url(rpc_url, leader_rpc_endpoint),
        key_name: Seq::empty(),
        program_pubkey: Seq::empty(),
        keypair: KeyPair::blank(),
        wall_pubkey: Seq::empty(),
    }
}

/// The pipeline moved on to `stage`, and the action that goes with it.
pub open spec fn proceed(p: PipelineView, stage: Stage, action: ActionView) -> (
    PipelineView,
    ActionView,
) {
    (PipelineView { stage, ..p }, action)
}

/// The pipeline stopped by `error`.
pub open spec fn fail(p: PipelineView, error: SetupError) -> (PipelineView, ActionView) {
    proceed(p, Stage::Failed(error), ActionView::Abort(error))
}

/// The results of a complete setup.
pub open spec fn finish(p: PipelineView) -> ActionView {
    ActionView::Finish {
        program_pubkey: p.program_pubkey,
        wall_pubkey: p.wall_pubkey,
        rpc_url: p.rpc_url,
    }
}

/// The deployment of the program under the key pair of `p`.
pub open spec fn deploy(p: PipelineView) -> ActionView {
    ActionView::DeployProgram {
        keypair: p.keypair,
        program_id: p.keypair.identifier_bytes(),
        rpc_url: p.rpc_url,
    }
}

/// The activation of the program under the key pair of `p`.
pub open spec fn activate(p: PipelineView) -> ActionView {
    ActionView::ActivateProgram {
        keypair: p.keypair,
        program_id: p.keypair.identifier_bytes(),
        rpc_url: p.rpc_url,
    }
}

/// The program's identity, resolved from the registry: the key that the
/// environment file names is looked up, and where the file names none, an
/// account is created under a name that is free.
pub open spec fn resolve_program(p: PipelineView, records: Seq<KeyRecordView>) -> (
    PipelineView,
    ActionView,
) {
    if p.program_pubkey.len() == 0 {
        let name = unique_name(names(records), KEY_NAME_BASE@);
        proceed(
            PipelineView { key_name: name, ..p },
            Stage::CreatingProgramAccount,
            ActionView::CreateAccount { name, program_id: None, rpc_url: p.rpc_url },
        )
    } else {
        match found(records, hex_identifiers(records), p.program_pubkey) {
            Some(owner) => match found(records, names(records), owner.name) {
                Some(record) => {
                    let next = PipelineView { key_name: owner.name, keypair: record.keypair, ..p };
                    proceed(next, Stage::Deploying, deploy(next))
                },
                None => fail(p, SetupError::NotFound),
            },
            None => fail(p, SetupError::InconsistentState),
        }
    }
}

/// The program's identity, taken from the record that the creation of its
/// account left in the registry.
pub open spec fn adopt_program(p: PipelineView, records: Seq<KeyRecordView>) -> (
    PipelineView,
    ActionView,
) {
    match found(records, names(records), p.key_name) {
        Some(record) => {
            let next = PipelineView {
                program_pubkey: hex_encoding(record.keypair.identifier_bytes()),
                keypair: record.keypair,
                ..p
            };
            proceed(next, Stage::Deploying, deploy(next))
        },
        None => fail(p, SetupError::NotFound),
    }
}

/// The state account's identity, resolved from the registry: the record of
/// its name is used where there is one. Where there is none, an account owned
/// by the program is created if `create` is set, and the setup fails if not.
pub open spec fn resolve_state(p: PipelineView, records: Seq<KeyRecordView>, create: bool) -> (
    PipelineView,
    ActionView,
) {
    match found(records, names(records), STATE_ACCOUNT_NAME@) {
        Some(record) => proceed(
            PipelineView { wall_pubkey: hex_encoding(record.keypair.identifier_bytes()), ..p },
            Stage::ReadingEnvForUpdate,
            ActionView::ReadEnvFile,
        ),
        None => if create {
            proceed(
                p,
                Stage::CreatingStateAccount,
                ActionView::CreateAccount {
                    name: STATE_ACCOUNT_NAME@,
                    program_id: Some(hex_encoding(p.keypair.identifier_bytes())),
                    rpc_url: p.rpc_url,
                },
            )
        } else {
            fail(p, SetupError::NotFound)
        },
    }
}

/// The step that the pipeline takes from `p` on the event `e`: the pipeline
/// after it, and the action that the driver is to perform next.
///
/// A pipeline that is done or has failed stays as it is. A failure reported
/// by the driver stops the pipeline with that failure, and so does, with
/// `UnexpectedEvent`, an event that does not answer the pending action.
pub open spec fn transition(p: PipelineView, e: EventView) -> (PipelineView, ActionView) {
    match (p.stage, e) {
        (Stage::Done, _) => (p, finish(p)),
        (Stage::Failed(error), _) => (p, ActionView::Abort(error)),
        (_, EventView::Failed(error)) => fail(p, error),
        (Stage::ProbingSharedLibraries, EventView::Exists(true)) => proceed(
            p,
            Stage::CreatingProjectsDir,
            ActionView::CreateProjectsDir,
        ),
        (Stage::ProbingSharedLibraries, EventView::Exists(false)) => proceed(
            p,
            Stage::MaterializingCommon,
            ActionView::Materialize(Tree::Common),
        ),
        (Stage::MaterializingCommon, EventView::Completed) => proceed(
            p,
            Stage::MaterializingProgram,
            ActionView::Materialize(Tree::Program),
        ),
        (Stage::MaterializingProgram, EventView::Completed) => proceed(
            p,
            Stage::MaterializingBip322,
            ActionView::Materialize(Tree::Bip322),
        ),
        (Stage::MaterializingBip322, EventView::Completed) => proceed(
            p,
            Stage::CreatingProjectsDir,
            ActionView::CreateProjectsDir,
        ),
        (Stage::CreatingProjectsDir, EventView::Completed) => proceed(
            p,
            Stage::ProbingDemoDir,
            ActionView::ProbeDemoDir,
        ),
        (Stage::ProbingDemoDir, EventView::Exists(true)) => proceed(
            p,
            Stage::EnteringDemoDir,
            ActionView::EnterDemoDir,
        ),
        (Stage::ProbingDemoDir, EventView::Exists(false)) => proceed(
            p,
            Stage::CreatingDemoDir,
            ActionView::CreateDemoDir,
        ),
        (Stage::CreatingDemoDir, EventView::Completed) => proceed(
            p,
            Stage::MaterializingApp,
            ActionView::Materialize(Tree::App),
        ),
        (Stage::MaterializingApp, EventView::Completed) => proceed(
            p,
            Stage::WritingManifest,
            ActionView::WriteManifest { content: manifest_text() },
        ),
        (Stage::WritingManifest, EventView::Completed) => proceed(
            p,
            Stage::ProbingEnvExample,
            ActionView::ProbeEnvExample,
        ),
        (Stage::ProbingEnvExample, EventView::Exists(true)) => proceed(
            p,
            Stage::RenamingEnvExample,
            ActionView::RenameEnvExample,
        ),
        (Stage::ProbingEnvExample, EventView::Exists(false)) => proceed(
            p,
            Stage::EnteringDemoDir,
            ActionView::EnterDemoDir,
        ),
        (Stage::RenamingEnvExample, EventView::Completed) => proceed(
            p,
            Stage::EnteringDemoDir,
            ActionView::EnterDemoDir,
        ),
        (Stage::EnteringDemoDir, EventView::Completed) => proceed(
            p,
            Stage::ReadingEnvFile,
            ActionView::ReadEnvFile,
        ),
        (Stage::ReadingEnvFile, EventView::Text(content)) => proceed(
            PipelineView { program_pubkey: program_pubkey_in(content), ..p },
            Stage::LoadingRegistry,
            ActionView::LoadRegistry,
        ),
        (Stage::LoadingRegistry, EventView::Registry(records)) => resolve_program(p, records),
        (Stage::CreatingProgramAccount, EventView::Completed) => proceed(
            p,
            Stage::ReloadingRegistry,
            ActionView::LoadRegistry,
        ),
        (Stage::ReloadingRegistry, EventView::Registry(records)) => adopt_program(p, records),
        (Stage::Deploying, EventView::Completed) => proceed(p, Stage::Activating, activate(p)),
        (Stage::Activating, EventView::Completed) => proceed(
            p,
            Stage::LoadingRegistryForState,
            ActionView::LoadRegistry,
        ),
        (Stage::LoadingRegistryForState, EventView::Registry(records)) => resolve_state(
            p,
            records,
            true,
        ),
        (Stage::CreatingStateAccount, EventView::Completed) => proceed(
            p,
            Stage::ReloadingRegistryForState,
            ActionView::LoadRegistry,
        ),
        (Stage::ReloadingRegistryForState, EventView::Registry(records)) => resolve_state(
            p,
            records,
            false,
        ),
        (Stage::ReadingEnvForUpdate, EventView::Text(content)) => proceed(
            p,
            Stage::WritingEnvFile,
            ActionView::WriteEnvFile {
                content: configured(
                    content,
                    Some(p.rpc_url),
                    p.program_pubkey,
                    p.wall_pubkey,
                    p.network,
                ),
            },
        ),
        (Stage::WritingEnvFile, EventView::Completed) => proceed(p, Stage::Done, finish(p)),
        _ => fail(p, SetupError::UnexpectedEvent),
    }
}

impl Pipeline {
    /// Starts the setup: settles the network and the RPC endpoint, and asks
    /// whether the shared libraries are in place.
    pub fn start(settings: Settings) -> (started: (Pipeline, Action))
        ensures
            started.0@ == initial(
                optional_text(settings.network),
                optional_text(settings.rpc_url),
                optional_text(settings.leader_rpc_endpoint),
            ),
            started.1@ == ActionView::ProbeSharedLibraries,
    {
        let pipeline = Pipeline {
            stage: Stage::ProbingSharedLibraries,
            network: get_network(settings.network),
            rpc_url: get_rpc_url(settings.rpc_url, settings.leader_rpc_endpoint),
            key_name: String::new(),
            program_pubkey: String::new(),
            keypair: KeyPair::zeroed(),
            wall_pubkey: String::new(),
        };
        (pipeline, Action::ProbeSharedLibraries)
    }

    /// What the pipeline waits for.
    pub fn stage(&self) -> (stage: Stage)
        ensures
            stage == self@.stage,
    {
        self.stage
    }

    /// Whether the setup is complete or has failed.
    pub fn is_terminal(&self) -> (terminal: bool)
        ensures
            terminal == is_terminal(self@.stage),
    {
        match self.stage {
            Stage::Done => true,
            Stage::Failed(_) => true,
            _ => false,
        }
    }

    /// The network's name.
    pub fn network(&self) -> (network: &str)
        ensures
            network@ == self@.network,
    {
        self.network.as_str()
    }

    /// The RPC endpoint in use.
    pub fn rpc_url(&self) -> (url: &str)
        ensures
            url@ == self@.rpc_url,
    {
        self.rpc_url.as_str()
    }

    /// The name of the program's key record; empty until it is known.
    pub fn key_name(&self) -> (name: &str)
        ensures
            name@ == self@.key_name,
    {
        self.key_name.as_str()
    }

    /// The program's identifier in hexadecimal; empty until it is known.
    pub fn program_pubkey(&self) -> (id: &str)
        ensures
            id@ == self@.program_pubkey,
    {
        self.program_pubkey.as_str()
    }

    /// The state account's identifier in hexadecimal; empty until it is known.
    pub fn wall_pubkey(&self) -> (id: &str)
        ensures
            id@ == self@.wall_pubkey,
    {
        self.wall_pubkey.as_str()
    }

    /// Moves on to `stage`.
    fn proceed(&mut self, stage: Stage, action: Action) -> (next: Action)
        ensures
            (final(self)@, next@) == proceed(old(self)@, stage, action@),
    {
        self.stage = stage;
        action
    }

    /// Stops with `error`.
    fn fail(&mut self, error: SetupError) -> (next: Action)
        ensures
            (final(self)@, next@) == fail(old(self)@, error),
    {
        self.stage = Stage::Failed(error);
        Action::Abort(error)
    }

    /// The results of the setup.
    fn finish(&self) -> (action: Action)
        ensures
            action@ == finish(self@),
    {
        Action::Finish {
            program_pubkey: self.program_pubkey.clone(),
            wall_pubkey: self.wall_pubkey.clone(),
            rpc_url: self.rpc_url.clone(),
        }
    }

    /// The deployment of the program under the pipeline's key pair.
    fn deploy(&self) -> (action: Action)
        ensures
            action@ == deploy(self@),
    {
        Action::DeployProgram {
            keypair: self.keypair,
            program_id: self.keypair.identifier().serialize(),
            rpc_url: self.rpc_url.clone(),
        }
    }

    /// The activation of the program under the pipeline's key pair.
    fn activate(&self) -> (action: Action)
        ensures
            action@ == activate(self@),
    {
        Action::ActivateProgram {
            keypair: self.keypair,
            program_id: self.keypair.identifier().serialize(),
            rpc_url: self.rpc_url.clone(),
        }
    }

    /// Resolves the program's identity from the registry.
    fn resolve_program(&mut self, registry: &KeyRegistry) -> (next: Action)
        ensures
            (final(self)@, next@) == resolve_program(old(self)@, registry@),
    {
        if self.program_pubkey.as_str().is_empty() {
            let name = create_unique_key_name(registry);
            self.key_name = name.clone();
            let rpc_url = self.rpc_url.clone();
            self.proceed(
                Stage::CreatingProgramAccount,
                Action::CreateAccount { name, program_id: None, rpc_url },
            )
        } else {
            match registry.name_for_hex(self.program_pubkey.as_str()) {
                Ok(name) => match registry.keypair_for(name.as_str()) {
                    Ok(keypair) => {
                        self.key_name = name;
                        self.keypair = keypair;
                        let action = self.deploy();
                        self.proceed(Stage::Deploying, action)
                    },
                    Err(_) => self.fail(SetupError::NotFound),
                },
                Err(_) => self.fail(SetupError::InconsistentState),
            }
        }
    }

    /// Takes the program's identity from the record that the creation of its
    /// account left in the registry.
    fn adopt_program(&mut self, registry: &KeyRegistry) -> (next: Action)
        ensures
            (final(self)@, next@) == adopt_program(old(self)@, registry@),
    {
        match registry.pubkey_for(self.key_name.as_str()) {
            Ok(id) => match registry.keypair_for(self.key_name.as_str()) {
                Ok(keypair) => {
                    self.program_pubkey = id.to_hex();
                    self.keypair = keypair;
                    let action = self.deploy();
                    self.proceed(Stage::Deploying, action)
                },
                Err(_) => self.fail(SetupError::NotFound),
            },
            Err(_) => self.fail(SetupError::NotFound),
        }
    }

    /// Resolves the state account's identity from the registry.
    fn resolve_state(&mut self, registry: &KeyRegistry, create: bool) -> (next: Action)
        ensures
            (final(self)@, next@) == resolve_state(old(self)@, registry@, create),
    {
        match registry.pubkey_for(STATE_ACCOUNT_NAME) {
            Ok(id) => {
                self.wall_pubkey = id.to_hex();
                self.proceed(Stage::ReadingEnvForUpdate, Action::ReadEnvFile)
            },
            Err(_) => {
                if create {
                    let action = Action::CreateAccount {
                        name: String::from_str(STATE_ACCOUNT_NAME),
                        program_id: Some(self.keypair.identifier().to_hex()),
                        rpc_url: self.rpc_url.clone(),
                    };
                    self.proceed(Stage::CreatingStateAccount, action)
                } else {
                    self.fail(SetupError::NotFound)
                }
            },
        }
    }

    /// Takes one step: given the event that answers the pending action,
    /// decides what the driver is to do next.
    pub fn step(&mut self, event: Event) -> (action: Action)
        ensures
            (final(self)@, action@) == transition(old(self)@, event@),
    {
        match self.stage {
            Stage::Done => {
                return self.finish();
            },
            Stage::Failed(error) => {
                return Action::Abort(error);
            },
            _ => {},
        }
        match event {
            Event::Failed(error) => self.fail(error),
            Event::Exists(exists) => match self.stage {
                Stage::ProbingSharedLibraries => if exists {
                    self.proceed(Stage::CreatingProjectsDir, Action::CreateProjectsDir)
                } else {
                    self.proceed(Stage::MaterializingCommon, Action::Materialize(Tree::Common))
                },
                Stage::ProbingDemoDir => if exists {
                    self.proceed(Stage::EnteringDemoDir, Action::EnterDemoDir)
                } else {
                    self.proceed(Stage::CreatingDemoDir, Action::CreateDemoDir)
                },
                Stage::ProbingEnvExample => if exists {
                    self.proceed(Stage::RenamingEnvExample, Action::RenameEnvExample)
                } else {
                    self.proceed(Stage::EnteringDemoDir, Action::EnterDemoDir)
                },
                _ => self.fail(SetupError::UnexpectedEvent),
            },
            Event::Completed => match self.stage {
                Stage::MaterializingCommon => self.proceed(
                    Stage::MaterializingProgram,
                    Action::Materialize(Tree::Program),
                ),
                Stage::MaterializingProgram => self.proceed(
                    Stage::MaterializingBip322,
                    Action::Materialize(Tree::Bip322),
                ),
                Stage::MaterializingBip322 => self.proceed(
                    Stage::CreatingProjectsDir,
                    Action::CreateProjectsDir,
                ),
                Stage::CreatingProjectsDir => self.proceed(
                    Stage::ProbingDemoDir,
                    Action::ProbeDemoDir,
                ),
                Stage::CreatingDemoDir => self.proceed(
                    Stage::MaterializingApp,
                    Action::Materialize(Tree::App),
                ),
                Stage::MaterializingApp => self.proceed(
                    Stage::WritingManifest,
                    Action::WriteManifest { content: demo_manifest() },
                ),
                Stage::WritingManifest => self.proceed(
                    Stage::ProbingEnvExample,
                    Action::ProbeEnvExample,
                ),
                Stage::RenamingEnvExample => self.proceed(
                    Stage::EnteringDemoDir,
                    Action::EnterDemoDir,
                ),
                Stage::EnteringDemoDir => self.proceed(Stage::ReadingEnvFile, Action::ReadEnvFile),
                Stage::CreatingProgramAccount => self.proceed(
                    Stage::ReloadingRegistry,
                    Action::LoadRegistry,
                ),
                Stage::Deploying => {
                    let action = self.activate();
                    self.proceed(Stage::Activating, action)
                },
                Stage::Activating => self.proceed(
                    Stage::LoadingRegistryForState,
                    Action::LoadRegistry,
                ),
                Stage::CreatingStateAccount => self.proceed(
                    Stage::ReloadingRegistryForState,
                    Action::LoadRegistry,
                ),
                Stage::WritingEnvFile => {
                    let action = self.finish();
                    self.proceed(Stage::Done, action)
                },
                _ => self.fail(SetupError::UnexpectedEvent),
            },
            Event::Text(content) => match self.stage {
                Stage::ReadingEnvFile => {
                    self.program_pubkey = program_pubkey_of(content.as_str());
                    self.proceed(Stage::LoadingRegistry, Action::LoadRegistry)
                },
                Stage::ReadingEnvForUpdate => {
                    let updated = build_frontend(
                        content.as_str(),
                        Some(self.rpc_url.as_str()),
                        self.program_pubkey.as_str(),
                        self.wall_pubkey.as_str(),
                        self.network.as_str(),
                    );
                    self.proceed(Stage::WritingEnvFile, Action::WriteEnvFile { content: updated })
                },
                _ => self.fail(SetupError::UnexpectedEvent),
            },
            Event::Registry(registry) => match self.stage {
                Stage::LoadingRegistry => self.resolve_program(&registry),
                Stage::ReloadingRegistry => self.adopt_program(&registry),
                Stage::LoadingRegistryForState => self.resolve_state(&registry, true),
                Stage::ReloadingRegistryForState => self.resolve_state(&registry, false),
                _ => self.fail(SetupError::UnexpectedEvent),
            },
        }
    }
}

} // verus!
