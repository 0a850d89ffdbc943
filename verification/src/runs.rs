//! Runs of the pipeline: what holds whatever events the driver answers with.

use crate::env_file::{configured, program_pubkey_in};
use crate::env_laws::{lemma_configured_again, lemma_plain_value, lemma_program_read_back};
use crate::error::SetupError;
use crate::hexadecimal::{hex_encoding, lemma_hex_encoding_plain};
use crate::text::no_break;
use crate::layout::Tree;
use crate::naming::{
    lemma_unique_name_is_free, unique_name, KEY_NAME_BASE, STATE_ACCOUNT_NAME,
};
use crate::pipeline::{
    fail, finish, is_terminal, transition, ActionView, EventView, PipelineView, Stage,
};
use crate::registry::{found, hex_identifiers, names, names_distinct, KeyRecordView};
use vstd::prelude::*;

verus! {

/// The pipeline after the first `n` of `events`, starting from `p`.
pub open spec fn state_after(p: PipelineView, events: Seq<EventView>, n: nat) -> PipelineView
    decreases n,
{
    if n == 0 {
        p
    } else {
        transition(state_after(p, events, (n - 1) as nat), events[n - 1]).0
    }
}

/// The action that answers event `n` of `events`, in the run that starts from `p`.
pub open spec fn action_after(p: PipelineView, events: Seq<EventView>, n: nat) -> ActionView {
    transition(state_after(p, events, n), events[n as int]).1
}

/// An upper bound on the number of steps from `stage` to the end.
pub open spec fn steps_left(stage: Stage) -> nat {
    match stage {
        Stage::ProbingSharedLibraries => 23,
        Stage::MaterializingCommon => 22,
        Stage::MaterializingProgram => 21,
        Stage::MaterializingBip322 => 20,
        Stage::CreatingProjectsDir => 19,
        Stage::ProbingDemoDir => 18,
        Stage::CreatingDemoDir => 17,
        Stage::MaterializingApp => 16,
        Stage::WritingManifest => 15,
        Stage::ProbingEnvExample => 14,
        Stage::RenamingEnvExample => 13,
        Stage::EnteringDemoDir => 12,
        Stage::ReadingEnvFile => 11,
        Stage::LoadingRegistry => 10,
        Stage::CreatingProgramAccount => 9,
        Stage::ReloadingRegistry => 8,
        Stage::Deploying => 7,
        Stage::Activating => 6,
        Stage::LoadingRegistryForState => 5,
        Stage::CreatingStateAccount => 4,
        Stage::ReloadingRegistryForState => 3,
        Stage::ReadingEnvForUpdate => 2,
        Stage::WritingEnvFile => 1,
        Stage::Done => 0,
        Stage::Failed(_) => 0,
    }
}

/// Whether `action` copies a tree that every demo shares.
pub open spec fn copies_shared_tree(action: ActionView) -> bool {
    action matches ActionView::Materialize(tree) && tree != Tree::App
}

/// Whether `action` builds a part of the demo's project: its directory, its
/// application, its manifest or its environment file.
pub open spec fn builds_demo_project(action: ActionView) -> bool {
    ||| action is CreateDemoDir
    ||| action == ActionView::Materialize(Tree::App)
    ||| action is WriteManifest
    ||| action is RenameEnvExample
}

/// Whether `action` creates an account for a program: one that no program owns.
pub open spec fn creates_program_account(action: ActionView) -> bool {
    action matches ActionView::CreateAccount { program_id, .. } && program_id is None
}

/// A failure that the driver reports stops the pipeline at once, with that
/// failure: no other action follows.
pub proof fn lemma_failure_stops(p: PipelineView, error: SetupError)
    requires
        !is_terminal(p.stage),
    ensures
        transition(p, EventView::Failed(error)) == fail(p, error),
        transition(p, EventView::Failed(error)).0.stage == Stage::Failed(error),
        transition(p, EventView::Failed(error)).1 == ActionView::Abort(error),
{
}

/// A pipeline that is done or has failed stays as it is, whatever the event,
/// and repeats its last word.
pub proof fn lemma_terminal_stays(p: PipelineView, e: EventView)
    requires
        is_terminal(p.stage),
    ensures
        transition(p, e).0 == p,
        p.stage is Done ==> transition(p, e).1 == finish(p),
        p.stage matches Stage::Failed(error) ==> transition(p, e).1 == ActionView::Abort(error),
{
}

/// The pipeline stops exactly when it says so: the action is `Finish` when the
/// pipeline is done, `Abort` when it has failed, and neither while it goes on.
pub proof fn lemma_last_word(p: PipelineView, e: EventView)
    ensures
        transition(p, e).1 is Finish <==> transition(p, e).0.stage is Done,
        transition(p, e).1 is Abort <==> transition(p, e).0.stage is Failed,
        transition(p, e).1 matches ActionView::Abort(error) ==> transition(p, e).0.stage
            == Stage::Failed(error),
{
}

/// Every step brings the pipeline nearer to its end.
pub proof fn lemma_step_progresses(p: PipelineView, e: EventView)
    requires
        !is_terminal(p.stage),
    ensures
        steps_left(transition(p, e).0.stage) < steps_left(p.stage),
{
}

/// No step takes the pipeline further from its end.
pub proof fn lemma_steps_left_bounded(p: PipelineView, events: Seq<EventView>, n: nat)
    ensures
        steps_left(state_after(p, events, n).stage) + n <= steps_left(p.stage) || is_terminal(
            state_after(p, events, n).stage,
        ),
    decreases n,
{
    if n > 0 {
        let before = state_after(p, events, (n - 1) as nat);
        lemma_steps_left_bounded(p, events, (n - 1) as nat);
        if !is_terminal(before.stage) {
            lemma_step_progresses(before, events[n - 1]);
        }
    }
}

/// The setup ends: after 23 events, whatever they are, the pipeline is done
/// or has failed.
pub proof fn lemma_run_ends(p: PipelineView, events: Seq<EventView>, n: nat)
    requires
        n >= steps_left(p.stage),
    ensures
        is_terminal(state_after(p, events, n).stage),
        steps_left(p.stage) <= 23,
{
    lemma_steps_left_bounded(p, events, n);
}

/// The pipeline never goes back: of two points of a run, the later one is
/// no further from the end.
pub proof fn lemma_never_back(p: PipelineView, events: Seq<EventView>, m: nat, n: nat)
    requires
        m <= n,
    ensures
        steps_left(state_after(p, events, n).stage) <= steps_left(
            state_after(p, events, m).stage,
        ),
    decreases n - m,
{
    if m < n {
        lemma_never_back(p, events, m, (n - 1) as nat);
        let before = state_after(p, events, (n - 1) as nat);
        if !is_terminal(before.stage) {
            lemma_step_progresses(before, events[n - 1]);
        }
    }
}

/// Shared libraries that are in place are left alone: once the probe has
/// found their directory, no step of the run copies a shared tree.
pub proof fn lemma_shared_libraries_kept(p: PipelineView, events: Seq<EventView>, n: nat)
    requires
        p.stage == Stage::ProbingSharedLibraries,
        n < events.len(),
        events[0] == EventView::Exists(true),
    ensures
        !copies_shared_tree(action_after(p, events, n)),
{
    if n > 0 {
        assert(state_after(p, events, 1) == transition(state_after(p, events, 0), events[0]).0);
        lemma_never_back(p, events, 1, n);
    }
}

/// Shared libraries that are missing are copied, one tree after the other:
/// the support code, the program, the signature-format library.
pub proof fn lemma_shared_libraries_copied(p: PipelineView, events: Seq<EventView>)
    requires
        p.stage == Stage::ProbingSharedLibraries,
        events.len() >= 3,
        events[0] == EventView::Exists(false),
        events[1] == EventView::Completed,
        events[2] == EventView::Completed,
    ensures
        action_after(p, events, 0) == ActionView::Materialize(Tree::Common),
        action_after(p, events, 1) == ActionView::Materialize(Tree::Program),
        action_after(p, events, 2) == ActionView::Materialize(Tree::Bip322),
{
    assert(state_after(p, events, 1) == transition(state_after(p, events, 0), events[0]).0);
    assert(state_after(p, events, 2) == transition(state_after(p, events, 1), events[1]).0);
}

/// A demo project that is in place is left alone: once the probe has found
/// its directory, no step of the run creates the directory, copies the
/// application, writes the manifest or renames the example file.
pub proof fn lemma_demo_project_kept(p: PipelineView, events: Seq<EventView>, n: nat)
    requires
        p.stage == Stage::ProbingDemoDir,
        n < events.len(),
        events[0] == EventView::Exists(true),
    ensures
        !builds_demo_project(action_after(p, events, n)),
{
    if n > 0 {
        assert(state_after(p, events, 1) == transition(state_after(p, events, 0), events[0]).0);
        lemma_never_back(p, events, 1, n);
    }
}

/// Once the program is being deployed, its identifier, its key pair and the
/// name of its key stay what they are.
pub proof fn lemma_program_settled(p: PipelineView, events: Seq<EventView>, n: nat)
    requires
        steps_left(p.stage) <= steps_left(Stage::Deploying),
    ensures
        state_after(p, events, n).program_pubkey == p.program_pubkey,
        state_after(p, events, n).keypair == p.keypair,
        state_after(p, events, n).key_name == p.key_name,
    decreases n,
{
    if n > 0 {
        lemma_program_settled(p, events, (n - 1) as nat);
        lemma_never_back(p, events, 0, (n - 1) as nat);
    }
}

/// Whether the first two events of a run that starts with the reading of the
/// environment file show a program identity that exists already: the file
/// names the identifier `id`, and the registry holds a key that stands for it.
pub open spec fn shows_program(events: Seq<EventView>, id: Seq<char>) -> bool {
    &&& events.len() >= 2
    &&& events[0] matches EventView::Text(content)
    &&& program_pubkey_in(content) == id
    &&& id.len() > 0
    &&& events[1] matches EventView::Registry(records)
    &&& hex_identifiers(records).contains(id)
}

/// The record whose key the environment file names: the first of the registry
/// whose identifier is written `id`.
pub open spec fn owner_of(events: Seq<EventView>, id: Seq<char>) -> KeyRecordView {
    let records = events[1]->Registry_0;
    let owner = found(records, hex_identifiers(records), id)->0;
    found(records, names(records), owner.name)->0
}

/// A program identity that exists is used again. Where the environment file
/// names an identifier and the registry holds its key, the run creates no
/// account for a program: it deploys under the key pair stored for that
/// identifier, and every later step, the last included, speaks of that
/// identifier.
pub proof fn lemma_program_identity_reused(
    p: PipelineView,
    events: Seq<EventView>,
    id: Seq<char>,
    n: nat,
)
    requires
        p.stage == Stage::ReadingEnvFile,
        shows_program(events, id),
        n < events.len(),
    ensures
        !creates_program_account(action_after(p, events, n)),
        action_after(p, events, 1) == (ActionView::DeployProgram {
            keypair: owner_of(events, id).keypair,
            program_id: owner_of(events, id).keypair.identifier_bytes(),
            rpc_url: p.rpc_url,
        }),
        n >= 1 ==> state_after(p, events, n + 1).program_pubkey == id,
        action_after(p, events, n) matches ActionView::Finish { program_pubkey, .. }
            ==> program_pubkey == id,
{
    let records = events[1]->Registry_0;
    hex_identifiers(records).index_of_first_ensures(id);
    let at = hex_identifiers(records).index_of_first(id)->0;
    let owner = records[at];
    assert(names(records)[at] == owner.name);
    names(records).index_of_first_ensures(owner.name);
    let one = state_after(p, events, 1);
    let two = state_after(p, events, 2);
    assert(one == transition(state_after(p, events, 0), events[0]).0);
    assert(two == transition(one, events[1]).0);
    assert(two.stage == Stage::Deploying);
    assert(two.program_pubkey == id);
    if n >= 2 {
        let rest = events.skip(2);
        lemma_run_split(p, events, 2, (n - 2) as nat);
        lemma_run_split(p, events, 2, (n - 1) as nat);
        lemma_program_settled(two, rest, (n - 2) as nat);
        lemma_program_settled(two, rest, (n - 1) as nat);
        lemma_never_back(two, rest, 0, (n - 2) as nat);
    }
}

/// The key pair used again stands for the identifier that the file names.
/// Where no two records of the registry have the same name, as in every
/// registry that the library builds, the record whose key pair is deployed is
/// the first whose identifier is written as the file writes it.
pub proof fn lemma_reused_key_is_named(events: Seq<EventView>, id: Seq<char>)
    requires
        shows_program(events, id),
        names_distinct(events[1]->Registry_0),
    ensures
        owner_of(events, id) == found(
            events[1]->Registry_0,
            hex_identifiers(events[1]->Registry_0),
            id,
        )->0,
        hex_encoding(owner_of(events, id).keypair.identifier_bytes()) == id,
{
    let records = events[1]->Registry_0;
    hex_identifiers(records).index_of_first_ensures(id);
    let at = hex_identifiers(records).index_of_first(id)->0;
    let owner = records[at];
    assert(names(records)[at] == owner.name);
    names(records).index_of_first_ensures(owner.name);
    let by_name = names(records).index_of_first(owner.name)->0;
    assert(names(records)[by_name] == records[by_name].name);
    if by_name != at {
        assert(records[by_name].name != records[at].name);
    }
}

/// A run that is cut after `m` events goes on from the state reached there.
pub proof fn lemma_run_split(p: PipelineView, events: Seq<EventView>, m: nat, n: nat)
    requires
        m + n <= events.len(),
    ensures
        state_after(p, events, m + n) == state_after(
            state_after(p, events, m),
            events.skip(m as int),
            n,
        ),
    decreases n,
{
    if n > 0 {
        lemma_run_split(p, events, m, (n - 1) as nat);
        assert(events.skip(m as int)[n - 1] == events[m + n - 1]);
    }
}

/// A program identity that does not exist is created under a name that no
/// record has. Where the environment file names no identifier, the run asks
/// for an account for a program, under the first free one of the names
/// `graffiti`, `graffiti_1`, `graffiti_2` and so on.
pub proof fn lemma_program_identity_created(p: PipelineView, events: Seq<EventView>)
    requires
        p.stage == Stage::ReadingEnvFile,
        events.len() >= 2,
        events[0] matches EventView::Text(content) && program_pubkey_in(content).len() == 0,
        events[1] is Registry,
    ensures
        action_after(p, events, 1) == (ActionView::CreateAccount {
            name: unique_name(names(events[1]->Registry_0), KEY_NAME_BASE@),
            program_id: None,
            rpc_url: p.rpc_url,
        }),
        !names(events[1]->Registry_0).contains(
            unique_name(names(events[1]->Registry_0), KEY_NAME_BASE@),
        ),
{
    lemma_unique_name_is_free(names(events[1]->Registry_0), KEY_NAME_BASE@);
    assert(state_after(p, events, 1) == transition(state_after(p, events, 0), events[0]).0);
}

/// An environment file that names an identifier which the registry does not
/// hold stops the run: file and registry have come apart.
pub proof fn lemma_unknown_program_stops(p: PipelineView, events: Seq<EventView>)
    requires
        p.stage == Stage::ReadingEnvFile,
        events.len() >= 2,
        events[0] matches EventView::Text(content) && program_pubkey_in(content).len() > 0,
        events[1] matches EventView::Registry(records) && !hex_identifiers(records).contains(
            program_pubkey_in(events[0]->Text_0),
        ),
    ensures
        action_after(p, events, 1) == ActionView::Abort(SetupError::InconsistentState),
{
    let records = events[1]->Registry_0;
    hex_identifiers(records).index_of_first_ensures(program_pubkey_in(events[0]->Text_0));
    assert(state_after(p, events, 1) == transition(state_after(p, events, 0), events[0]).0);
}

/// A program account that was created is adopted: the run deploys under the
/// key pair that the registry holds under the new name, and settles the
/// identifier that this key pair stands for. Where the registry holds no
/// record of that name, the run stops.
pub proof fn lemma_created_program_adopted(p: PipelineView, records: Seq<KeyRecordView>)
    requires
        p.stage == Stage::ReloadingRegistry,
    ensures
        match found(records, names(records), p.key_name) {
            Some(record) => transition(p, EventView::Registry(records)).1
                == (ActionView::DeployProgram {
                keypair: record.keypair,
                program_id: record.keypair.identifier_bytes(),
                rpc_url: p.rpc_url,
            }) && transition(p, EventView::Registry(records)).0.program_pubkey == hex_encoding(
                record.keypair.identifier_bytes(),
            ),
            None => transition(p, EventView::Registry(records)).1 == ActionView::Abort(
                SetupError::NotFound,
            ),
        },
{
}

/// A state account that exists is used again: where the registry holds a
/// record of the state account's name, no step of the run from there creates
/// an account, and the identifier settled is that of the record.
pub proof fn lemma_state_account_reused(p: PipelineView, events: Seq<EventView>, n: nat)
    requires
        p.stage == Stage::LoadingRegistryForState,
        n < events.len(),
        events[0] matches EventView::Registry(records) && names(records).contains(
            STATE_ACCOUNT_NAME@,
        ),
    ensures
        !(action_after(p, events, n) is CreateAccount),
        action_after(p, events, 0) == ActionView::ReadEnvFile,
        state_after(p, events, 1).wall_pubkey == hex_encoding(
            found(
                events[0]->Registry_0,
                names(events[0]->Registry_0),
                STATE_ACCOUNT_NAME@,
            )->0.keypair.identifier_bytes(),
        ),
{
    let records = events[0]->Registry_0;
    names(records).index_of_first_ensures(STATE_ACCOUNT_NAME@);
    assert(state_after(p, events, 1) == transition(state_after(p, events, 0), events[0]).0);
    if n > 0 {
        lemma_never_back(p, events, 1, n);
    }
}

/// A state account that does not exist is created once, owned by the program:
/// where the registry holds no record of the state account's name, the run
/// asks for an account of that name, tagged with the identifier that the
/// program's key pair stands for.
pub proof fn lemma_state_account_created(p: PipelineView, records: Seq<KeyRecordView>)
    requires
        p.stage == Stage::LoadingRegistryForState,
        !names(records).contains(STATE_ACCOUNT_NAME@),
    ensures
        transition(p, EventView::Registry(records)).1 == (ActionView::CreateAccount {
            name: STATE_ACCOUNT_NAME@,
            program_id: Some(hex_encoding(p.keypair.identifier_bytes())),
            rpc_url: p.rpc_url,
        }),
{
    names(records).index_of_first_ensures(STATE_ACCOUNT_NAME@);
}

/// Effects come in their order. In a run from the start, the program is
/// activated only in answer to its completed deployment, the state account is
/// created only after the activation, the environment file is written only
/// from the content just read, and the setup finishes, the first time it says
/// so, only in answer to the written file.
pub proof fn lemma_effects_in_order(p: PipelineView, events: Seq<EventView>, n: nat)
    requires
        steps_left(p.stage) > steps_left(Stage::Deploying),
        n < events.len(),
    ensures
        action_after(p, events, n) is ActivateProgram ==> n >= 1 && events[n as int]
            == EventView::Completed && action_after(p, events, (n - 1) as nat)
            is DeployProgram && action_after(p, events, n)->ActivateProgram_keypair
            == action_after(p, events, (n - 1) as nat)->DeployProgram_keypair,
        action_after(p, events, n) is CreateAccount && !creates_program_account(
            action_after(p, events, n),
        ) ==> n >= 2 && action_after(p, events, (n - 2) as nat) is ActivateProgram,
        action_after(p, events, n) is WriteEnvFile ==> n >= 1 && events[n as int] is Text
            && action_after(p, events, (n - 1) as nat) is ReadEnvFile,
        action_after(p, events, n) is Finish && !(state_after(p, events, n).stage is Done) ==> n
            >= 1 && events[n as int] == EventView::Completed && action_after(
            p,
            events,
            (n - 1) as nat,
        ) is WriteEnvFile,
{
    let now = state_after(p, events, n);
    if n >= 1 {
        let before = state_after(p, events, (n - 1) as nat);
        assert(now == transition(before, events[n - 1]).0);
        if n >= 2 {
            let earlier = state_after(p, events, (n - 2) as nat);
            assert(before == transition(earlier, events[n - 2]).0);
        }
    }
}

/// Whether `text` is the hexadecimal notation of some bytes.
pub open spec fn is_hex(text: Seq<char>) -> bool {
    exists|bytes: Seq<u8>| text == hex_encoding(bytes)
}

/// Whether the identifiers that `p` has settled are in hexadecimal: the
/// program's from its deployment on, the state account's once it is resolved.
pub open spec fn identifiers_are_hex(p: PipelineView) -> bool {
    &&& !(p.stage is Failed) && steps_left(p.stage) <= steps_left(Stage::Deploying) ==> is_hex(
        p.program_pubkey,
    )
    &&& !(p.stage is Failed) && steps_left(p.stage) <= steps_left(Stage::ReadingEnvForUpdate)
        ==> is_hex(p.wall_pubkey)
}

/// A step keeps the settled identifiers in hexadecimal.
proof fn lemma_step_keeps_hex(p: PipelineView, e: EventView)
    requires
        identifiers_are_hex(p),
    ensures
        identifiers_are_hex(transition(p, e).0),
{
    let next = transition(p, e).0;
    match (p.stage, e) {
        (Stage::LoadingRegistry, EventView::Registry(records)) => {
            if p.program_pubkey.len() > 0 {
                let ids = hex_identifiers(records);
                ids.index_of_first_ensures(p.program_pubkey);
                match ids.index_of_first(p.program_pubkey) {
                    Some(at) => {
                        assert(p.program_pubkey == hex_encoding(
                            records[at].keypair.identifier_bytes(),
                        ));
                    },
                    None => {},
                }
            }
        },
        (Stage::ReloadingRegistry, EventView::Registry(records)) => {
            match found(records, names(records), p.key_name) {
                Some(record) => {
                    assert(next.program_pubkey == hex_encoding(
                        record.keypair.identifier_bytes(),
                    ));
                },
                None => {},
            }
        },
        (Stage::LoadingRegistryForState, EventView::Registry(records)) => {
            match found(records, names(records), STATE_ACCOUNT_NAME@) {
                Some(record) => {
                    assert(next.wall_pubkey == hex_encoding(record.keypair.identifier_bytes()));
                },
                None => {},
            }
        },
        (Stage::ReloadingRegistryForState, EventView::Registry(records)) => {
            match found(records, names(records), STATE_ACCOUNT_NAME@) {
                Some(record) => {
                    assert(next.wall_pubkey == hex_encoding(record.keypair.identifier_bytes()));
                },
                None => {},
            }
        },
        _ => {},
    }
}

/// In every run that starts before the program's identity is resolved, the
/// identifiers that the pipeline settles are in hexadecimal.
pub proof fn lemma_identifiers_are_hex(p: PipelineView, events: Seq<EventView>, n: nat)
    requires
        steps_left(p.stage) > steps_left(Stage::Deploying),
    ensures
        identifiers_are_hex(state_after(p, events, n)),
    decreases n,
{
    if n > 0 {
        lemma_identifiers_are_hex(p, events, (n - 1) as nat);
        lemma_step_keeps_hex(state_after(p, events, (n - 1) as nat), events[n - 1]);
    }
}

/// What a run writes, the next run finds. Whatever the environment file
/// holds when a run comes to configure it, the file that the run writes is
/// the configured one, and the program identifier that is read from that file
/// is the one that the run has settled. This needs a network name and an RPC
/// endpoint without a line break.
pub proof fn lemma_written_program_read_again(
    p: PipelineView,
    events: Seq<EventView>,
    n: nat,
    content: Seq<char>,
)
    requires
        steps_left(p.stage) > steps_left(Stage::Deploying),
        n < events.len(),
        state_after(p, events, n).stage == Stage::ReadingEnvForUpdate,
        events[n as int] == EventView::Text(content),
        no_break(p.network),
        no_break(p.rpc_url),
    ensures
        action_after(p, events, n) == (ActionView::WriteEnvFile {
            content: configured(
                content,
                Some(p.rpc_url),
                state_after(p, events, n).program_pubkey,
                state_after(p, events, n).wall_pubkey,
                p.network,
            ),
        }),
        action_after(p, events, n) matches ActionView::WriteEnvFile { content: written }
            && program_pubkey_in(written) == state_after(p, events, n).program_pubkey,
{
    let now = state_after(p, events, n);
    lemma_identifiers_are_hex(p, events, n);
    lemma_settings_kept(p, events, n);
    let program_bytes = choose|bytes: Seq<u8>| now.program_pubkey == hex_encoding(bytes);
    let wall_bytes = choose|bytes: Seq<u8>| now.wall_pubkey == hex_encoding(bytes);
    lemma_hex_encoding_plain(program_bytes);
    lemma_hex_encoding_plain(wall_bytes);
    lemma_plain_value(now.program_pubkey);
    lemma_plain_value(now.wall_pubkey);
    lemma_program_read_back(
        content,
        Some(now.rpc_url),
        now.program_pubkey,
        now.wall_pubkey,
        now.network,
    );
}

/// A file that a run has written is left as it is by the next run. Where a
/// run comes to configure a file that is itself the outcome of configuring
/// some file with the values that the run has settled, the run writes that
/// file again, unchanged. This needs a network name and an RPC endpoint
/// without a line break.
pub proof fn lemma_written_file_kept(
    p: PipelineView,
    events: Seq<EventView>,
    n: nat,
    earlier: Seq<char>,
)
    requires
        steps_left(p.stage) > steps_left(Stage::Deploying),
        n < events.len(),
        state_after(p, events, n).stage == Stage::ReadingEnvForUpdate,
        events[n as int] == EventView::Text(
            configured(
                earlier,
                Some(p.rpc_url),
                state_after(p, events, n).program_pubkey,
                state_after(p, events, n).wall_pubkey,
                p.network,
            ),
        ),
        no_break(p.network),
        no_break(p.rpc_url),
    ensures
        action_after(p, events, n) == (ActionView::WriteEnvFile {
            content: events[n as int]->Text_0,
        }),
{
    let now = state_after(p, events, n);
    lemma_identifiers_are_hex(p, events, n);
    lemma_settings_kept(p, events, n);
    let program_bytes = choose|bytes: Seq<u8>| now.program_pubkey == hex_encoding(bytes);
    let wall_bytes = choose|bytes: Seq<u8>| now.wall_pubkey == hex_encoding(bytes);
    lemma_hex_encoding_plain(program_bytes);
    lemma_hex_encoding_plain(wall_bytes);
    lemma_plain_value(now.program_pubkey);
    lemma_plain_value(now.wall_pubkey);
    lemma_configured_again(
        earlier,
        Some(now.rpc_url),
        now.program_pubkey,
        now.wall_pubkey,
        now.network,
    );
}

/// The network's name and the RPC endpoint are settled at the start and stay
/// what they are.
pub proof fn lemma_settings_kept(p: PipelineView, events: Seq<EventView>, n: nat)
    ensures
        state_after(p, events, n).network == p.network,
        state_after(p, events, n).rpc_url == p.rpc_url,
    decreases n,
{
    if n > 0 {
        lemma_settings_kept(p, events, (n - 1) as nat);
    }
}

} // verus!
