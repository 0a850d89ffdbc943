//! Where the setup puts things below the base directory, and the manifest of
//! the demo project.

use crate::text::{chars_of, extend, string_of};
use vstd::prelude::*;

verus! {

/// A tree of bundled files.
#[derive(Clone, Copy, Debug, PartialEq, Eq, Structural)]
pub enum Tree {
    /// The support code that every demo shares.
    Common,
    /// The program code that every demo shares, and that is deployed.
    Program,
    /// The signature-format library that every demo shares.
    Bip322,
    /// The demo's own application, frontend and backend.
    App,
}

/// The directory whose presence says that the shared libraries are in place.
pub const SHARED_MARKER_DIR: &'static str = "common";

/// The directory of all projects, below the base directory.
pub const PROJECTS_DIR: &'static str = "projects";

/// The demo's directory, below the base directory.
pub const DEMO_DIR: &'static str = "projects/demo";

/// The demo's manifest, below the demo's directory.
pub const MANIFEST_FILE: &'static str = "Cargo.toml";

/// The example of an environment file, below the demo's directory.
pub const ENV_EXAMPLE_FILE: &'static str = "app/frontend/.env.example";

/// The environment file in use, below the demo's directory.
pub const ENV_FILE: &'static str = "app/frontend/.env";

/// The first lines of the demo's manifest.
pub const MANIFEST_HEADER: &'static str =
    "[package]\nname = \"arch-demo-app\"\nversion = \"0.1.0\"\nedition = \"2021\"\n\n[dependencies]\n";

/// The name of a tree in the bundle, which is also the name of its directory.
pub open spec fn tree_name(tree: Tree) -> Seq<char> {
    match tree {
        Tree::Common => "common"@,
        Tree::Program => "program"@,
        Tree::Bip322 => "bip322"@,
        Tree::App => "app"@,
    }
}

/// The manifest's line for a shared library: a dependency found two
/// directories above the demo's.
pub open spec fn dependency_line(name: Seq<char>) -> Seq<char> {
    name + " = { path = \"../../"@ + name + "\" }\n"@
}

/// The demo's manifest: its header, and one dependency for each shared library.
pub open spec fn manifest_text() -> Seq<char> {
    MANIFEST_HEADER@ + dependency_line(tree_name(Tree::Common)) + dependency_line(
        tree_name(Tree::Program),
    ) + dependency_line(tree_name(Tree::Bip322))
}

impl Tree {
    /// The tree's name in the bundle.
    pub fn name(&self) -> (name: &'static str)
        ensures
            name@ == tree_name(*self),
    {
        match self {
            Tree::Common => "common",
            Tree::Program => "program",
            Tree::Bip322 => "bip322",
            Tree::App => "app",
        }
    }

    /// Whether every demo shares the tree.
    pub fn is_shared(&self) -> (shared: bool)
        ensures
            shared == (*self != Tree::App),
    {
        match self {
            Tree::App => false,
            _ => true,
        }
    }
}

/// Appends the manifest's line for the shared library `tree`.
fn push_dependency(out: &mut Vec<char>, tree: Tree)
    ensures
        final(out)@ == old(out)@ + dependency_line(tree_name(tree)),
{
    let name = chars_of(tree.name());
    extend(out, &name);
    extend(out, &chars_of(" = { path = \"../../"));
    extend(out, &name);
    extend(out, &chars_of("\" }\n"));
    assert(out@ =~= old(out)@ + dependency_line(tree_name(tree)));
}

/// The text of the demo's manifest, which names the three shared libraries
/// as dependencies by their paths.
pub fn demo_manifest() -> (text: String)
    ensures
        text@ == manifest_text(),
{
    let mut out = chars_of(MANIFEST_HEADER);
    push_dependency(&mut out, Tree::Common);
    push_dependency(&mut out, Tree::Program);
    push_dependency(&mut out, Tree::Bip322);
    string_of(&out)
}

} // verus!
