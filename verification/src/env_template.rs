//! The environment file in the order of the template, and the file without
//! keys: what configuration makes of them.

use crate::env_file::{
    appended, begins_with, configured, keyed_value, line_with_value, made_whole, with_value,
    NETWORK_KEY, PROGRAM_PUBKEY_KEY, RPC_URL_KEY, WALL_ACCOUNT_PUBKEY_KEY,
};
use crate::env_laws::{
    apart, is_env_key, lemma_env_keys, lemma_line_feed_added, lemma_lines_without_key,
    lemma_parts,
};
use crate::text::{
    complete, ending_len, is_line, lemma_first_line_is, line_body, line_ending, no_break,
};
use vstd::prelude::*;

verus! {

/// Whether `ending` ends a line: a line feed, alone or behind a carriage
/// return.
pub open spec fn is_ending(ending: Seq<char>) -> bool {
    ending == seq!['\n'] || ending == seq!['\r', '\n']
}

/// Whether no line of `text` begins with `key`.
pub open spec fn free_of(text: Seq<char>, key: Seq<char>) -> bool {
    keyed_value(text, key) is None
}

/// Whether no line of `text` begins with one of the four keys.
pub open spec fn keyless(text: Seq<char>) -> bool {
    &&& free_of(text, PROGRAM_PUBKEY_KEY@)
    &&& free_of(text, WALL_ACCOUNT_PUBKEY_KEY@)
    &&& free_of(text, NETWORK_KEY@)
    &&& free_of(text, RPC_URL_KEY@)
}

/// An environment file with its four keys in the order of the template: the
/// program's identifier, the state account's, the network, the RPC endpoint,
/// each on one line. The fields are what stands around the keys' lines, and
/// how those lines end.
pub struct EnvTemplate {
    /// The lines before the program's line.
    pub head: Seq<char>,
    /// The ending of the program's line.
    pub program_ending: Seq<char>,
    /// The lines between the program's line and the state account's.
    pub after_program: Seq<char>,
    /// The ending of the state account's line.
    pub wall_ending: Seq<char>,
    /// The lines between the state account's line and the network's.
    pub after_wall: Seq<char>,
    /// The ending of the network's line.
    pub network_ending: Seq<char>,
    /// The lines between the network's line and the RPC line.
    pub after_network: Seq<char>,
    /// The ending of the RPC line; empty where the file ends with that line
    /// and without a line feed.
    pub rpc_ending: Seq<char>,
    /// The lines behind the RPC line.
    pub tail: Seq<char>,
}

impl EnvTemplate {
    /// The program's line with the value given.
    pub open spec fn program_line(self, value: Seq<char>) -> Seq<char> {
        PROGRAM_PUBKEY_KEY@ + value + self.program_ending
    }

    /// The state account's line with the value given.
    pub open spec fn wall_line(self, value: Seq<char>) -> Seq<char> {
        WALL_ACCOUNT_PUBKEY_KEY@ + value + self.wall_ending
    }

    /// The network's line with the value given.
    pub open spec fn network_line(self, value: Seq<char>) -> Seq<char> {
        NETWORK_KEY@ + value + self.network_ending
    }

    /// The RPC line with the value given.
    pub open spec fn rpc_line(self, value: Seq<char>) -> Seq<char> {
        RPC_URL_KEY@ + value + self.rpc_ending
    }

    /// The file with the given values behind its keys.
    pub open spec fn filled(
        self,
        program_pubkey: Seq<char>,
        wall_pubkey: Seq<char>,
        network: Seq<char>,
        rpc_url: Seq<char>,
    ) -> Seq<char> {
        self.head + self.program_line(program_pubkey) + self.after_program + self.wall_line(
            wall_pubkey,
        ) + self.after_wall + self.network_line(network) + self.after_network + self.rpc_line(
            rpc_url,
        ) + self.tail
    }

    /// Whether the parts around the keys' lines are whole lines of which none
    /// begins with a key, and the keys' lines end as lines do.
    pub open spec fn well_formed(self) -> bool {
        &&& complete(self.head) && keyless(self.head)
        &&& complete(self.after_program) && keyless(self.after_program)
        &&& complete(self.after_wall) && keyless(self.after_wall)
        &&& complete(self.after_network) && keyless(self.after_network)
        &&& keyless(self.tail)
        &&& is_ending(self.program_ending)
        &&& is_ending(self.wall_ending)
        &&& is_ending(self.network_ending)
        &&& is_ending(self.rpc_ending) || (self.rpc_ending.len() == 0 && self.tail.len() == 0)
    }

    /// What stands behind the network's line.
    spec fn behind_network(self, rpc_url: Seq<char>) -> Seq<char> {
        self.after_network + (self.rpc_line(rpc_url) + self.tail)
    }

    /// What stands behind the state account's line.
    spec fn behind_wall(self, network: Seq<char>, rpc_url: Seq<char>) -> Seq<char> {
        self.after_wall + (self.network_line(network) + self.behind_network(rpc_url))
    }

    /// What stands behind the program's line.
    spec fn behind_program(
        self,
        wall_pubkey: Seq<char>,
        network: Seq<char>,
        rpc_url: Seq<char>,
    ) -> Seq<char> {
        self.after_program + (self.wall_line(wall_pubkey) + self.behind_wall(network, rpc_url))
    }

    /// What stands before the state account's line.
    spec fn before_wall(self, program_pubkey: Seq<char>) -> Seq<char> {
        self.head + self.program_line(program_pubkey) + self.after_program
    }

    /// What stands before the network's line.
    spec fn before_network(self, program_pubkey: Seq<char>, wall_pubkey: Seq<char>) -> Seq<char> {
        self.before_wall(program_pubkey) + self.wall_line(wall_pubkey) + self.after_wall
    }

    /// What stands before the RPC line.
    spec fn before_rpc(
        self,
        program_pubkey: Seq<char>,
        wall_pubkey: Seq<char>,
        network: Seq<char>,
    ) -> Seq<char> {
        self.before_network(program_pubkey, wall_pubkey) + self.network_line(network)
            + self.after_network
    }

    /// The filled file, cut around each of its keys' lines in turn.
    proof fn lemma_cuts(
        self,
        program_pubkey: Seq<char>,
        wall_pubkey: Seq<char>,
        network: Seq<char>,
        rpc_url: Seq<char>,
    )
        ensures
            self.filled(program_pubkey, wall_pubkey, network, rpc_url) == self.head
                + self.program_line(program_pubkey) + self.behind_program(
                wall_pubkey,
                network,
                rpc_url,
            ),
            self.filled(program_pubkey, wall_pubkey, network, rpc_url) == self.before_wall(
                program_pubkey,
            ) + self.wall_line(wall_pubkey) + self.behind_wall(network, rpc_url),
            self.filled(program_pubkey, wall_pubkey, network, rpc_url) == self.before_network(
                program_pubkey,
                wall_pubkey,
            ) + self.network_line(network) + self.behind_network(rpc_url),
            self.filled(program_pubkey, wall_pubkey, network, rpc_url) == self.before_rpc(
                program_pubkey,
                wall_pubkey,
                network,
            ) + self.rpc_line(rpc_url) + self.tail,
    {
        let whole = self.filled(program_pubkey, wall_pubkey, network, rpc_url);
        assert(whole =~= self.head + self.program_line(program_pubkey) + self.behind_program(
            wall_pubkey,
            network,
            rpc_url,
        ));
        assert(whole =~= self.before_wall(program_pubkey) + self.wall_line(wall_pubkey)
            + self.behind_wall(network, rpc_url));
        assert(whole =~= self.before_network(program_pubkey, wall_pubkey) + self.network_line(
            network,
        ) + self.behind_network(rpc_url));
        assert(whole =~= self.before_rpc(program_pubkey, wall_pubkey, network) + self.rpc_line(
            rpc_url,
        ) + self.tail);
    }
}

/// The line of a key: it is one line, it begins with its key and with no key
/// that is apart from it, and with another value it is the line that setting
/// that value gives.
#[verifier::rlimit(50)]
proof fn lemma_key_line(
    key: Seq<char>,
    old: Seq<char>,
    ending: Seq<char>,
    value: Seq<char>,
    other: Seq<char>,
)
    requires
        key.len() > 0,
        no_break(key),
        no_break(old),
        is_ending(ending) || ending.len() == 0,
    ensures
        is_line(key + old + ending),
        is_ending(ending) ==> (key + old + ending).last() == '\n',
        begins_with(key + old + ending, key),
        line_with_value(key + old + ending, key, value) == key + value + ending,
        apart(other, key) ==> !begins_with(key + old + ending, other),
{
    let inner = key + old;
    let line = inner + ending;
    assert(forall|i: int| 0 <= i < inner.len() ==> line[i] == inner[i]);
    assert(forall|i: int| 0 <= i < ending.len() ==> line[inner.len() + i] == ending[i]);
    assert(ending_len(line) == ending.len()) by {
        if ending.len() == 2 {
            assert(line[line.len() - 2] == ending[0]);
            assert(line[line.len() - 1] == ending[1]);
        } else if ending.len() == 1 {
            assert(line[line.len() - 1] == ending[0]);
            assert(line[line.len() - 2] == inner[inner.len() - 1]);
        } else {
            assert(line[line.len() - 1] == inner[inner.len() - 1]);
        }
    }
    assert(line_body(line) =~= inner);
    assert(line_ending(line) =~= ending);
    assert(inner.subrange(0, key.len() as int) =~= key);
    assert(is_line(line)) by {
        assert forall|i: int| 0 <= i < line.len() - 1 implies line[i] != '\n' by {
            if i >= inner.len() {
                assert(line[i] == ending[i - inner.len()]);
            }
        }
    }
    if is_ending(ending) {
        assert(line.last() == ending[ending.len() - 1]);
    }
    if apart(other, key) && begins_with(line, other) {
        let i = choose|i: int| 0 <= i < other.len() && i < key.len() && other[i] != key[i];
        assert(inner.subrange(0, other.len() as int)[i] == other[i]);
        assert(inner[i] == key[i]);
    }
}

/// A line of another key, followed by lines of which none begins with `key`:
/// none of these lines begins with `key`.
#[verifier::rlimit(50)]
proof fn lemma_free_behind_line(
    key: Seq<char>,
    other: Seq<char>,
    old: Seq<char>,
    ending: Seq<char>,
    behind: Seq<char>,
)
    requires
        apart(key, other),
        other.len() > 0,
        no_break(other),
        no_break(old),
        is_ending(ending) || (ending.len() == 0 && behind.len() == 0),
        free_of(behind, key),
    ensures
        free_of(other + old + ending + behind, key),
{
    let line = other + old + ending;
    lemma_key_line(other, old, ending, old, key);
    lemma_first_line_is(line, behind);
}

/// Whole lines of which none begins with `key`, followed by lines of which
/// none does: none of these lines begins with `key`, and the lines are whole
/// where the second part is.
proof fn lemma_free_parts(head: Seq<char>, rest: Seq<char>, key: Seq<char>)
    requires
        complete(head),
        free_of(head, key),
        free_of(rest, key),
    ensures
        free_of(head + rest, key),
        complete(rest) ==> complete(head + rest),
{
    lemma_parts(head, rest, key, Seq::empty());
    if complete(rest) {
        if rest.len() > 0 {
            assert((head + rest).last() == rest.last());
        } else {
            assert(head + rest =~= head);
        }
    }
}

/// The value of a key set in its place: where the key begins one line only,
/// that line takes the value and keeps its ending, and what stands before
/// and behind it stays.
#[verifier::rlimit(50)]
proof fn lemma_set_in_place(
    before: Seq<char>,
    key: Seq<char>,
    old: Seq<char>,
    ending: Seq<char>,
    behind: Seq<char>,
    value: Seq<char>,
)
    requires
        key.len() > 0,
        no_break(key),
        no_break(old),
        is_ending(ending) || (ending.len() == 0 && behind.len() == 0),
        complete(before),
        free_of(before, key),
        free_of(behind, key),
    ensures
        with_value(before + (key + old + ending) + behind, key, value) == before + (key + value
            + ending) + behind,
{
    let line = key + old + ending;
    let set = key + value + ending;
    lemma_key_line(key, old, ending, value, key);
    lemma_first_line_is(line, behind);
    lemma_lines_without_key(before, key, value);
    lemma_lines_without_key(behind, key, value);
    lemma_parts(before, line + behind, key, value);
    assert(before + line + behind =~= before + (line + behind));
    assert(before + (set + behind) =~= before + set + behind);
}

/// The program's identifier set in a file in the order of the template.
#[verifier::rlimit(50)]
proof fn lemma_template_program(
    t: EnvTemplate,
    old: Seq<char>,
    wall: Seq<char>,
    network: Seq<char>,
    rpc_url: Seq<char>,
    value: Seq<char>,
)
    requires
        t.well_formed(),
        no_break(old),
        no_break(wall),
        no_break(network),
        no_break(rpc_url),
        no_break(value),
    ensures
        with_value(t.filled(old, wall, network, rpc_url), PROGRAM_PUBKEY_KEY@, value) == t.filled(
            value,
            wall,
            network,
            rpc_url,
        ),
{
    let k1 = PROGRAM_PUBKEY_KEY@;
    let k2 = WALL_ACCOUNT_PUBKEY_KEY@;
    let k3 = NETWORK_KEY@;
    let kr = RPC_URL_KEY@;
    lemma_env_keys();
    assert(is_env_key(k1) && is_env_key(k2) && is_env_key(k3) && is_env_key(kr));
    t.lemma_cuts(old, wall, network, rpc_url);
    t.lemma_cuts(value, wall, network, rpc_url);
    lemma_free_behind_line(k1, kr, rpc_url, t.rpc_ending, t.tail);
    lemma_free_parts(t.after_network, t.rpc_line(rpc_url) + t.tail, k1);
    lemma_free_behind_line(k1, k3, network, t.network_ending, t.behind_network(rpc_url));
    lemma_free_parts(t.after_wall, t.network_line(network) + t.behind_network(rpc_url), k1);
    lemma_free_behind_line(k1, k2, wall, t.wall_ending, t.behind_wall(network, rpc_url));
    lemma_free_parts(t.after_program, t.wall_line(wall) + t.behind_wall(network, rpc_url), k1);
    lemma_set_in_place(
        t.head,
        k1,
        old,
        t.program_ending,
        t.behind_program(wall, network, rpc_url),
        value,
    );
}

/// Whole lines, the line of a key and whole lines again: together they are
/// whole lines, and none of them begins with `key`, given that none of the
/// parts does and that the line's key is apart from `key`.
#[verifier::rlimit(50)]
proof fn lemma_joined(
    before: Seq<char>,
    other: Seq<char>,
    value: Seq<char>,
    ending: Seq<char>,
    gap: Seq<char>,
    key: Seq<char>,
)
    requires
        complete(before),
        free_of(before, key),
        apart(key, other),
        other.len() > 0,
        no_break(other),
        no_break(value),
        is_ending(ending),
        complete(gap),
        free_of(gap, key),
    ensures
        complete(before + (other + value + ending) + gap),
        free_of(before + (other + value + ending) + gap, key),
{
    let line = other + value + ending;
    lemma_free_behind_line(key, other, value, ending, gap);
    lemma_free_parts(before, line + gap, key);
    lemma_ends_line(other + value, ending);
    lemma_complete_behind_line(line, gap);
    lemma_complete_parts(before, line + gap);
    lemma_joined_either_way(before, line, gap);
}

/// Three texts joined are the same whichever two are joined first.
proof fn lemma_joined_either_way(a: Seq<char>, b: Seq<char>, c: Seq<char>)
    ensures
        a + b + c == a + (b + c),
{
    assert(a + b + c =~= a + (b + c));
}

/// A text with a line's ending behind it ends in a line feed.
proof fn lemma_ends_line(inner: Seq<char>, ending: Seq<char>)
    requires
        is_ending(ending),
    ensures
        (inner + ending).len() > 0,
        (inner + ending).last() == '\n',
{
    assert((inner + ending).last() == ending[ending.len() - 1]);
}

/// Whole lines behind whole lines make whole lines.
proof fn lemma_complete_parts(head: Seq<char>, rest: Seq<char>)
    requires
        complete(head),
        complete(rest),
    ensures
        complete(head + rest),
{
    if rest.len() > 0 {
        assert((head + rest).last() == rest.last());
    } else {
        assert(head + rest =~= head);
    }
}

/// What stands before the state account's line is whole lines, of which none
/// begins with a later key.
#[verifier::rlimit(50)]
proof fn lemma_before_wall(t: EnvTemplate, program: Seq<char>, key: Seq<char>)
    requires
        t.well_formed(),
        no_break(program),
        key == WALL_ACCOUNT_PUBKEY_KEY@ || key == NETWORK_KEY@ || key == RPC_URL_KEY@,
    ensures
        complete(t.before_wall(program)),
        free_of(t.before_wall(program), key),
{
    let k1 = PROGRAM_PUBKEY_KEY@;
    assert(apart(key, k1) && k1.len() > 0 && no_break(k1)) by {
        lemma_env_keys();
        assert(is_env_key(k1) && is_env_key(key));
    }
    assert(free_of(t.head, key) && free_of(t.after_program, key));
    lemma_joined(t.head, k1, program, t.program_ending, t.after_program, key);
}

/// What stands before the network's line is whole lines, of which none
/// begins with a later key.
#[verifier::rlimit(50)]
proof fn lemma_before_network(t: EnvTemplate, program: Seq<char>, wall: Seq<char>, key: Seq<char>)
    requires
        t.well_formed(),
        no_break(program),
        no_break(wall),
        key == NETWORK_KEY@ || key == RPC_URL_KEY@,
    ensures
        complete(t.before_network(program, wall)),
        free_of(t.before_network(program, wall), key),
{
    let k2 = WALL_ACCOUNT_PUBKEY_KEY@;
    assert(apart(key, k2) && k2.len() > 0 && no_break(k2)) by {
        lemma_env_keys();
        assert(is_env_key(k2) && is_env_key(key));
    }
    assert(free_of(t.after_wall, key));
    lemma_before_wall(t, program, key);
    lemma_joined(t.before_wall(program), k2, wall, t.wall_ending, t.after_wall, key);
}

/// What stands before the RPC line is whole lines, of which none begins with
/// the RPC key.
#[verifier::rlimit(50)]
proof fn lemma_before_rpc(t: EnvTemplate, program: Seq<char>, wall: Seq<char>, network: Seq<char>)
    requires
        t.well_formed(),
        no_break(program),
        no_break(wall),
        no_break(network),
    ensures
        complete(t.before_rpc(program, wall, network)),
        free_of(t.before_rpc(program, wall, network), RPC_URL_KEY@),
{
    let k3 = NETWORK_KEY@;
    let kr = RPC_URL_KEY@;
    assert(apart(kr, k3) && k3.len() > 0 && no_break(k3)) by {
        lemma_env_keys();
        assert(is_env_key(k3) && is_env_key(kr));
    }
    assert(free_of(t.after_network, kr));
    lemma_before_network(t, program, wall, kr);
    lemma_joined(
        t.before_network(program, wall),
        k3,
        network,
        t.network_ending,
        t.after_network,
        kr,
    );
}

/// The state account's identifier set in a file in the order of the template.
#[verifier::rlimit(50)]
proof fn lemma_template_wall(
    t: EnvTemplate,
    program: Seq<char>,
    old: Seq<char>,
    network: Seq<char>,
    rpc_url: Seq<char>,
    value: Seq<char>,
)
    requires
        t.well_formed(),
        no_break(program),
        no_break(old),
        no_break(network),
        no_break(rpc_url),
        no_break(value),
    ensures
        with_value(t.filled(program, old, network, rpc_url), WALL_ACCOUNT_PUBKEY_KEY@, value)
            == t.filled(program, value, network, rpc_url),
{
    let k2 = WALL_ACCOUNT_PUBKEY_KEY@;
    let k3 = NETWORK_KEY@;
    let kr = RPC_URL_KEY@;
    lemma_env_keys();
    assert(is_env_key(k2) && is_env_key(k3) && is_env_key(kr));
    t.lemma_cuts(program, old, network, rpc_url);
    t.lemma_cuts(program, value, network, rpc_url);
    lemma_before_wall(t, program, k2);
    lemma_free_behind_line(k2, kr, rpc_url, t.rpc_ending, t.tail);
    lemma_free_parts(t.after_network, t.rpc_line(rpc_url) + t.tail, k2);
    lemma_free_behind_line(k2, k3, network, t.network_ending, t.behind_network(rpc_url));
    lemma_free_parts(t.after_wall, t.network_line(network) + t.behind_network(rpc_url), k2);
    lemma_set_in_place(
        t.before_wall(program),
        k2,
        old,
        t.wall_ending,
        t.behind_wall(network, rpc_url),
        value,
    );
}

/// The network's name set in a file in the order of the template.
#[verifier::rlimit(50)]
proof fn lemma_template_network(
    t: EnvTemplate,
    program: Seq<char>,
    wall: Seq<char>,
    old: Seq<char>,
    rpc_url: Seq<char>,
    value: Seq<char>,
)
    requires
        t.well_formed(),
        no_break(program),
        no_break(wall),
        no_break(old),
        no_break(rpc_url),
        no_break(value),
    ensures
        with_value(t.filled(program, wall, old, rpc_url), NETWORK_KEY@, value) == t.filled(
            program,
            wall,
            value,
            rpc_url,
        ),
{
    let k3 = NETWORK_KEY@;
    let kr = RPC_URL_KEY@;
    lemma_env_keys();
    assert(is_env_key(k3) && is_env_key(kr));
    t.lemma_cuts(program, wall, old, rpc_url);
    t.lemma_cuts(program, wall, value, rpc_url);
    lemma_before_network(t, program, wall, k3);
    lemma_free_behind_line(k3, kr, rpc_url, t.rpc_ending, t.tail);
    lemma_free_parts(t.after_network, t.rpc_line(rpc_url) + t.tail, k3);
    lemma_set_in_place(
        t.before_network(program, wall),
        k3,
        old,
        t.network_ending,
        t.behind_network(rpc_url),
        value,
    );
}

/// The RPC endpoint set in a file in the order of the template.
#[verifier::rlimit(50)]
proof fn lemma_template_rpc(
    t: EnvTemplate,
    program: Seq<char>,
    wall: Seq<char>,
    network: Seq<char>,
    old: Seq<char>,
    value: Seq<char>,
)
    requires
        t.well_formed(),
        no_break(program),
        no_break(wall),
        no_break(network),
        no_break(old),
    ensures
        with_value(t.filled(program, wall, network, old), RPC_URL_KEY@, value) == t.filled(
            program,
            wall,
            network,
            value,
        ),
{
    let kr = RPC_URL_KEY@;
    lemma_env_keys();
    assert(is_env_key(kr));
    t.lemma_cuts(program, wall, network, old);
    t.lemma_cuts(program, wall, network, value);
    lemma_before_rpc(t, program, wall, network);
    lemma_set_in_place(
        t.before_rpc(program, wall, network),
        kr,
        old,
        t.rpc_ending,
        t.tail,
        value,
    );
}

/// Configuration of a file in the order of the template does what it is
/// meant to do: each value comes to stand behind its key in place of what
/// stood there, the RPC line holds the new URL where one is given, and
/// everything else stays as it was. This needs old values, identifiers and a
/// network name without a line break.
#[verifier::rlimit(50)]
pub proof fn lemma_configured_template(
    template: EnvTemplate,
    old_program: Seq<char>,
    old_wall: Seq<char>,
    old_network: Seq<char>,
    old_rpc_url: Seq<char>,
    rpc_url: Option<Seq<char>>,
    program_pubkey: Seq<char>,
    wall_pubkey: Seq<char>,
    network: Seq<char>,
)
    requires
        template.well_formed(),
        no_break(old_program),
        no_break(old_wall),
        no_break(old_network),
        no_break(old_rpc_url),
        no_break(program_pubkey),
        no_break(wall_pubkey),
        no_break(network),
    ensures
        configured(
            template.filled(old_program, old_wall, old_network, old_rpc_url),
            rpc_url,
            program_pubkey,
            wall_pubkey,
            network,
        ) == template.filled(
            program_pubkey,
            wall_pubkey,
            network,
            match rpc_url {
                Some(url) => url,
                None => old_rpc_url,
            },
        ),
{
    lemma_template_program(
        template,
        old_program,
        old_wall,
        old_network,
        old_rpc_url,
        program_pubkey,
    );
    lemma_template_wall(
        template,
        program_pubkey,
        old_wall,
        old_network,
        old_rpc_url,
        wall_pubkey,
    );
    lemma_template_network(
        template,
        program_pubkey,
        wall_pubkey,
        old_network,
        old_rpc_url,
        network,
    );
    match rpc_url {
        Some(url) => {
            lemma_template_rpc(template, program_pubkey, wall_pubkey, network, old_rpc_url, url);
        },
        None => {},
    }
}

/// Whole lines behind a line that ends in a line feed make whole lines.
proof fn lemma_complete_behind_line(line: Seq<char>, behind: Seq<char>)
    requires
        line.len() > 0,
        line.last() == '\n',
        complete(behind),
    ensures
        complete(line + behind),
{
    if behind.len() > 0 {
        assert((line + behind).last() == behind.last());
    } else {
        assert(line + behind =~= line);
    }
}

/// A file in which no line begins with a key keeps all its lines and gets a
/// new line for each key, in the order in which the keys are set.
#[verifier::rlimit(50)]
pub proof fn lemma_configured_keyless(
    content: Seq<char>,
    rpc_url: Seq<char>,
    program_pubkey: Seq<char>,
    wall_pubkey: Seq<char>,
    network: Seq<char>,
)
    requires
        keyless(content),
        no_break(program_pubkey),
        no_break(wall_pubkey),
        no_break(network),
    ensures
        configured(content, Some(rpc_url), program_pubkey, wall_pubkey, network) == made_whole(
            content,
        ) + (PROGRAM_PUBKEY_KEY@ + program_pubkey + seq!['\n']) + (WALL_ACCOUNT_PUBKEY_KEY@
            + wall_pubkey + seq!['\n']) + (NETWORK_KEY@ + network + seq!['\n']) + (RPC_URL_KEY@
            + rpc_url + seq!['\n']),
        configured(content, None, program_pubkey, wall_pubkey, network) == made_whole(content) + (
        PROGRAM_PUBKEY_KEY@ + program_pubkey + seq!['\n']) + (WALL_ACCOUNT_PUBKEY_KEY@
            + wall_pubkey + seq!['\n']) + (NETWORK_KEY@ + network + seq!['\n']),
{
    let k1 = PROGRAM_PUBKEY_KEY@;
    let k2 = WALL_ACCOUNT_PUBKEY_KEY@;
    let k3 = NETWORK_KEY@;
    let kr = RPC_URL_KEY@;
    let feed = seq!['\n'];
    lemma_env_keys();
    assert(is_env_key(k1) && is_env_key(k2) && is_env_key(k3) && is_env_key(kr));
    assert(is_ending(feed));
    let whole = made_whole(content);
    if !complete(content) {
        lemma_line_feed_added(content, k1);
        lemma_line_feed_added(content, k2);
        lemma_line_feed_added(content, k3);
        lemma_line_feed_added(content, kr);
    }
    let none = Seq::<char>::empty();
    assert(free_of(none, k2) && free_of(none, k3) && free_of(none, kr));
    let t1 = whole + (k1 + program_pubkey + feed);
    assert(appended(content, k1, program_pubkey) =~= t1);
    lemma_joined(whole, k1, program_pubkey, feed, none, k2);
    lemma_joined(whole, k1, program_pubkey, feed, none, k3);
    lemma_joined(whole, k1, program_pubkey, feed, none, kr);
    assert(t1 + none =~= t1);
    let t2 = t1 + (k2 + wall_pubkey + feed);
    assert(appended(t1, k2, wall_pubkey) =~= t2);
    lemma_joined(t1, k2, wall_pubkey, feed, none, k3);
    lemma_joined(t1, k2, wall_pubkey, feed, none, kr);
    assert(t2 + none =~= t2);
    let t3 = t2 + (k3 + network + feed);
    assert(appended(t2, k3, network) =~= t3);
    lemma_joined(t2, k3, network, feed, none, kr);
    assert(t3 + none =~= t3);
    assert(appended(t3, kr, rpc_url) =~= t3 + (kr + rpc_url + feed));
}

} // verus!
