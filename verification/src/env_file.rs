//! The frontend's environment file: lines of `KEY=value` text. The setup
//! reads the program's identifier from it and sets four values in it, each by
//! its key: a key counts where it begins a line, and nowhere else.

use crate::text::{
    chars_of, complete, extend, extend_range, first_line, later_lines, lemma_first_line,
    line_body, line_ending, line_from, matches_at, string_of,
};
use vstd::prelude::*;

verus! {

/// The key of the program's identifier.
pub const PROGRAM_PUBKEY_KEY: &'static str = "VITE_PROGRAM_PUBKEY=";

/// The key of the state account's identifier.
pub const WALL_ACCOUNT_PUBKEY_KEY: &'static str = "VITE_WALL_ACCOUNT_PUBKEY=";

/// The key of the network's name.
pub const NETWORK_KEY: &'static str = "VITE_NETWORK=";

/// The key of the RPC endpoint.
pub const RPC_URL_KEY: &'static str = "VITE_RPC_URL=";

/// Whether `line` begins with `key`: its body, not its ending, holds the key
/// at its start.
pub open spec fn begins_with(line: Seq<char>, key: Seq<char>) -> bool {
    key.is_prefix_of(line_body(line))
}

/// `line` with `value` as the value of `key`: where the line begins with
/// `key`, it becomes the key, the value and the line's own ending; any other
/// line stays as it is.
pub open spec fn line_with_value(line: Seq<char>, key: Seq<char>, value: Seq<char>) -> Seq<char> {
    if begins_with(line, key) {
        key + value + line_ending(line)
    } else {
        line
    }
}

/// `text` with `value` as the value of every line that begins with `key`.
pub open spec fn lines_with_value(text: Seq<char>, key: Seq<char>, value: Seq<char>) -> Seq<char>
    decreases text.len(),
{
    if text.len() == 0 {
        text
    } else {
        proof {
            lemma_first_line(text);
        }
        line_with_value(first_line(text), key, value) + lines_with_value(
            later_lines(text),
            key,
            value,
        )
    }
}

/// What follows `key` in the body of the first line that begins with `key`;
/// nothing where no line does.
pub open spec fn keyed_value(text: Seq<char>, key: Seq<char>) -> Option<Seq<char>>
    decreases text.len(),
{
    if text.len() == 0 {
        None
    } else {
        proof {
            lemma_first_line(text);
        }
        if begins_with(first_line(text), key) {
            Some(line_body(first_line(text)).skip(key.len() as int))
        } else {
            keyed_value(later_lines(text), key)
        }
    }
}

/// `text` made of whole lines: with a line feed behind it where it ends in
/// the middle of a line.
pub open spec fn made_whole(text: Seq<char>) -> Seq<char> {
    if complete(text) {
        text
    } else {
        text.push('\n')
    }
}

/// `text` with a new last line that gives `key` the value `value`. A text
/// that ends in the middle of a line gets a line feed first.
pub open spec fn appended(text: Seq<char>, key: Seq<char>, value: Seq<char>) -> Seq<char> {
    made_whole(text) + key + value + seq!['\n']
}

/// `text` with `key` set to `value`: every line that begins with `key` holds
/// the value in place of what it held, and where no line begins with `key`,
/// one is appended.
pub open spec fn with_value(text: Seq<char>, key: Seq<char>, value: Seq<char>) -> Seq<char> {
    if keyed_value(text, key) is Some {
        lines_with_value(text, key, value)
    } else {
        appended(text, key, value)
    }
}

/// The program identifier that an environment file names; empty where it
/// names none.
pub open spec fn program_pubkey_in(content: Seq<char>) -> Seq<char> {
    match keyed_value(content, PROGRAM_PUBKEY_KEY@) {
        Some(value) => value,
        None => Seq::empty(),
    }
}

/// The environment file after configuration: the program's identifier, the
/// state account's identifier and the network's name set by their keys, and
/// the RPC URL set by its key where one is given.
pub open spec fn configured(
    content: Seq<char>,
    rpc_url: Option<Seq<char>>,
    program_pubkey: Seq<char>,
    wall_pubkey: Seq<char>,
    network: Seq<char>,
) -> Seq<char> {
    let with_program = with_value(content, PROGRAM_PUBKEY_KEY@, program_pubkey);
    let with_wall = with_value(with_program, WALL_ACCOUNT_PUBKEY_KEY@, wall_pubkey);
    let with_network = with_value(with_wall, NETWORK_KEY@, network);
    match rpc_url {
        Some(url) => with_value(with_network, RPC_URL_KEY@, url),
        None => with_network,
    }
}

/// Where the value of `key` stands in `text`: the range behind the key in the
/// body of the first line that begins with it.
fn find_value(text: &Vec<char>, key: &Vec<char>) -> (found: Option<(usize, usize)>)
    ensures
        match found {
            Some((from, to)) => from <= to <= text.len() && keyed_value(text@, key@) == Some(
                text@.subrange(from as int, to as int),
            ),
            None => keyed_value(text@, key@) is None,
        },
{
    let mut at: usize = 0;
    assert(text@.skip(0) =~= text@);
    while at < text.len()
        invariant
            at <= text.len(),
            keyed_value(text@, key@) == keyed_value(text@.skip(at as int), key@),
        decreases text.len() - at,
    {
        let line = line_from(text, at);
        if key.len() <= line.body_end - at && matches_at(text, key, at) {
            proof {
                let body = text@.subrange(at as int, line.body_end as int);
                assert(body.subrange(0, key.len() as int) =~= text@.subrange(
                    at as int,
                    at + key.len(),
                ));
                assert(body.skip(key.len() as int) =~= text@.subrange(
                    at + key.len(),
                    line.body_end as int,
                ));
            }
            return Some((at + key.len(), line.body_end));
        }
        proof {
            let body = text@.subrange(at as int, line.body_end as int);
            if key.len() <= body.len() {
                assert(body.subrange(0, key.len() as int) =~= text@.subrange(
                    at as int,
                    at + key.len(),
                ));
            }
        }
        at = line.next;
    }
    None
}

/// Sets `key` to `value` in `text`.
fn set_value(text: &Vec<char>, key: &Vec<char>, value: &Vec<char>) -> (out: Vec<char>)
    ensures
        out@ == with_value(text@, key@, value@),
{
    let mut out: Vec<char> = Vec::new();
    if find_value(text, key).is_none() {
        extend(&mut out, text);
        if text.len() > 0 && text[text.len() - 1] != '\n' {
            out.push('\n');
        }
        extend(&mut out, key);
        extend(&mut out, value);
        out.push('\n');
        assert(out@ =~= appended(text@, key@, value@));
        return out;
    }
    let mut at: usize = 0;
    assert(text@.skip(0) =~= text@);
    while at < text.len()
        invariant
            at <= text.len(),
            lines_with_value(text@, key@, value@) == out@ + lines_with_value(
                text@.skip(at as int),
                key@,
                value@,
            ),
        decreases text.len() - at,
    {
        let line = line_from(text, at);
        let ghost before = out@;
        let ghost first = first_line(text@.skip(at as int));
        proof {
            let body = text@.subrange(at as int, line.body_end as int);
            if key.len() <= body.len() {
                assert(body.subrange(0, key.len() as int) =~= text@.subrange(
                    at as int,
                    at + key.len(),
                ));
            }
        }
        if key.len() <= line.body_end - at && matches_at(text, key, at) {
            extend(&mut out, key);
            extend(&mut out, value);
            extend_range(&mut out, text, line.body_end, line.next);
            assert(out@ =~= before + line_with_value(first, key@, value@));
        } else {
            extend_range(&mut out, text, at, line.next);
            assert(out@ =~= before + line_with_value(first, key@, value@));
        }
        assert(before + line_with_value(first, key@, value@) + lines_with_value(
            text@.skip(line.next as int),
            key@,
            value@,
        ) =~= before + (line_with_value(first, key@, value@) + lines_with_value(
            text@.skip(line.next as int),
            key@,
            value@,
        )));
        at = line.next;
    }
    assert(out@ + lines_with_value(text@.skip(at as int), key@, value@) =~= out@);
    out
}

/// Reads the program identifier out of an environment file: what follows
/// `VITE_PROGRAM_PUBKEY=` on the first line that begins with it, without the
/// line's ending. The result is empty where no line begins with the key, and
/// where the first that does gives it no value.
pub fn program_pubkey_of(content: &str) -> (value: String)
    ensures
        value@ == program_pubkey_in(content@),
{
    let text = chars_of(content);
    let key = chars_of(PROGRAM_PUBKEY_KEY);
    let mut out: Vec<char> = Vec::new();
    match find_value(&text, &key) {
        Some((from, to)) => {
            extend_range(&mut out, &text, from, to);
        },
        None => {},
    }
    string_of(&out)
}

/// Configures the frontend: sets the program's identifier, the state
/// account's identifier and the network's name by their keys and, where an
/// RPC URL is given, the RPC endpoint by its key. A line that begins with a
/// key takes the new value and keeps its ending; a key that begins no line
/// gets a new line at the end; every other line stays as it is.
pub fn build_frontend(
    content: &str,
    rpc_url: Option<&str>,
    program_pubkey: &str,
    wall_pubkey: &str,
    network: &str,
) -> (updated: String)
    ensures
        updated@ == configured(
            content@,
            match rpc_url {
                Some(url) => Some(url@),
                None => None,
            },
            program_pubkey@,
            wall_pubkey@,
            network@,
        ),
{
    let text = chars_of(content);
    let with_program = set_value(&text, &chars_of(PROGRAM_PUBKEY_KEY), &chars_of(program_pubkey));
    let with_wall = set_value(
        &with_program,
        &chars_of(WALL_ACCOUNT_PUBKEY_KEY),
        &chars_of(wall_pubkey),
    );
    let with_network = set_value(&with_wall, &chars_of(NETWORK_KEY), &chars_of(network));
    match rpc_url {
        Some(url) => {
            let with_rpc = set_value(&with_network, &chars_of(RPC_URL_KEY), &chars_of(url));
            string_of(&with_rpc)
        },
        None => string_of(&with_network),
    }
}

} // verus!
