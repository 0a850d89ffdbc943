//! Laws of the environment file: what holds of values that are set by
//! their keys, and of configuration as a whole.

use crate::env_file::{
    appended, begins_with, configured, keyed_value, line_with_value, lines_with_value,
    made_whole, program_pubkey_in, with_value, NETWORK_KEY, PROGRAM_PUBKEY_KEY, RPC_URL_KEY,
    WALL_ACCOUNT_PUBKEY_KEY,
};
use crate::hexadecimal::is_plain;
use crate::text::{
    complete, ending_len, first_line, is_line, later_lines, lemma_first_line,
    lemma_first_line_is, line_body, line_ending, no_break,
};
use vstd::prelude::*;

verus! {

/// Whether two keys differ at an index that both have, so that no line
/// begins with both.
pub open spec fn apart(a: Seq<char>, b: Seq<char>) -> bool {
    exists|i: int| 0 <= i < a.len() && i < b.len() && a[i] != b[i]
}

/// Whole lines can be taken one part after the other: where `head` is made
/// of whole lines, the value is set in `head + rest` by setting it in both,
/// and the first line of `head + rest` that begins with `key` is the first
/// such line of `head`, or else of `rest`.
pub proof fn lemma_parts(head: Seq<char>, rest: Seq<char>, key: Seq<char>, value: Seq<char>)
    requires
        complete(head),
    ensures
        lines_with_value(head + rest, key, value) == lines_with_value(head, key, value)
            + lines_with_value(rest, key, value),
        keyed_value(head + rest, key) == if keyed_value(head, key) is Some {
            keyed_value(head, key)
        } else {
            keyed_value(rest, key)
        },
    decreases head.len(),
{
    if head.len() == 0 {
        assert(head + rest =~= rest);
        assert(lines_with_value(head, key, value) + lines_with_value(rest, key, value)
            =~= lines_with_value(rest, key, value));
    } else {
        lemma_first_line(head);
        let first = first_line(head);
        let later = later_lines(head);
        assert(first.last() == '\n') by {
            if later.len() == 0 {
                assert(first =~= head);
            }
        }
        assert(complete(later)) by {
            if later.len() > 0 {
                assert(later.last() == head.last());
            }
        }
        assert(head + rest =~= first + (later + rest));
        lemma_first_line_is(first, later + rest);
        lemma_parts(later, rest, key, value);
        assert(line_with_value(first, key, value) + (lines_with_value(later, key, value)
            + lines_with_value(rest, key, value)) =~= line_with_value(first, key, value)
            + lines_with_value(later, key, value) + lines_with_value(rest, key, value));
    }
}

/// A text of one line: the value is set in it as in that line, and it names
/// a value where that line begins with the key.
pub proof fn lemma_one_line(line: Seq<char>, key: Seq<char>, value: Seq<char>)
    requires
        is_line(line),
    ensures
        lines_with_value(line, key, value) == line_with_value(line, key, value),
        keyed_value(line, key) == if begins_with(line, key) {
            Some(line_body(line).skip(key.len() as int))
        } else {
            None
        },
{
    let none = Seq::<char>::empty();
    assert(line + none =~= line);
    lemma_first_line_is(line, none);
    assert(lines_with_value(none, key, value) == none);
    assert(keyed_value(none, key) is None);
    assert(line_with_value(line, key, value) + none =~= line_with_value(line, key, value));
}

/// A line whose value was set: it is one line still, with the ending it had,
/// it begins with the key where it did, and then the value is what was set.
/// To set the value again changes nothing.
#[verifier::rlimit(50)]
pub proof fn lemma_line_set(line: Seq<char>, key: Seq<char>, value: Seq<char>)
    requires
        is_line(line),
        key.len() > 0,
        no_break(key),
        no_break(value),
    ensures
        is_line(line_with_value(line, key, value)),
        line_with_value(line, key, value).last() == '\n' <==> line.last() == '\n',
        begins_with(line_with_value(line, key, value), key) <==> begins_with(line, key),
        begins_with(line, key) ==> line_body(line_with_value(line, key, value)) == key + value,
        begins_with(line, key) ==> line_ending(line_with_value(line, key, value)) == line_ending(
            line,
        ),
        line_with_value(line_with_value(line, key, value), key, value) == line_with_value(
            line,
            key,
            value,
        ),
{
    if begins_with(line, key) {
        let ending = line_ending(line);
        let set = key + value + ending;
        let inner = key + value;
        assert(ending.len() == ending_len(line));
        assert(forall|i: int| 0 <= i < inner.len() ==> set[i] == inner[i]);
        assert(forall|i: int| 0 <= i < ending.len() ==> set[inner.len() + i] == ending[i]);
        assert(ending_len(set) == ending_len(line)) by {
            if ending.len() == 2 {
                assert(set[set.len() - 2] == ending[0]);
                assert(set[set.len() - 1] == ending[1]);
            } else if ending.len() == 1 {
                assert(set[set.len() - 1] == ending[0]);
                assert(set[set.len() - 2] == inner[inner.len() - 1]);
            } else {
                assert(set[set.len() - 1] == inner[inner.len() - 1]);
            }
        }
        assert(line_body(set) =~= inner);
        assert(line_ending(set) =~= ending);
        assert(inner.subrange(0, key.len() as int) =~= key);
        assert(is_line(set)) by {
            assert forall|i: int| 0 <= i < set.len() - 1 implies set[i] != '\n' by {
                if i >= inner.len() {
                    assert(set[i] == ending[i - inner.len()]);
                }
            }
        }
        assert(set.last() == '\n' <==> line.last() == '\n') by {
            if ending.len() > 0 {
                assert(set.last() == ending[ending.len() - 1]);
            } else {
                assert(set.last() == inner[inner.len() - 1]);
            }
        }
    }
}

/// To set a value in every line of its key a second time changes nothing.
pub proof fn lemma_lines_set_again(text: Seq<char>, key: Seq<char>, value: Seq<char>)
    requires
        key.len() > 0,
        no_break(key),
        no_break(value),
    ensures
        lines_with_value(lines_with_value(text, key, value), key, value) == lines_with_value(
            text,
            key,
            value,
        ),
    decreases text.len(),
{
    if text.len() > 0 {
        lemma_first_line(text);
        let first = first_line(text);
        let later = later_lines(text);
        let set = line_with_value(first, key, value);
        let rest = lines_with_value(later, key, value);
        lemma_line_set(first, key, value);
        lemma_lines_set_again(later, key, value);
        if later.len() == 0 {
            assert(rest.len() == 0);
        }
        lemma_first_line_is(set, rest);
    }
}

/// Where some line begins with the key, the value read after it was set is
/// the value set.
pub proof fn lemma_lines_value_read(text: Seq<char>, key: Seq<char>, value: Seq<char>)
    requires
        key.len() > 0,
        no_break(key),
        no_break(value),
        keyed_value(text, key) is Some,
    ensures
        keyed_value(lines_with_value(text, key, value), key) == Some(value),
    decreases text.len(),
{
    lemma_first_line(text);
    let first = first_line(text);
    let later = later_lines(text);
    let set = line_with_value(first, key, value);
    let rest = lines_with_value(later, key, value);
    lemma_line_set(first, key, value);
    if later.len() == 0 {
        assert(rest.len() == 0);
    }
    lemma_first_line_is(set, rest);
    if begins_with(first, key) {
        assert((key + value).skip(key.len() as int) =~= value);
    } else {
        lemma_lines_value_read(later, key, value);
    }
}

/// Where no line begins with the key, to set its value in every line of the
/// key changes nothing.
pub proof fn lemma_lines_without_key(text: Seq<char>, key: Seq<char>, value: Seq<char>)
    requires
        keyed_value(text, key) is None,
    ensures
        lines_with_value(text, key, value) == text,
    decreases text.len(),
{
    if text.len() > 0 {
        lemma_first_line(text);
        lemma_lines_without_key(later_lines(text), key, value);
    }
}

/// A line feed behind a text that ends in the middle of a line changes
/// neither which line is the first to begin with the key nor, where its value
/// does not end in a carriage return, that value.
#[verifier::rlimit(50)]
pub proof fn lemma_line_feed_added(text: Seq<char>, key: Seq<char>)
    requires
        !complete(text),
        no_break(key),
        keyed_value(text, key) matches Some(v) ==> v.len() == 0 || v.last() != '\r',
    ensures
        keyed_value(text.push('\n'), key) == keyed_value(text, key),
    decreases text.len(),
{
    lemma_first_line(text);
    let first = first_line(text);
    let later = later_lines(text);
    if later.len() == 0 {
        assert(first =~= text);
        let fed = text.push('\n');
        assert(is_line(fed));
        lemma_one_line(fed, key, Seq::empty());
        lemma_one_line(text, key, Seq::empty());
        assert(line_body(text) =~= text);
        if text.last() == '\r' {
            assert(line_body(fed) =~= text.drop_last());
            if begins_with(fed, key) {
                assert(key.is_prefix_of(text)) by {
                    assert(text.subrange(0, key.len() as int) =~= text.drop_last().subrange(
                        0,
                        key.len() as int,
                    ));
                }
            }
            if begins_with(text, key) {
                if key.len() == text.len() {
                    assert(key[key.len() - 1] == text[text.len() - 1]);
                }
                assert(text.skip(key.len() as int).last() == text.last());
            }
        } else {
            assert(line_body(fed) =~= text);
        }
    } else {
        assert(text.push('\n') =~= first + later.push('\n'));
        assert(text =~= first + later);
        lemma_first_line_is(first, later.push('\n'));
        assert(later.last() == text.last());
        if !begins_with(first, key) {
            lemma_line_feed_added(later, key);
        }
    }
}

/// The line that is appended for a key: it is one line, it begins with the
/// key, and its value is the value given.
pub proof fn lemma_appended_line(key: Seq<char>, value: Seq<char>)
    requires
        key.len() > 0,
        no_break(key),
        no_break(value),
    ensures
        is_line(key + value + seq!['\n']),
        begins_with(key + value + seq!['\n'], key),
        line_body(key + value + seq!['\n']) == key + value,
        line_with_value(key + value + seq!['\n'], key, value) == key + value + seq!['\n'],
{
    let inner = key + value;
    let line = inner + seq!['\n'];
    assert(forall|i: int| 0 <= i < inner.len() ==> line[i] == inner[i]);
    assert(line[line.len() - 1] == '\n');
    assert(line[line.len() - 2] == inner[inner.len() - 1]);
    assert(ending_len(line) == 1);
    assert(line_body(line) =~= inner);
    assert(line_ending(line) =~= seq!['\n']);
    assert(inner.subrange(0, key.len() as int) =~= key);
}

/// What is set is read: whatever the text, the value read behind a key after
/// it was set is the value set.
pub proof fn lemma_value_read(text: Seq<char>, key: Seq<char>, value: Seq<char>)
    requires
        key.len() > 0,
        no_break(key),
        no_break(value),
    ensures
        keyed_value(with_value(text, key, value), key) == Some(value),
{
    if keyed_value(text, key) is Some {
        lemma_lines_value_read(text, key, value);
    } else {
        let whole = made_whole(text);
        let line = key + value + seq!['\n'];
        if !complete(text) {
            lemma_line_feed_added(text, key);
        }
        lemma_appended_line(key, value);
        lemma_one_line(line, key, value);
        lemma_parts(whole, line, key, value);
        assert(appended(text, key, value) =~= whole + line);
        assert((key + value).skip(key.len() as int) =~= value);
    }
}

/// To set a value a second time changes nothing.
pub proof fn lemma_value_set_again(text: Seq<char>, key: Seq<char>, value: Seq<char>)
    requires
        key.len() > 0,
        no_break(key),
        no_break(value),
    ensures
        with_value(with_value(text, key, value), key, value) == with_value(text, key, value),
{
    lemma_value_read(text, key, value);
    if keyed_value(text, key) is Some {
        lemma_lines_set_again(text, key, value);
    } else {
        let whole = made_whole(text);
        let line = key + value + seq!['\n'];
        if !complete(text) {
            lemma_line_feed_added(text, key);
        }
        lemma_appended_line(key, value);
        lemma_one_line(line, key, value);
        lemma_parts(whole, line, key, value);
        lemma_lines_without_key(whole, key, value);
        assert(appended(text, key, value) =~= whole + line);
    }
}

/// A line keeps what it says of one key when the value of another is set in
/// it, given that the keys are apart.
pub proof fn lemma_line_of_other_key(
    line: Seq<char>,
    key: Seq<char>,
    other: Seq<char>,
    value: Seq<char>,
)
    requires
        is_line(line),
        apart(key, other),
        other.len() > 0,
        no_break(other),
        no_break(value),
    ensures
        begins_with(line_with_value(line, other, value), key) <==> begins_with(line, key),
        begins_with(line, key) ==> line_with_value(line, other, value) == line,
{
    let i = choose|i: int| 0 <= i < key.len() && i < other.len() && key[i] != other[i];
    lemma_line_set(line, other, value);
    if begins_with(line, other) {
        let set = line_with_value(line, other, value);
        assert(line_body(line).subrange(0, other.len() as int)[i] == other[i]);
        assert(line_body(set).subrange(0, other.len() as int)[i] == other[i]);
        if begins_with(line, key) {
            assert(line_body(line).subrange(0, key.len() as int)[i] == key[i]);
        }
        if begins_with(set, key) {
            assert(line_body(set).subrange(0, key.len() as int)[i] == key[i]);
        }
    }
}

/// To set the value of one key leaves the value of another as it was, given
/// that the keys are apart and the other value holds no line break.
pub proof fn lemma_other_value_kept(
    text: Seq<char>,
    key: Seq<char>,
    other: Seq<char>,
    value: Seq<char>,
)
    requires
        apart(key, other),
        no_break(key),
        other.len() > 0,
        no_break(other),
        no_break(value),
        keyed_value(text, key) matches Some(v) ==> no_break(v),
    ensures
        keyed_value(with_value(text, other, value), key) == keyed_value(text, key),
{
    if keyed_value(text, other) is Some {
        lemma_other_lines_kept(text, key, other, value);
    } else {
        let whole = made_whole(text);
        let line = other + value + seq!['\n'];
        if !complete(text) {
            lemma_line_feed_added(text, key);
        }
        lemma_appended_line(other, value);
        lemma_one_line(line, key, value);
        lemma_parts(whole, line, key, value);
        assert(appended(text, other, value) =~= whole + line);
        let i = choose|i: int| 0 <= i < key.len() && i < other.len() && key[i] != other[i];
        if begins_with(line, key) {
            assert(line_body(line).subrange(0, key.len() as int)[i] == key[i]);
            assert((other + value)[i] == other[i]);
        }
    }
}

/// To set the value of one key in every line of it leaves the value of
/// another key as it was, given that the keys are apart.
pub proof fn lemma_other_lines_kept(
    text: Seq<char>,
    key: Seq<char>,
    other: Seq<char>,
    value: Seq<char>,
)
    requires
        apart(key, other),
        other.len() > 0,
        no_break(other),
        no_break(value),
    ensures
        keyed_value(lines_with_value(text, other, value), key) == keyed_value(text, key),
    decreases text.len(),
{
    if text.len() > 0 {
        lemma_first_line(text);
        let first = first_line(text);
        let later = later_lines(text);
        let set = line_with_value(first, other, value);
        let rest = lines_with_value(later, other, value);
        lemma_line_set(first, other, value);
        lemma_line_of_other_key(first, key, other, value);
        if later.len() == 0 {
            assert(rest.len() == 0);
        }
        lemma_first_line_is(set, rest);
        lemma_other_lines_kept(later, key, other, value);
    }
}

/// Whether every line of `text` that begins with `key` holds `value`: to set
/// the value in every such line changes nothing.
pub open spec fn settled(text: Seq<char>, key: Seq<char>, value: Seq<char>) -> bool {
    lines_with_value(text, key, value) == text
}

/// A text is settled where its first line is and what follows it is.
pub proof fn lemma_settled_by_lines(text: Seq<char>, key: Seq<char>, value: Seq<char>)
    requires
        text.len() > 0,
        key.len() > 0,
        no_break(key),
        no_break(value),
    ensures
        settled(text, key, value) <==> line_with_value(first_line(text), key, value) == first_line(
            text,
        ) && settled(later_lines(text), key, value),
{
    lemma_first_line(text);
    let first = first_line(text);
    let later = later_lines(text);
    let set = line_with_value(first, key, value);
    let rest = lines_with_value(later, key, value);
    lemma_line_set(first, key, value);
    if later.len() == 0 {
        assert(rest.len() == 0);
    }
    lemma_first_line_is(set, rest);
    if settled(text, key, value) {
        assert(set + rest == text);
    }
}

/// A line feed behind a settled text that ends in the middle of a line
/// leaves it settled.
#[verifier::rlimit(50)]
pub proof fn lemma_settled_line_feed(text: Seq<char>, key: Seq<char>, value: Seq<char>)
    requires
        !complete(text),
        key.len() > 0,
        no_break(key),
        no_break(value),
        settled(text, key, value),
    ensures
        settled(text.push('\n'), key, value),
    decreases text.len(),
{
    lemma_first_line(text);
    lemma_settled_by_lines(text, key, value);
    let first = first_line(text);
    let later = later_lines(text);
    let fed = text.push('\n');
    if later.len() == 0 {
        assert(first =~= text);
        assert(is_line(fed));
        lemma_one_line(fed, key, value);
        if begins_with(text, key) {
            assert(line_ending(text).len() == 0);
            assert(text =~= key + value);
            lemma_appended_line(key, value);
            assert(fed =~= key + value + seq!['\n']);
        } else {
            assert(line_body(text) =~= text);
            if text.last() == '\r' {
                assert(line_body(fed) =~= text.drop_last());
                if begins_with(fed, key) {
                    assert(text.subrange(0, key.len() as int) =~= text.drop_last().subrange(
                        0,
                        key.len() as int,
                    ));
                }
            } else {
                assert(line_body(fed) =~= text);
            }
        }
    } else {
        assert(fed =~= first + later.push('\n'));
        lemma_first_line_is(first, later.push('\n'));
        assert(later.last() == text.last());
        lemma_settled_line_feed(later, key, value);
        lemma_settled_by_lines(fed, key, value);
    }
}

/// To set the value of another key in every line of it leaves a text settled.
pub proof fn lemma_settled_lines_kept(
    text: Seq<char>,
    key: Seq<char>,
    value: Seq<char>,
    other: Seq<char>,
    other_value: Seq<char>,
)
    requires
        apart(key, other),
        key.len() > 0,
        no_break(key),
        no_break(value),
        other.len() > 0,
        no_break(other),
        no_break(other_value),
        settled(text, key, value),
    ensures
        settled(lines_with_value(text, other, other_value), key, value),
    decreases text.len(),
{
    if text.len() > 0 {
        lemma_first_line(text);
        lemma_settled_by_lines(text, key, value);
        let first = first_line(text);
        let later = later_lines(text);
        let set = line_with_value(first, other, other_value);
        let rest = lines_with_value(later, other, other_value);
        lemma_line_set(first, other, other_value);
        lemma_line_of_other_key(first, key, other, other_value);
        if later.len() == 0 {
            assert(rest.len() == 0);
        }
        lemma_first_line_is(set, rest);
        lemma_settled_lines_kept(later, key, value, other, other_value);
        lemma_settled_by_lines(set + rest, key, value);
    }
}

/// To set the value of another key leaves a text settled.
pub proof fn lemma_settled_kept(
    text: Seq<char>,
    key: Seq<char>,
    value: Seq<char>,
    other: Seq<char>,
    other_value: Seq<char>,
)
    requires
        apart(key, other),
        key.len() > 0,
        no_break(key),
        no_break(value),
        other.len() > 0,
        no_break(other),
        no_break(other_value),
        settled(text, key, value),
    ensures
        settled(with_value(text, other, other_value), key, value),
{
    if keyed_value(text, other) is Some {
        lemma_settled_lines_kept(text, key, value, other, other_value);
    } else {
        let whole = made_whole(text);
        let line = other + other_value + seq!['\n'];
        if !complete(text) {
            lemma_settled_line_feed(text, key, value);
        }
        lemma_appended_line(other, other_value);
        lemma_one_line(line, key, value);
        lemma_line_of_other_key(line, key, other, other_value);
        lemma_parts(whole, line, key, value);
        assert(appended(text, other, other_value) =~= whole + line);
    }
}

/// After a value was set, the text is settled and holds a line of the key.
pub proof fn lemma_value_settled(text: Seq<char>, key: Seq<char>, value: Seq<char>)
    requires
        key.len() > 0,
        no_break(key),
        no_break(value),
    ensures
        settled(with_value(text, key, value), key, value),
        keyed_value(with_value(text, key, value), key) == Some(value),
{
    lemma_value_read(text, key, value);
    lemma_value_set_again(text, key, value);
}

/// Whether `key` is one of the four keys of the environment file.
pub open spec fn is_env_key(key: Seq<char>) -> bool {
    key == PROGRAM_PUBKEY_KEY@ || key == WALL_ACCOUNT_PUBKEY_KEY@ || key == NETWORK_KEY@ || key
        == RPC_URL_KEY@
}

/// The keys of the environment file are not empty and hold no line break,
/// and each two of them are apart.
pub proof fn lemma_env_keys()
    ensures
        forall|key: Seq<char>| #[trigger] is_env_key(key) ==> key.len() > 0 && no_break(key),
        forall|key: Seq<char>, other: Seq<char>|
            #[trigger] is_env_key(key) && #[trigger] is_env_key(other) ==> key == other || apart(
                key,
                other,
            ),
        PROGRAM_PUBKEY_KEY@ != WALL_ACCOUNT_PUBKEY_KEY@,
        PROGRAM_PUBKEY_KEY@ != NETWORK_KEY@,
        PROGRAM_PUBKEY_KEY@ != RPC_URL_KEY@,
        WALL_ACCOUNT_PUBKEY_KEY@ != NETWORK_KEY@,
        WALL_ACCOUNT_PUBKEY_KEY@ != RPC_URL_KEY@,
        NETWORK_KEY@ != RPC_URL_KEY@,
{
    reveal_strlit("VITE_PROGRAM_PUBKEY=");
    reveal_strlit("VITE_WALL_ACCOUNT_PUBKEY=");
    reveal_strlit("VITE_NETWORK=");
    reveal_strlit("VITE_RPC_URL=");
    assert(PROGRAM_PUBKEY_KEY@[5] == 'P');
    assert(WALL_ACCOUNT_PUBKEY_KEY@[5] == 'W');
    assert(NETWORK_KEY@[5] == 'N');
    assert(RPC_URL_KEY@[5] == 'R');
    assert forall|key: Seq<char>, other: Seq<char>|
        #[trigger] is_env_key(key) && #[trigger] is_env_key(other) implies key == other || apart(
        key,
        other,
    ) by {
        if key != other {
            assert(key[5] != other[5]);
        }
    }
}

/// A value made of digits and lower-case letters, such as an identifier in
/// hexadecimal, holds no line break.
pub proof fn lemma_plain_value(value: Seq<char>)
    requires
        forall|i: int| 0 <= i < value.len() ==> is_plain(#[trigger] value[i]),
    ensures
        no_break(value),
{
    assert forall|i: int| 0 <= i < value.len() implies value[i] != '\n' && value[i] != '\r' by {
        assert(is_plain(value[i]));
    }
}

/// What configuration has written, the next reading finds: whatever the file
/// held, the program identifier read from the configured file is the one
/// that was set, given that no value holds a line break.
pub proof fn lemma_program_read_back(
    content: Seq<char>,
    rpc_url: Option<Seq<char>>,
    program_pubkey: Seq<char>,
    wall_pubkey: Seq<char>,
    network: Seq<char>,
)
    requires
        no_break(program_pubkey),
        no_break(wall_pubkey),
        no_break(network),
        rpc_url matches Some(url) ==> no_break(url),
    ensures
        program_pubkey_in(configured(content, rpc_url, program_pubkey, wall_pubkey, network))
            == program_pubkey,
{
    let k1 = PROGRAM_PUBKEY_KEY@;
    let k2 = WALL_ACCOUNT_PUBKEY_KEY@;
    let k3 = NETWORK_KEY@;
    let kr = RPC_URL_KEY@;
    lemma_env_keys();
    assert(is_env_key(k1) && is_env_key(k2) && is_env_key(k3) && is_env_key(kr));
    let with_program = with_value(content, k1, program_pubkey);
    let with_wall = with_value(with_program, k2, wall_pubkey);
    let with_network = with_value(with_wall, k3, network);
    lemma_value_read(content, k1, program_pubkey);
    lemma_other_value_kept(with_program, k1, k2, wall_pubkey);
    lemma_other_value_kept(with_wall, k1, k3, network);
    match rpc_url {
        Some(url) => {
            lemma_other_value_kept(with_network, k1, kr, url);
        },
        None => {},
    }
}

/// To set the value of another key leaves a value that is set as it is: the
/// text stays settled, and the first line of the key holds the value.
proof fn lemma_set_value_kept(
    text: Seq<char>,
    key: Seq<char>,
    value: Seq<char>,
    other: Seq<char>,
    other_value: Seq<char>,
)
    requires
        is_env_key(key),
        is_env_key(other),
        key != other,
        no_break(value),
        no_break(other_value),
        settled(text, key, value),
        keyed_value(text, key) == Some(value),
    ensures
        settled(with_value(text, other, other_value), key, value),
        keyed_value(with_value(text, other, other_value), key) == Some(value),
{
    lemma_env_keys();
    lemma_settled_kept(text, key, value, other, other_value);
    lemma_other_value_kept(text, key, other, other_value);
}

/// A value that is set is set: the text is what setting the value gives.
proof fn lemma_set_value_stays(text: Seq<char>, key: Seq<char>, value: Seq<char>)
    requires
        settled(text, key, value),
        keyed_value(text, key) == Some(value),
    ensures
        with_value(text, key, value) == text,
{
}

/// Configuring twice with the same values equals configuring once, given
/// that no value holds a line break.
#[verifier::rlimit(50)]
pub proof fn lemma_configured_again(
    content: Seq<char>,
    rpc_url: Option<Seq<char>>,
    program_pubkey: Seq<char>,
    wall_pubkey: Seq<char>,
    network: Seq<char>,
)
    requires
        no_break(program_pubkey),
        no_break(wall_pubkey),
        no_break(network),
        rpc_url matches Some(url) ==> no_break(url),
    ensures
        configured(
            configured(content, rpc_url, program_pubkey, wall_pubkey, network),
            rpc_url,
            program_pubkey,
            wall_pubkey,
            network,
        ) == configured(content, rpc_url, program_pubkey, wall_pubkey, network),
{
    let k1 = PROGRAM_PUBKEY_KEY@;
    let k2 = WALL_ACCOUNT_PUBKEY_KEY@;
    let k3 = NETWORK_KEY@;
    let kr = RPC_URL_KEY@;
    lemma_env_keys();
    assert(is_env_key(k1) && is_env_key(k2) && is_env_key(k3) && is_env_key(kr));
    let t1 = with_value(content, k1, program_pubkey);
    let t2 = with_value(t1, k2, wall_pubkey);
    let t3 = with_value(t2, k3, network);
    lemma_value_settled(content, k1, program_pubkey);
    lemma_set_value_kept(t1, k1, program_pubkey, k2, wall_pubkey);
    lemma_set_value_kept(t2, k1, program_pubkey, k3, network);
    lemma_value_settled(t1, k2, wall_pubkey);
    lemma_set_value_kept(t2, k2, wall_pubkey, k3, network);
    lemma_value_settled(t2, k3, network);
    match rpc_url {
        Some(url) => {
            let t4 = with_value(t3, kr, url);
            lemma_set_value_kept(t3, k1, program_pubkey, kr, url);
            lemma_set_value_kept(t3, k2, wall_pubkey, kr, url);
            lemma_set_value_kept(t3, k3, network, kr, url);
            lemma_value_settled(t3, kr, url);
            lemma_set_value_stays(t4, k1, program_pubkey);
            lemma_set_value_stays(t4, k2, wall_pubkey);
            lemma_set_value_stays(t4, k3, network);
            lemma_set_value_stays(t4, kr, url);
        },
        None => {
            lemma_set_value_stays(t3, k1, program_pubkey);
            lemma_set_value_stays(t3, k2, wall_pubkey);
            lemma_set_value_stays(t3, k3, network);
        },
    }
}

/// The number of lines of `text`.
pub open spec fn line_count(text: Seq<char>) -> nat
    decreases text.len(),
{
    if text.len() == 0 {
        0
    } else {
        proof {
            lemma_first_line(text);
        }
        1 + line_count(later_lines(text))
    }
}

/// Line `i` of `text`, with its ending; empty where `text` has no such line.
pub open spec fn line_at(text: Seq<char>, i: nat) -> Seq<char>
    decreases i,
{
    if text.len() == 0 {
        text
    } else if i == 0 {
        first_line(text)
    } else {
        line_at(later_lines(text), (i - 1) as nat)
    }
}

/// To set a value in every line of its key is to set it in each line: there
/// are as many lines as before, and each is the line that stood there with
/// the value set in it.
pub proof fn lemma_lines_set_each(text: Seq<char>, key: Seq<char>, value: Seq<char>, i: nat)
    requires
        key.len() > 0,
        no_break(key),
        no_break(value),
    ensures
        line_count(lines_with_value(text, key, value)) == line_count(text),
        i < line_count(text) ==> is_line(line_at(text, i)) && line_at(
            lines_with_value(text, key, value),
            i,
        ) == line_with_value(line_at(text, i), key, value),
    decreases text.len(),
{
    if text.len() > 0 {
        lemma_first_line(text);
        let first = first_line(text);
        let later = later_lines(text);
        let set = line_with_value(first, key, value);
        let rest = lines_with_value(later, key, value);
        lemma_line_set(first, key, value);
        if later.len() == 0 {
            assert(rest.len() == 0);
        }
        lemma_first_line_is(set, rest);
        lemma_lines_set_each(later, key, value, (i - 1) as nat);
        lemma_lines_set_each(later, key, value, 0);
    }
}

/// A line as configuration leaves it: the four values set in it, each by its
/// key.
pub open spec fn line_configured(
    line: Seq<char>,
    rpc_url: Option<Seq<char>>,
    program_pubkey: Seq<char>,
    wall_pubkey: Seq<char>,
    network: Seq<char>,
) -> Seq<char> {
    let with_program = line_with_value(line, PROGRAM_PUBKEY_KEY@, program_pubkey);
    let with_wall = line_with_value(with_program, WALL_ACCOUNT_PUBKEY_KEY@, wall_pubkey);
    let with_network = line_with_value(with_wall, NETWORK_KEY@, network);
    match rpc_url {
        Some(url) => line_with_value(with_network, RPC_URL_KEY@, url),
        None => with_network,
    }
}

/// What configuration does to one line: a line that begins with one of the
/// keys becomes that key, its value and the line's own ending; a line that
/// begins with none of them stays as it is.
#[verifier::rlimit(50)]
pub proof fn lemma_line_configured(
    line: Seq<char>,
    rpc_url: Option<Seq<char>>,
    program_pubkey: Seq<char>,
    wall_pubkey: Seq<char>,
    network: Seq<char>,
)
    requires
        is_line(line),
        no_break(program_pubkey),
        no_break(wall_pubkey),
        no_break(network),
        rpc_url matches Some(url) ==> no_break(url),
    ensures
        line_configured(line, rpc_url, program_pubkey, wall_pubkey, network) == if begins_with(
            line,
            PROGRAM_PUBKEY_KEY@,
        ) {
            PROGRAM_PUBKEY_KEY@ + program_pubkey + line_ending(line)
        } else if begins_with(line, WALL_ACCOUNT_PUBKEY_KEY@) {
            WALL_ACCOUNT_PUBKEY_KEY@ + wall_pubkey + line_ending(line)
        } else if begins_with(line, NETWORK_KEY@) {
            NETWORK_KEY@ + network + line_ending(line)
        } else if rpc_url is Some && begins_with(line, RPC_URL_KEY@) {
            RPC_URL_KEY@ + rpc_url->0 + line_ending(line)
        } else {
            line
        },
{
    let k1 = PROGRAM_PUBKEY_KEY@;
    let k2 = WALL_ACCOUNT_PUBKEY_KEY@;
    let k3 = NETWORK_KEY@;
    let kr = RPC_URL_KEY@;
    lemma_env_keys();
    assert(is_env_key(k1) && is_env_key(k2) && is_env_key(k3) && is_env_key(kr));
    let l1 = line_with_value(line, k1, program_pubkey);
    let l2 = line_with_value(l1, k2, wall_pubkey);
    let l3 = line_with_value(l2, k3, network);
    lemma_line_set(line, k1, program_pubkey);
    lemma_line_of_other_key(line, k2, k1, program_pubkey);
    lemma_line_of_other_key(line, k3, k1, program_pubkey);
    lemma_line_of_other_key(line, kr, k1, program_pubkey);
    lemma_line_set(l1, k2, wall_pubkey);
    lemma_line_of_other_key(l1, k1, k2, wall_pubkey);
    lemma_line_of_other_key(l1, k3, k2, wall_pubkey);
    lemma_line_of_other_key(l1, kr, k2, wall_pubkey);
    lemma_line_set(l2, k3, network);
    lemma_line_of_other_key(l2, k1, k3, network);
    lemma_line_of_other_key(l2, k2, k3, network);
    lemma_line_of_other_key(l2, kr, k3, network);
    match rpc_url {
        Some(url) => {
            lemma_line_set(l3, kr, url);
            lemma_line_of_other_key(l3, k1, kr, url);
            lemma_line_of_other_key(l3, k2, kr, url);
            lemma_line_of_other_key(l3, k3, kr, url);
        },
        None => {},
    }
}

/// Where each key to be set begins a line of the file, configuration keeps
/// the number of lines and leaves each line as `line_configured` says: the
/// lines of the keys take their values and keep their endings, and every
/// other line stays as it is, where it is.
#[verifier::rlimit(50)]
pub proof fn lemma_configured_each(
    content: Seq<char>,
    rpc_url: Option<Seq<char>>,
    program_pubkey: Seq<char>,
    wall_pubkey: Seq<char>,
    network: Seq<char>,
    i: nat,
)
    requires
        keyed_value(content, PROGRAM_PUBKEY_KEY@) is Some,
        keyed_value(content, WALL_ACCOUNT_PUBKEY_KEY@) is Some,
        keyed_value(content, NETWORK_KEY@) is Some,
        rpc_url is Some ==> keyed_value(content, RPC_URL_KEY@) is Some,
        no_break(program_pubkey),
        no_break(wall_pubkey),
        no_break(network),
        rpc_url matches Some(url) ==> no_break(url),
    ensures
        line_count(configured(content, rpc_url, program_pubkey, wall_pubkey, network))
            == line_count(content),
        i < line_count(content) ==> line_at(
            configured(content, rpc_url, program_pubkey, wall_pubkey, network),
            i,
        ) == line_configured(line_at(content, i), rpc_url, program_pubkey, wall_pubkey, network),
{
    let k1 = PROGRAM_PUBKEY_KEY@;
    let k2 = WALL_ACCOUNT_PUBKEY_KEY@;
    let k3 = NETWORK_KEY@;
    let kr = RPC_URL_KEY@;
    lemma_env_keys();
    assert(is_env_key(k1) && is_env_key(k2) && is_env_key(k3) && is_env_key(kr));
    let t1 = lines_with_value(content, k1, program_pubkey);
    let t2 = lines_with_value(t1, k2, wall_pubkey);
    let t3 = lines_with_value(t2, k3, network);
    lemma_other_lines_kept(content, k2, k1, program_pubkey);
    lemma_other_lines_kept(content, k3, k1, program_pubkey);
    lemma_other_lines_kept(content, kr, k1, program_pubkey);
    lemma_other_lines_kept(t1, k3, k2, wall_pubkey);
    lemma_other_lines_kept(t1, kr, k2, wall_pubkey);
    lemma_other_lines_kept(t2, kr, k3, network);
    lemma_lines_set_each(content, k1, program_pubkey, i);
    lemma_lines_set_each(t1, k2, wall_pubkey, i);
    lemma_lines_set_each(t2, k3, network, i);
    match rpc_url {
        Some(url) => {
            lemma_lines_set_each(t3, kr, url, i);
        },
        None => {},
    }
}

/// The number of lines of `text` that begin with `key`.
pub open spec fn key_lines(text: Seq<char>, key: Seq<char>) -> nat
    decreases text.len(),
{
    if text.len() == 0 {
        0
    } else {
        proof {
            lemma_first_line(text);
        }
        let first: nat = if begins_with(first_line(text), key) {
            1
        } else {
            0
        };
        first + key_lines(later_lines(text), key)
    }
}

/// No line begins with a key exactly where the key has no value to read.
pub proof fn lemma_key_lines_none(text: Seq<char>, key: Seq<char>)
    ensures
        key_lines(text, key) == 0 <==> keyed_value(text, key) is None,
    decreases text.len(),
{
    if text.len() > 0 {
        lemma_first_line(text);
        lemma_key_lines_none(later_lines(text), key);
    }
}

/// The lines of a key in whole lines and in what follows them add up.
pub proof fn lemma_key_lines_parts(head: Seq<char>, rest: Seq<char>, key: Seq<char>)
    requires
        complete(head),
    ensures
        key_lines(head + rest, key) == key_lines(head, key) + key_lines(rest, key),
    decreases head.len(),
{
    if head.len() == 0 {
        assert(head + rest =~= rest);
    } else {
        lemma_first_line(head);
        let first = first_line(head);
        let later = later_lines(head);
        assert(first.last() == '\n') by {
            if later.len() == 0 {
                assert(first =~= head);
            }
        }
        assert(complete(later)) by {
            if later.len() > 0 {
                assert(later.last() == head.last());
            }
        }
        assert(head + rest =~= first + (later + rest));
        lemma_first_line_is(first, later + rest);
        lemma_key_lines_parts(later, rest, key);
    }
}

/// To set a value in every line of a key leaves the number of lines of that
/// key, and of every key apart from it, as it was.
#[verifier::rlimit(50)]
pub proof fn lemma_key_lines_set(
    text: Seq<char>,
    key: Seq<char>,
    other: Seq<char>,
    value: Seq<char>,
)
    requires
        key == other || apart(key, other),
        other.len() > 0,
        no_break(other),
        no_break(value),
    ensures
        key_lines(lines_with_value(text, other, value), key) == key_lines(text, key),
    decreases text.len(),
{
    if text.len() > 0 {
        lemma_first_line(text);
        let first = first_line(text);
        let later = later_lines(text);
        let set = line_with_value(first, other, value);
        let rest = lines_with_value(later, other, value);
        lemma_line_set(first, other, value);
        if key != other {
            lemma_line_of_other_key(first, key, other, value);
        }
        if later.len() == 0 {
            assert(rest.len() == 0);
        }
        lemma_first_line_is(set, rest);
        lemma_key_lines_set(later, key, other, value);
    }
}

/// A line feed behind a text that ends in the middle of a line leaves the
/// number of lines of a key as it was.
#[verifier::rlimit(50)]
pub proof fn lemma_key_lines_line_feed(text: Seq<char>, key: Seq<char>)
    requires
        !complete(text),
        no_break(key),
    ensures
        key_lines(text.push('\n'), key) == key_lines(text, key),
    decreases text.len(),
{
    lemma_first_line(text);
    let first = first_line(text);
    let later = later_lines(text);
    let fed = text.push('\n');
    if later.len() == 0 {
        assert(first =~= text);
        assert(is_line(fed));
        let none = Seq::<char>::empty();
        assert(fed + none =~= fed);
        assert(text + none =~= text);
        lemma_first_line_is(fed, none);
        lemma_first_line_is(text, none);
        assert(key_lines(none, key) == 0);
        assert(line_body(text) =~= text);
        if text.last() == '\r' {
            assert(line_body(fed) =~= text.drop_last());
            if begins_with(fed, key) {
                assert(text.subrange(0, key.len() as int) =~= text.drop_last().subrange(
                    0,
                    key.len() as int,
                ));
            }
            if begins_with(text, key) {
                if key.len() == text.len() {
                    assert(key[key.len() - 1] == text[text.len() - 1]);
                }
                assert(text.drop_last().subrange(0, key.len() as int) =~= text.subrange(
                    0,
                    key.len() as int,
                ));
            }
        } else {
            assert(line_body(fed) =~= text);
        }
    } else {
        assert(fed =~= first + later.push('\n'));
        assert(text =~= first + later);
        lemma_first_line_is(first, later.push('\n'));
        assert(later.last() == text.last());
        lemma_key_lines_line_feed(later, key);
    }
}

/// A key that is set begins as many lines as before, and one line where it
/// began none; every key apart from it begins as many lines as before.
#[verifier::rlimit(50)]
pub proof fn lemma_key_lines_with_value(
    text: Seq<char>,
    key: Seq<char>,
    other: Seq<char>,
    value: Seq<char>,
)
    requires
        key == other || apart(key, other),
        no_break(key),
        other.len() > 0,
        no_break(other),
        no_break(value),
    ensures
        key_lines(with_value(text, other, value), key) == if key == other && key_lines(text, key)
            == 0 {
            1
        } else {
            key_lines(text, key)
        },
{
    lemma_key_lines_none(text, other);
    if keyed_value(text, other) is Some {
        lemma_key_lines_set(text, key, other, value);
    } else {
        let whole = made_whole(text);
        let line = other + value + seq!['\n'];
        let none = Seq::<char>::empty();
        if !complete(text) {
            lemma_key_lines_line_feed(text, key);
        }
        lemma_appended_line(other, value);
        assert(line + none =~= line);
        lemma_first_line_is(line, none);
        assert(key_lines(none, key) == 0);
        lemma_key_lines_parts(whole, line, key);
        assert(appended(text, other, value) =~= whole + line);
        if key != other {
            let i = choose|i: int| 0 <= i < key.len() && i < other.len() && key[i] != other[i];
            if begins_with(line, key) {
                assert(line_body(line).subrange(0, key.len() as int)[i] == key[i]);
                assert((other + value)[i] == other[i]);
            }
        }
    }
}

/// Configuration writes each key once. A key that is set begins one line of
/// the configured file where it began none, and as many lines as it began
/// before otherwise: in a file that held each key at most once, each key
/// that is set comes to stand exactly once.
#[verifier::rlimit(50)]
pub proof fn lemma_configured_key_lines(
    content: Seq<char>,
    rpc_url: Option<Seq<char>>,
    program_pubkey: Seq<char>,
    wall_pubkey: Seq<char>,
    network: Seq<char>,
    key: Seq<char>,
)
    requires
        is_env_key(key),
        key == RPC_URL_KEY@ ==> rpc_url is Some,
        no_break(program_pubkey),
        no_break(wall_pubkey),
        no_break(network),
        rpc_url matches Some(url) ==> no_break(url),
    ensures
        key_lines(configured(content, rpc_url, program_pubkey, wall_pubkey, network), key)
            == if key_lines(content, key) == 0 {
            1
        } else {
            key_lines(content, key)
        },
{
    let k1 = PROGRAM_PUBKEY_KEY@;
    let k2 = WALL_ACCOUNT_PUBKEY_KEY@;
    let k3 = NETWORK_KEY@;
    let kr = RPC_URL_KEY@;
    lemma_env_keys();
    assert(is_env_key(k1) && is_env_key(k2) && is_env_key(k3) && is_env_key(kr));
    let t1 = with_value(content, k1, program_pubkey);
    let t2 = with_value(t1, k2, wall_pubkey);
    let t3 = with_value(t2, k3, network);
    lemma_key_lines_with_value(content, key, k1, program_pubkey);
    lemma_key_lines_with_value(t1, key, k2, wall_pubkey);
    lemma_key_lines_with_value(t2, key, k3, network);
    match rpc_url {
        Some(url) => {
            lemma_key_lines_with_value(t3, key, kr, url);
        },
        None => {},
    }
}

} // verus!
