use vstd::prelude::*;

use crate::machine::MachineState;
use crate::machine::accepts;
use crate::machine::lemma_run_concat;
use crate::machine::lemma_run_extends_leaves;
use crate::machine::run;
use crate::machine::start;
use crate::machine::step;
use crate::machine::tokens_of;
use crate::token::INIContext;
use crate::token::is_alnum;
use crate::token::is_key_char;
use crate::tree::search_at;
use crate::tree::search_spec;

verus! {

/// While a key is being accumulated, characters of the key class are simply
/// appended: the state, and the tokens already emitted, do not change.
proof fn lemma_run_key_chars(s: MachineState, t: Seq<char>)
    requires
        s.ctx == INIContext::Key,
        forall|i: int| 0 <= i < t.len() ==> is_key_char(#[trigger] t[i]),
    ensures
        run(s, t).ctx == INIContext::Key,
        run(s, t).portion == s.portion + t,
        run(s, t).leaves == s.leaves,
        accepts(s, t),
    decreases t.len(),
{
    if t.len() == 0 {
        assert(s.portion + t =~= s.portion);
    } else {
        let c = t[0];
        assert(is_key_char(c));
        let s2 = step(s, c);
        lemma_run_key_chars(s2, t.drop_first());
        assert(s.portion.push(c) + t.drop_first() =~= s.portion + t);
    }
}

/// While a value is being accumulated, everything up to the end of the line
/// is simply appended: the state, and the tokens already emitted, do not
/// change.
proof fn lemma_run_value_chars(s: MachineState, t: Seq<char>)
    requires
        s.ctx == INIContext::Value,
        forall|i: int| 0 <= i < t.len() ==> #[trigger] t[i] != '\n' && t[i] != '\r',
    ensures
        run(s, t).ctx == INIContext::Value,
        run(s, t).portion == s.portion + t,
        run(s, t).leaves == s.leaves,
        accepts(s, t),
    decreases t.len(),
{
    if t.len() == 0 {
        assert(s.portion + t =~= s.portion);
    } else {
        let c = t[0];
        let s2 = step(s, c);
        lemma_run_value_chars(s2, t.drop_first());
        assert(s.portion.push(c) + t.drop_first() =~= s.portion + t);
    }
}

/// The scan never answers for a key that never occurs: with the key flag
/// still down, a token sequence without a matching key token yields nothing.
proof fn lemma_absent_key_at(
    leaves: Seq<(INIContext, Seq<char>)>,
    i: int,
    in_section: bool,
    section: Seq<char>,
    key: Seq<char>,
)
    requires
        0 <= i,
        forall|j: int|
            0 <= j < leaves.len() ==> ((#[trigger] leaves[j]).0 != INIContext::Key || leaves[j].1
                != key),
    ensures
        search_at(leaves, i, in_section, false, section, key) is None,
    decreases leaves.len() - i,
{
    if i < leaves.len() {
        match leaves[i].0 {
            INIContext::Section => {
                lemma_absent_key_at(leaves, i + 1, leaves[i].1 == section, section, key);
            },
            INIContext::Key => {
                assert(leaves[i].1 != key);
                lemma_absent_key_at(leaves, i + 1, in_section, section, key);
            },
            _ => {
                lemma_absent_key_at(leaves, i + 1, in_section, section, key);
            },
        }
    }
}

/// The scan never answers inside a section that never occurs: with the
/// section flag down, a token sequence without a matching section token
/// yields nothing.
proof fn lemma_absent_section_at(
    leaves: Seq<(INIContext, Seq<char>)>,
    i: int,
    key_seen: bool,
    section: Seq<char>,
    key: Seq<char>,
)
    requires
        0 <= i,
        forall|j: int|
            0 <= j < leaves.len() ==> ((#[trigger] leaves[j]).0 != INIContext::Section || leaves[j].1
                != section),
    ensures
        search_at(leaves, i, false, key_seen, section, key) is None,
    decreases leaves.len() - i,
{
    if i < leaves.len() {
        match leaves[i].0 {
            INIContext::Section => {
                assert(leaves[i].1 != section);
                lemma_absent_section_at(leaves, i + 1, key_seen, section, key);
            },
            INIContext::Key => {
                lemma_absent_section_at(leaves, i + 1, key_seen || leaves[i].1 == key, section, key);
            },
            _ => {
                lemma_absent_section_at(leaves, i + 1, key_seen, section, key);
            },
        }
    }
}

/// A lookup for a key that occurs nowhere as a key token finds nothing,
/// whatever the section asked for.
pub proof fn lemma_absent_key_not_found(
    leaves: Seq<(INIContext, Seq<char>)>,
    section: Seq<char>,
    key: Seq<char>,
)
    requires
        forall|j: int|
            0 <= j < leaves.len() ==> ((#[trigger] leaves[j]).0 != INIContext::Key || leaves[j].1
                != key),
    ensures
        search_spec(leaves, section, key) is None,
{
    lemma_absent_key_at(leaves, 0, false, section, key);
}

/// A lookup in a section that occurs nowhere as a section token finds
/// nothing, whatever the key asked for.
pub proof fn lemma_absent_section_not_found(
    leaves: Seq<(INIContext, Seq<char>)>,
    section: Seq<char>,
    key: Seq<char>,
)
    requires
        forall|j: int|
            0 <= j < leaves.len() ==> ((#[trigger] leaves[j]).0 != INIContext::Section || leaves[j].1
                != section),
    ensures
        search_spec(leaves, section, key) is None,
{
    lemma_absent_section_at(leaves, 0, false, section, key);
}

/// The default section token stands first in every parse, whatever the input.
pub proof fn lemma_default_section_present(input: Seq<char>)
    ensures
        tokens_of(input).len() >= 1,
        tokens_of(input)[0] == (INIContext::Section, "generaly"@),
{
    lemma_run_extends_leaves(start(), input);
    assert(start().leaves[0] == (INIContext::Section, "generaly"@));
}

/// An empty document still parses, to the default section alone, and every
/// lookup in it comes back empty rather than failing.
pub proof fn lemma_empty_input_not_found(section: Seq<char>, key: Seq<char>)
    ensures
        tokens_of(Seq::<char>::empty()) == seq![(INIContext::Section, "generaly"@)],
        search_spec(tokens_of(Seq::<char>::empty()), section, key) is None,
{
    let leaves = seq![(INIContext::Section, "generaly"@)];
    assert(run(start(), Seq::<char>::empty()) == start());
    assert(search_at(leaves, 1, leaves[0].1 == section, false, section, key) is None);
    assert(search_at(leaves, 0, false, false, section, key) is None);
}

/// Parsing is a pure function of the input: the same buffer parsed twice
/// gives the same token sequence, and so answers every lookup alike.
pub proof fn lemma_parse_deterministic(
    a: Seq<char>,
    b: Seq<char>,
    section: Seq<char>,
    key: Seq<char>,
)
    requires
        a == b,
    ensures
        tokens_of(a) == tokens_of(b),
        search_spec(tokens_of(a), section, key) == search_spec(tokens_of(b), section, key),
{
}

/// A scan that has found its answer keeps it under any extension of the
/// token sequence.
proof fn lemma_search_at_append(
    leaves: Seq<(INIContext, Seq<char>)>,
    more: Seq<(INIContext, Seq<char>)>,
    i: int,
    in_section: bool,
    key_seen: bool,
    section: Seq<char>,
    key: Seq<char>,
)
    requires
        0 <= i,
        search_at(leaves, i, in_section, key_seen, section, key) is Some,
    ensures
        search_at(leaves + more, i, in_section, key_seen, section, key) == search_at(
            leaves,
            i,
            in_section,
            key_seen,
            section,
            key,
        ),
    decreases leaves.len() - i,
{
    assert(i < leaves.len());
    assert((leaves + more)[i] == leaves[i]);
    match leaves[i].0 {
        INIContext::Section => {
            lemma_search_at_append(leaves, more, i + 1, leaves[i].1 == section, key_seen, section, key);
        },
        INIContext::Key => {
            lemma_search_at_append(
                leaves,
                more,
                i + 1,
                in_section,
                key_seen || leaves[i].1 == key,
                section,
                key,
            );
        },
        INIContext::Value => {
            if !(in_section && key_seen) {
                lemma_search_at_append(leaves, more, i + 1, in_section, key_seen, section, key);
            }
        },
        _ => {
            lemma_search_at_append(leaves, more, i + 1, in_section, key_seen, section, key);
        },
    }
}

/// Growing the document is additive for the lookup: a value already found in
/// a token sequence is still the one found after any further tokens — later
/// sections, a re-opened section among them, never replace earlier entries.
pub proof fn lemma_search_append(
    leaves: Seq<(INIContext, Seq<char>)>,
    more: Seq<(INIContext, Seq<char>)>,
    section: Seq<char>,
    key: Seq<char>,
)
    requires
        search_spec(leaves, section, key) is Some,
    ensures
        search_spec(leaves + more, section, key) == search_spec(leaves, section, key),
{
    lemma_search_at_append(leaves, more, 0, false, false, section, key);
}

/// A document holding one key line and nothing else parses, in strict mode
/// too, to the default section, the key and the value; looking the key up in
/// the default section yields exactly that value.
pub proof fn lemma_single_default_key(name: Seq<char>, value: Seq<char>)
    requires
        name.len() > 0,
        forall|i: int| 0 <= i < name.len() ==> is_alnum(#[trigger] name[i]),
        forall|i: int| 0 <= i < value.len() ==> #[trigger] value[i] != '\n' && value[i] != '\r',
    ensures
        tokens_of(name + seq!['='] + value + seq!['\n']) == seq![
            (INIContext::Section, "generaly"@),
            (INIContext::Key, name),
            (INIContext::Value, value),
        ],
        accepts(start(), name + seq!['='] + value + seq!['\n']),
        search_spec(
            tokens_of(name + seq!['='] + value + seq!['\n']),
            "generaly"@,
            name,
        ) == Some(value),
{
    let input = name + seq!['='] + value + seq!['\n'];
    let rest1 = seq!['='] + value + seq!['\n'];
    let rest2 = value + seq!['\n'];
    let s0 = start();

    // over the key characters: Idle steps into Key on the first, then appends
    assert(input =~= name + rest1);
    lemma_run_concat(s0, name, rest1);
    let sk = step(s0, name[0]);
    lemma_run_key_chars(sk, name.drop_first());
    let s1 = run(s0, name);
    assert(s1.portion =~= name);

    // the '=' emits the key token and opens the value
    lemma_run_concat(s1, seq!['='], rest2);
    assert(rest1 =~= seq!['='] + rest2);
    let s2 = run(s1, seq!['=']);
    assert(s2 == run(step(s1, '='), seq!['='].drop_first()));
    assert(seq!['='].drop_first() =~= Seq::<char>::empty());
    assert(s2 == step(s1, '='));
    assert(accepts(step(s1, '='), Seq::<char>::empty()));
    assert(accepts(s1, seq!['=']));

    // over the value characters
    lemma_run_concat(s2, value, seq!['\n']);
    lemma_run_value_chars(s2, value);
    let s3 = run(s2, value);
    assert(s3.portion =~= value);

    // the newline emits the value token
    let s4 = run(s3, seq!['\n']);
    assert(s4 == run(step(s3, '\n'), seq!['\n'].drop_first()));
    assert(seq!['\n'].drop_first() =~= Seq::<char>::empty());
    assert(s4 == step(s3, '\n'));
    assert(accepts(step(s3, '\n'), Seq::<char>::empty()));
    assert(accepts(s3, seq!['\n']));

    let leaves = seq![
        (INIContext::Section, "generaly"@),
        (INIContext::Key, name),
        (INIContext::Value, value),
    ];

    // the lookup walks the three tokens and stops at the value
    assert(search_at(leaves, 2, true, true, "generaly"@, name) == Some(value));
    assert(search_at(leaves, 1, true, false, "generaly"@, name) == Some(value));
    assert(search_at(leaves, 0, false, false, "generaly"@, name) == Some(value));
}

} // verus!
