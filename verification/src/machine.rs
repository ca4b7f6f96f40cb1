use vstd::prelude::*;

use crate::token::INIContext;
use crate::token::is_alnum;
use crate::token::is_key_char;
use crate::token::rejected;

verus! {

/// The whole configuration of the tokenizer between two characters: its
/// state, the characters of the token being accumulated, and the tokens
/// emitted so far, each a tag and the token's text.
pub struct MachineState {
    pub ctx: INIContext,
    pub portion: Seq<char>,
    pub leaves: Seq<(INIContext, Seq<char>)>,
}

/// The state before any character is read: the synthetic default section is
/// already emitted.
pub open spec fn start() -> MachineState {
    MachineState {
        ctx: INIContext::Idle,
        portion: Seq::empty(),
        leaves: seq![(INIContext::Section, "generaly"@)],
    }
}

/// One transition of the tokenizer on one character, in its lenient form: a
/// rejected character leaves the state unchanged.  Strict mode is the same
/// machine stopped at the first character with [`rejected`] true.
pub open spec fn step(s: MachineState, c: char) -> MachineState {
    match s.ctx {
        INIContext::Idle => {
            if c == ';' {
                MachineState { ctx: INIContext::Comment, portion: s.portion, leaves: s.leaves }
            } else if c == '[' {
                MachineState { ctx: INIContext::Section, portion: s.portion, leaves: s.leaves }
            } else if is_alnum(c) {
                MachineState {
                    ctx: INIContext::Key,
                    portion: s.portion.push(c),
                    leaves: s.leaves,
                }
            } else {
                s
            }
        },
        INIContext::Key => {
            if c == '=' {
                MachineState {
                    ctx: INIContext::Value,
                    portion: Seq::empty(),
                    leaves: s.leaves.push((INIContext::Key, s.portion)),
                }
            } else if is_key_char(c) {
                MachineState { ctx: INIContext::Key, portion: s.portion.push(c), leaves: s.leaves }
            } else {
                s
            }
        },
        INIContext::Value => {
            if c == '\n' {
                MachineState {
                    ctx: INIContext::Idle,
                    portion: Seq::empty(),
                    leaves: s.leaves.push((INIContext::Value, s.portion)),
                }
            } else if c == '\r' {
                MachineState {
                    ctx: INIContext::Line,
                    portion: Seq::empty(),
                    leaves: s.leaves.push((INIContext::Value, s.portion)),
                }
            } else {
                MachineState { ctx: INIContext::Value, portion: s.portion.push(c), leaves: s.leaves }
            }
        },
        INIContext::Line => {
            if c == '\n' {
                MachineState { ctx: INIContext::Idle, portion: s.portion, leaves: s.leaves }
            } else {
                s
            }
        },
        INIContext::Comment => {
            if c == '\n' {
                MachineState {
                    ctx: INIContext::Idle,
                    portion: Seq::empty(),
                    leaves: s.leaves.push((INIContext::Comment, s.portion)),
                }
            } else if c == '\r' {
                MachineState {
                    ctx: INIContext::Line,
                    portion: Seq::empty(),
                    leaves: s.leaves.push((INIContext::Comment, s.portion)),
                }
            } else {
                MachineState {
                    ctx: INIContext::Comment,
                    portion: s.portion.push(c),
                    leaves: s.leaves,
                }
            }
        },
        INIContext::Section => {
            if c == ']' {
                MachineState {
                    ctx: INIContext::Line,
                    portion: Seq::empty(),
                    leaves: s.leaves.push((INIContext::Section, s.portion)),
                }
            } else {
                MachineState {
                    ctx: INIContext::Section,
                    portion: s.portion.push(c),
                    leaves: s.leaves,
                }
            }
        },
    }
}

/// The tokenizer run over a whole input from a given state, lenient form.
pub open spec fn run(s: MachineState, input: Seq<char>) -> MachineState
    decreases input.len(),
{
    if input.len() == 0 {
        s
    } else {
        run(step(s, input[0]), input.drop_first())
    }
}

/// Whether the machine, run from `s`, rejects no character of `input`:
/// exactly the inputs on which strict parsing reaches the end.
pub open spec fn accepts(s: MachineState, input: Seq<char>) -> bool
    decreases input.len(),
{
    input.len() == 0 || (!rejected(s.ctx, input[0]) && accepts(step(s, input[0]), input.drop_first()))
}

/// The token sequence of a whole document: the machine run over it in
/// lenient form, starting from the default section.
pub open spec fn tokens_of(input: Seq<char>) -> Seq<(INIContext, Seq<char>)> {
    run(start(), input).leaves
}

/// Running over `a.push(c)` is running over `a`, then one step on `c`.
pub proof fn lemma_run_snoc(s: MachineState, a: Seq<char>, c: char)
    ensures
        run(s, a.push(c)) == step(run(s, a), c),
        accepts(s, a.push(c)) == (accepts(s, a) && !rejected(run(s, a).ctx, c)),
    decreases a.len(),
{
    if a.len() == 0 {
        assert(a.push(c)[0] == c);
        assert(a.push(c).drop_first() =~= Seq::<char>::empty());
        assert(run(step(s, c), Seq::<char>::empty()) == step(s, c));
        assert(accepts(step(s, c), Seq::<char>::empty()));
    } else {
        assert(a.push(c)[0] == a[0]);
        assert(a.push(c).drop_first() =~= a.drop_first().push(c));
        lemma_run_snoc(step(s, a[0]), a.drop_first(), c);
    }
}

/// Running over `a + b` is running over `a`, then over `b`.
pub proof fn lemma_run_concat(s: MachineState, a: Seq<char>, b: Seq<char>)
    ensures
        run(s, a + b) == run(run(s, a), b),
        accepts(s, a + b) == (accepts(s, a) && accepts(run(s, a), b)),
    decreases a.len(),
{
    if a.len() == 0 {
        assert(a + b =~= b);
    } else {
        assert((a + b)[0] == a[0]);
        assert((a + b).drop_first() =~= a.drop_first() + b);
        lemma_run_concat(step(s, a[0]), a.drop_first(), b);
    }
}

/// A machine that accepts a whole input accepts every prefix of it.
pub proof fn lemma_accepts_prefix(s: MachineState, input: Seq<char>, n: int)
    requires
        0 <= n <= input.len(),
        accepts(s, input),
    ensures
        accepts(s, input.take(n)),
{
    lemma_run_concat(s, input.take(n), input.skip(n));
    assert(input.take(n) + input.skip(n) =~= input);
}

/// The machine never removes or rewrites a token already emitted: what `run`
/// produces extends the leaves it started from.
pub proof fn lemma_run_extends_leaves(s: MachineState, input: Seq<char>)
    ensures
        run(s, input).leaves.len() >= s.leaves.len(),
        forall|i: int|
            0 <= i < s.leaves.len() ==> run(s, input).leaves[i] == s.leaves[i],
    decreases input.len(),
{
    if input.len() > 0 {
        let s2 = step(s, input[0]);
        lemma_run_extends_leaves(s2, input.drop_first());
        assert(run(s, input) == run(s2, input.drop_first()));
        assert forall|i: int| 0 <= i < s.leaves.len() implies run(s, input).leaves[i]
            == s.leaves[i] by {
            assert(s2.leaves[i] == s.leaves[i]);
        }
    }
}

} // verus!
