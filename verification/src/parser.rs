use vstd::prelude::*;

use crate::machine::accepts;
use crate::machine::lemma_accepts_prefix;
use crate::machine::lemma_run_snoc;
use crate::machine::run;
use crate::machine::start;
use crate::machine::step;
use crate::machine::tokens_of;
use crate::token::INIContext;
use crate::token::alnum;
use crate::token::key_char;
use crate::token::rejected;
use crate::tree::INITree;
use vstd::string::StrSliceExecFns;

verus! {

/// Relies on String::push: appends exactly the one character at the end.
#[verifier::external_body]
fn push_char(s: &mut String, c: char)
    ensures
        final(s)@ == old(s)@.push(c),
{
    s.push(c);
}

impl INIContext {
    /// Parses a whole document into its token tree.
    ///
    /// In lenient mode (`strict == false`) every character the machine
    /// rejects is discarded and parsing always succeeds.  In strict mode
    /// parsing stops at the first rejected character and returns its
    /// zero-based character offset; it succeeds exactly when the machine
    /// accepts every character.  Either way the buffer itself is left as it
    /// was, and a partial token still being accumulated when the input ends
    /// is dropped, never emitted.
    pub fn parse_string(buffer: &mut String, strict: bool) -> (r: Result<INITree, usize>)
        ensures
            final(buffer)@ == old(buffer)@,
            !strict ==> r is Ok,
            strict && accepts(start(), old(buffer)@) ==> r is Ok,
            match r {
                Ok(arbre) => {
                    &&& arbre@ == tokens_of(old(buffer)@)
                    &&& (strict ==> accepts(start(), old(buffer)@))
                },
                Err(pos) => {
                    &&& strict
                    &&& pos < old(buffer)@.len()
                    &&& accepts(start(), old(buffer)@.take(pos as int))
                    &&& rejected(
                        run(start(), old(buffer)@.take(pos as int)).ctx,
                        old(buffer)@[pos as int],
                    )
                },
            },
    {
        let ghost input: Seq<char> = buffer@;
        let mut contexte: INIContext = INIContext::Idle;
        let mut arbre: INITree = INITree::with_no_leaves();
        arbre.push_leaf(INIContext::Section, "generaly".to_owned());
        let mut portion: String = String::new();
        proof {
            assert(input.take(0) =~= Seq::<char>::empty());
            assert(arbre@ =~= start().leaves);
        }
        let n: usize = buffer.as_str().unicode_len();
        let mut i: usize = 0;
        while i < n
            invariant
                buffer@ == input,
                n == input.len(),
                i <= n,
                contexte == run(start(), input.take(i as int)).ctx,
                portion@ == run(start(), input.take(i as int)).portion,
                arbre@ == run(start(), input.take(i as int)).leaves,
                strict ==> accepts(start(), input.take(i as int)),
            decreases n - i,
        {
            let c: char = buffer.as_str().get_char(i);
            let ghost before = run(start(), input.take(i as int));
            proof {
                assert(input.take(i as int).push(c) =~= input.take(i as int + 1));
                lemma_run_snoc(start(), input.take(i as int), c);
            }
            match contexte {
                INIContext::Idle => {
                    if c == ';' {
                        contexte = INIContext::Comment;
                    } else if c == '[' {
                        contexte = INIContext::Section;
                    } else if c == '\r' || c == '\n' {
                        // the state machine stays idle between lines
                    } else if alnum(c) {
                        push_char(&mut portion, c);
                        contexte = INIContext::Key;
                    } else {
                        if strict {
                            proof {
                                if accepts(start(), input) {
                                    lemma_accepts_prefix(start(), input, i as int + 1);
                                }
                            }
                            return Err(i);
                        }
                    }
                },
                INIContext::Key => {
                    if c == '=' {
                        arbre.push_leaf(INIContext::Key, portion);
                        portion = String::new();
                        contexte = INIContext::Value;
                    } else if key_char(c) {
                        push_char(&mut portion, c);
                    } else {
                        if strict {
                            proof {
                                if accepts(start(), input) {
                                    lemma_accepts_prefix(start(), input, i as int + 1);
                                }
                            }
                            return Err(i);
                        }
                    }
                },
                INIContext::Value => {
                    if c == '\n' || c == '\r' {
                        arbre.push_leaf(INIContext::Value, portion);
                        portion = String::new();
                        contexte = if c == '\r' {
                            INIContext::Line
                        } else {
                            INIContext::Idle
                        };
                    } else {
                        push_char(&mut portion, c);
                    }
                },
                INIContext::Line => {
                    if c == '\r' {
                        // a run of carriage returns still awaits its newline
                    } else if c == '\n' {
                        contexte = INIContext::Idle;
                    } else {
                        if strict {
                            proof {
                                if accepts(start(), input) {
                                    lemma_accepts_prefix(start(), input, i as int + 1);
                                }
                            }
                            return Err(i);
                        }
                    }
                },
                INIContext::Section => {
                    if c == ']' {
                        arbre.push_leaf(INIContext::Section, portion);
                        portion = String::new();
                        contexte = INIContext::Line;
                    } else {
                        push_char(&mut portion, c);
                    }
                },
                INIContext::Comment => {
                    if c == '\n' || c == '\r' {
                        arbre.push_leaf(INIContext::Comment, portion);
                        portion = String::new();
                        contexte = if c == '\r' {
                            INIContext::Line
                        } else {
                            INIContext::Idle
                        };
                    } else {
                        push_char(&mut portion, c);
                    }
                },
            }
            proof {
                assert(run(start(), input.take(i as int + 1)) == step(before, c));
            }
            i = i + 1;
        }
        proof {
            assert(input.take(n as int) =~= input);
        }
        Ok(arbre)
    }
}

} // verus!
