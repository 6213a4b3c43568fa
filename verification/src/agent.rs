//! The suggestion capability: the prompt/suggestion data carried
//! across it, the `Agent` interface, and the deterministic reference
//! implementation that swaps a few words.

use vstd::prelude::*;

use crate::text::{join_spaces, join_words, split_words, words_of};

verus! {

/// The input to one suggestion request: system instructions, the
/// user's instruction, and the content of the target paragraph.
pub struct Prompt {
    pub system: String,
    pub instruction: String,
    pub content: String,
}

impl Prompt {
    /// Builds a prompt from its three parts.
    pub fn new(system: &str, instruction: &str, content: &str) -> (p: Prompt)
        ensures
            p.system@ == system@,
            p.instruction@ == instruction@,
            p.content@ == content@,
    {
        Prompt {
            system: system.to_owned(),
            instruction: instruction.to_owned(),
            content: content.to_owned(),
        }
    }
}

/// One proposed edit: the original paragraph content, the proposed
/// replacement, and a human-readable rationale.
#[derive(Clone)]
pub struct Suggestion {
    pub original: String,
    pub replacement: String,
    pub explanation: String,
}

/// A capability that turns a prompt into a suggestion. Every
/// implementation must echo the paragraph content as `original` and
/// give a non-empty explanation; through `ens` an implementation can
/// promise more about the suggestions it produces.
pub trait Agent {
    /// What this implementation guarantees of a suggestion produced
    /// for the given system text, instruction and paragraph content.
    spec fn ens(
        &self,
        system: Seq<char>,
        instruction: Seq<char>,
        content: Seq<char>,
        s: Suggestion,
    ) -> bool;

    fn suggest(&self, prompt: &Prompt) -> (s: Suggestion)
        ensures
            s.original@ == prompt.content@,
            s.explanation@.len() > 0,
            self.ens(prompt.system@, prompt.instruction@, prompt.content@, s),
    ;
}

/// The deterministic reference agent: a placeholder suggestion backend
/// that swaps a few words of the paragraph.
pub struct MockAgent;

impl MockAgent {
    /// Builds the reference agent.
    pub fn new() -> (a: MockAgent) {
        MockAgent
    }
}

/// The word order the reference agent proposes: the words at positions
/// 1 and 3 exchanged, and, when at least eight words exist, also the
/// words at positions 5 and 7.
pub open spec fn swapped_words(ws: Seq<Seq<char>>) -> Seq<Seq<char>>
    recommends
        ws.len() >= 4,
{
    if ws.len() >= 8 {
        ws.update(1, ws[3]).update(3, ws[1]).update(5, ws[7]).update(7, ws[5])
    } else {
        ws.update(1, ws[3]).update(3, ws[1])
    }
}

/// The replacement the reference agent proposes for a paragraph:
/// content with fewer than four words is returned unchanged; otherwise
/// the swapped words rejoined with single spaces.
pub open spec fn mock_replacement(content: Seq<char>) -> Seq<char> {
    let ws = words_of(content);
    if ws.len() < 4 {
        content
    } else {
        join_words(swapped_words(ws))
    }
}

impl Agent for MockAgent {
    /// The reference agent is exact: the replacement is
    /// `mock_replacement` of the paragraph content, and the
    /// explanation tells whether anything was swapped.
    open spec fn ens(
        &self,
        system: Seq<char>,
        instruction: Seq<char>,
        content: Seq<char>,
        s: Suggestion,
    ) -> bool {
        &&& s.replacement@ == mock_replacement(content)
        &&& s.explanation@ == if words_of(content).len() < 4 {
            "Text is too short to analyze."@
        } else {
            "Swapped a few words for better flow."@
        }
    }

    fn suggest(&self, prompt: &Prompt) -> (s: Suggestion) {
        let words = split_words(prompt.content.as_str());
        if words.len() < 4 {
            proof {
                reveal_strlit("Text is too short to analyze.");
            }
            Suggestion {
                original: prompt.content.clone(),
                replacement: prompt.content.clone(),
                explanation: String::from_str("Text is too short to analyze."),
            }
        } else {
            let ghost dv = words.deep_view();
            let n: usize = words.len();
            let mut reordered: Vec<String> = Vec::new();
            let mut k: usize = 0;
            proof {
                assert(dv.len() == n);
                assert(swapped_words(dv).len() == n);
                assert(reordered.deep_view() =~= swapped_words(dv).take(0));
            }
            while k < n
                invariant
                    4 <= n,
                    k <= n,
                    n == words@.len(),
                    dv == words.deep_view(),
                    swapped_words(dv).len() == n,
                    reordered.deep_view() == swapped_words(dv).take(k as int),
                decreases n - k,
            {
                let src: usize = if k == 1 {
                    3
                } else if k == 3 {
                    1
                } else if n >= 8 && k == 5 {
                    7
                } else if n >= 8 && k == 7 {
                    5
                } else {
                    k
                };
                proof {
                    assert(swapped_words(dv)[k as int] == dv[src as int]);
                }
                let ghost prev = reordered.deep_view();
                reordered.push(words[src].clone());
                proof {
                    assert(reordered.deep_view() =~= prev.push(dv[src as int]));
                    assert(swapped_words(dv).take(k + 1) =~= swapped_words(dv).take(
                        k as int,
                    ).push(swapped_words(dv)[k as int]));
                }
                k = k + 1;
            }
            proof {
                assert(swapped_words(dv).take(n as int) =~= swapped_words(dv));
                reveal_strlit("Swapped a few words for better flow.");
            }
            let replacement = join_spaces(&reordered);
            Suggestion {
                original: prompt.content.clone(),
                replacement,
                explanation: String::from_str("Swapped a few words for better flow."),
            }
        }
    }
}

} // verus!
