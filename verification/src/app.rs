//! The review session: the application state, the conversation log,
//! and the state machine that moves between normal navigation and
//! reviewing one pending suggestion.

use vstd::prelude::*;

use crate::agent::{Agent, Prompt, Suggestion};
use crate::document::{loaded_paragraphs, Document};

verus! {

/// Who said a conversation line.
#[derive(Clone, Copy, PartialEq, Eq, Structural, Debug)]
pub enum Role {
    User,
    Assistant,
}

/// One line of the conversation log.
pub struct Message {
    pub role: Role,
    pub content: String,
}

/// Whether `m` carries the given role and content.
pub open spec fn msg_is(m: Message, role: Role, content: Seq<char>) -> bool {
    m.role == role && m.content@ == content
}

/// The mode of the session: normal navigation, or reviewing one
/// pending suggestion aimed at the paragraph at `paragraph_index`.
pub enum AppMode {
    Normal,
    Review { suggestion: Suggestion, paragraph_index: usize },
}

/// The whole session state: the document under review, the pending
/// input line, the append-only conversation log, and the current mode.
pub struct App {
    pub document: Document,
    pub running: bool,
    pub input: String,
    pub conversation: Vec<Message>,
    pub system_prompt: String,
    pub mode: AppMode,
}

/// The default system instructions handed to the agent.
pub open spec fn default_prompt_text() -> Seq<char> {
    "You are an expert proofreader and writing assistant. Your role is to help improve text clarity, grammar, style, and flow. Be concise and specific in your suggestions."@
}

/// Builds the default system instructions handed to the agent.
pub fn default_system_prompt() -> (r: String)
    ensures
        r@ == default_prompt_text(),
{
    String::from_str(
        "You are an expert proofreader and writing assistant. Your role is to help improve text clarity, grammar, style, and flow. Be concise and specific in your suggestions.",
    )
}

impl App {
    /// The structural invariant: the document is well-formed, and a
    /// pending review always aims at a valid paragraph index.
    pub open spec fn wf(&self) -> bool {
        &&& self.document.wf()
        &&& match self.mode {
            AppMode::Review { paragraph_index, .. } => paragraph_index
                < self.document.paragraphs@.len(),
            AppMode::Normal => true,
        }
    }

    /// A fresh session over a document holding a single empty
    /// paragraph.
    pub fn new() -> (a: App)
        ensures
            a.wf(),
            a.document.paras() =~= seq![Seq::<char>::empty()],
            a.document.selected == 0,
            a.document.scroll == 0,
            a.running,
            a.input@.len() == 0,
            a.conversation@.len() == 0,
            a.system_prompt@ == default_prompt_text(),
            a.mode is Normal,
    {
        App {
            document: Document::new(),
            running: true,
            input: String::new(),
            conversation: Vec::new(),
            system_prompt: default_system_prompt(),
            mode: AppMode::Normal,
        }
    }

    /// A fresh session over a document loaded from a source text.
    pub fn load(text: &str) -> (a: App)
        ensures
            a.wf(),
            a.document.paras() == loaded_paragraphs(text@),
            a.document.selected == 0,
            a.document.scroll == 0,
            a.running,
            a.input@.len() == 0,
            a.conversation@.len() == 0,
            a.system_prompt@ == default_prompt_text(),
            a.mode is Normal,
    {
        App {
            document: Document::load(text),
            running: true,
            input: String::new(),
            conversation: Vec::new(),
            system_prompt: default_system_prompt(),
            mode: AppMode::Normal,
        }
    }

    /// Asks the control loop to stop.
    pub fn quit(&mut self)
        ensures
            !final(self).running,
            final(self).document == old(self).document,
            final(self).input == old(self).input,
            final(self).conversation == old(self).conversation,
            final(self).system_prompt == old(self).system_prompt,
            final(self).mode == old(self).mode,
    {
        self.running = false;
    }

    /// Starts reviewing `suggestion` against the paragraph at
    /// `paragraph_index`. The caller must hand an index that is valid
    /// for the current document, so that a stale index can never enter
    /// a review.
    pub fn enter_review(&mut self, suggestion: Suggestion, paragraph_index: usize)
        requires
            old(self).wf(),
            paragraph_index < old(self).document.paragraphs@.len(),
        ensures
            final(self).wf(),
            final(self).mode == (AppMode::Review { suggestion, paragraph_index }),
            final(self).document == old(self).document,
            final(self).running == old(self).running,
            final(self).input == old(self).input,
            final(self).conversation == old(self).conversation,
            final(self).system_prompt == old(self).system_prompt,
    {
        self.mode = AppMode::Review { suggestion, paragraph_index };
    }

    /// Commits the pending suggestion: writes its replacement into the
    /// paragraph under review, logs "Change accepted.", and returns to
    /// normal mode. Outside a review this only re-asserts normal mode
    /// and changes nothing else.
    pub fn accept_suggestion(&mut self)
        requires
            old(self).wf(),
        ensures
            final(self).wf(),
            final(self).mode is Normal,
            final(self).running == old(self).running,
            final(self).input == old(self).input,
            final(self).system_prompt == old(self).system_prompt,
            final(self).document.selected == old(self).document.selected,
            final(self).document.scroll == old(self).document.scroll,
            old(self).mode is Normal ==> final(self).document == old(self).document
                && final(self).conversation == old(self).conversation,
            (old(self).mode matches AppMode::Review { suggestion, paragraph_index } ==> {
                &&& final(self).document.paras() == old(self).document.paras().update(
                    paragraph_index as int,
                    suggestion.replacement@,
                )
                &&& final(self).conversation@.len() == old(self).conversation@.len() + 1
                &&& final(self).conversation@.drop_last() == old(self).conversation@
                &&& msg_is(final(self).conversation@.last(), Role::Assistant, "Change accepted."@)
            }),
    {
        match &self.mode {
            AppMode::Review { suggestion, paragraph_index } => {
                let idx = *paragraph_index;
                let replacement = suggestion.replacement.clone();
                let ghost prev = self.document.paras();
                self.document.paragraphs[idx] = replacement;
                proof {
                    assert(self.document.paras() =~= prev.update(
                        idx as int,
                        self.document.paragraphs@[idx as int]@,
                    ));
                }
                let ghost before = self.conversation@;
                self.conversation.push(
                    Message { role: Role::Assistant, content: String::from_str("Change accepted.") },
                );
                proof {
                    assert(self.conversation@.drop_last() =~= before);
                }
            },
            AppMode::Normal => {},
        }
        self.mode = AppMode::Normal;
    }

    /// Discards the pending suggestion: leaves the document untouched,
    /// logs "Change discarded.", and returns to normal mode. Outside a
    /// review this only re-asserts normal mode and changes nothing
    /// else.
    pub fn reject_suggestion(&mut self)
        requires
            old(self).wf(),
        ensures
            final(self).wf(),
            final(self).mode is Normal,
            final(self).running == old(self).running,
            final(self).input == old(self).input,
            final(self).system_prompt == old(self).system_prompt,
            final(self).document == old(self).document,
            old(self).mode is Normal ==> final(self).conversation == old(self).conversation,
            (old(self).mode matches AppMode::Review { .. } ==> {
                &&& final(self).conversation@.len() == old(self).conversation@.len() + 1
                &&& final(self).conversation@.drop_last() == old(self).conversation@
                &&& msg_is(final(self).conversation@.last(), Role::Assistant, "Change discarded."@)
            }),
    {
        match &self.mode {
            AppMode::Review { .. } => {
                let ghost before = self.conversation@;
                self.conversation.push(
                    Message {
                        role: Role::Assistant,
                        content: String::from_str("Change discarded."),
                    },
                );
                proof {
                    assert(self.conversation@.drop_last() =~= before);
                }
            },
            AppMode::Normal => {},
        }
        self.mode = AppMode::Normal;
    }

    /// Submits the pending input line as an instruction against the
    /// selected paragraph: logs the user message, asks the agent for a
    /// suggestion, logs its explanation, enters review of that
    /// suggestion, and clears the input. With no pending input, or
    /// outside normal mode, nothing happens.
    pub fn submit_instruction<A: Agent>(&mut self, agent: &A)
        requires
            old(self).wf(),
        ensures
            final(self).wf(),
            final(self).running == old(self).running,
            final(self).system_prompt == old(self).system_prompt,
            !(old(self).mode is Normal) || old(self).input@.len() == 0 ==> *final(self) == *old(
                self,
            ),
            old(self).mode is Normal && old(self).input@.len() > 0 ==> {
                &&& final(self).document == old(self).document
                &&& final(self).input@.len() == 0
                &&& final(self).conversation@.len() == old(self).conversation@.len() + 2
                &&& final(self).conversation@.subrange(0, old(self).conversation@.len() as int)
                    == old(self).conversation@
                &&& msg_is(
                    final(self).conversation@[old(self).conversation@.len() as int],
                    Role::User,
                    old(self).input@,
                )
                &&& (final(self).mode matches AppMode::Review { suggestion, paragraph_index } && {
                    &&& paragraph_index == old(self).document.selected
                    &&& suggestion.original@ == old(self).document.paras()[old(
                        self,
                    ).document.selected as int]
                    &&& suggestion.explanation@.len() > 0
                    &&& msg_is(
                        final(self).conversation@.last(),
                        Role::Assistant,
                        suggestion.explanation@,
                    )
                    &&& agent.ens(
                        old(self).system_prompt@,
                        old(self).input@,
                        old(self).document.paras()[old(self).document.selected as int],
                        suggestion,
                    )
                })
            },
    {
        let is_normal = match &self.mode {
            AppMode::Normal => true,
            AppMode::Review { .. } => false,
        };
        if !is_normal || self.input.as_str().is_empty() {
            return ;
        }
        let user_msg = self.input.clone();
        let ghost before = self.conversation@;
        self.conversation.push(Message { role: Role::User, content: user_msg.clone() });
        let selected_idx = self.document.selected;
        let prompt = Prompt::new(
            self.system_prompt.as_str(),
            user_msg.as_str(),
            self.document.paragraphs[selected_idx].as_str(),
        );
        let suggestion = agent.suggest(&prompt);
        self.conversation.push(
            Message { role: Role::Assistant, content: suggestion.explanation.clone() },
        );
        proof {
            assert(self.conversation@.subrange(0, before.len() as int) =~= before);
            let sel = self.document.selected as int;
            assert(self.document.paras()[sel] == self.document.paragraphs@[sel]@);
        }
        self.enter_review(suggestion, selected_idx);
        self.input = String::new();
    }
}

} // verus!
