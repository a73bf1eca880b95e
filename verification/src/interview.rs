//! Sequential executor for benchmark interview scripts.
//!
//! Prompts run strictly in script order, one at a time; a failing backend
//! call is recorded and never aborts the remaining prompts.  The caller
//! performs each backend call and reports its outcome and wall-clock time.

use vstd::prelude::*;

use crate::dispatch::outcome_view;
use crate::msg::{ChatMsg, ChatResp, ChatRespV, ClientMessage, ClientMessageV, InterviewPrompt,
    PromptResult, PromptResultV};

verus! {

/// The result recorded for one prompt: on success the first choice's text,
/// the reported completion tokens and a time-to-first-token approximated as
/// half the total; on failure empty text, zero metrics and the error.
pub open spec fn prompt_result_of(
    id: Seq<u8>,
    outcome: Result<ChatRespV, Seq<u8>>,
    total_ms: u32,
) -> PromptResultV {
    match outcome {
        Result::Ok(resp) => PromptResultV {
            prompt_id: id,
            response: if resp.choices.len() > 0 {
                resp.choices.first().message.content
            } else {
                Seq::empty()
            },
            ttft_ms: (total_ms / 2) as u32,
            total_ms: total_ms,
            tokens_generated: match resp.usage {
                Option::Some(u) => u.completion_tokens,
                Option::None => 0,
            },
            error: Option::None,
        },
        Result::Err(e) => PromptResultV {
            prompt_id: id,
            response: Seq::empty(),
            ttft_ms: 0,
            total_ms: total_ms,
            tokens_generated: 0,
            error: Option::Some(e),
        },
    }
}

/// The single user message an interview prompt is asked with.
pub fn prompt_messages(prompt: &InterviewPrompt) -> (r: Vec<ChatMsg>)
    ensures
        r@.len() == 1,
        r@[0]@.role == seq![0x75u8, 0x73, 0x65, 0x72],
        r@[0]@.content == prompt.prompt@,
{
    let mut role: Vec<u8> = Vec::new();
    crate::codec::push_bytes(&mut role, &[0x75u8, 0x73, 0x65, 0x72]);
    let mut content: Vec<u8> = Vec::new();
    crate::codec::push_bytes(&mut content, prompt.prompt.as_slice());
    let mut r: Vec<ChatMsg> = Vec::new();
    r.push(ChatMsg { role, content });
    r
}

/// Builds the recorded result for one prompt from the call outcome and the
/// measured wall-clock time.
pub fn build_prompt_result(prompt_id: &[u8], outcome: Result<ChatResp, Vec<u8>>, total_ms: u32)
    -> (r: PromptResult)
    ensures
        r@ == prompt_result_of(prompt_id@, outcome_view(outcome), total_ms),
{
    let mut id: Vec<u8> = Vec::new();
    crate::codec::push_bytes(&mut id, prompt_id);
    match outcome {
        Result::Ok(resp) => {
            let response: Vec<u8> = if resp.choices.len() > 0 {
                let mut c: Vec<u8> = Vec::new();
                crate::codec::push_bytes(&mut c, resp.choices[0].message.content.as_slice());
                c
            } else {
                Vec::new()
            };
            let tokens = match &resp.usage {
                Option::Some(u) => u.completion_tokens,
                Option::None => 0,
            };
            PromptResult {
                prompt_id: id,
                response,
                ttft_ms: total_ms / 2,
                total_ms,
                tokens_generated: tokens,
                error: Option::None,
            }
        },
        Result::Err(e) => PromptResult {
            prompt_id: id,
            response: Vec::new(),
            ttft_ms: 0,
            total_ms,
            tokens_generated: 0,
            error: Option::Some(e),
        },
    }
}

/// One interview in progress: the script, and the results recorded so far.
pub struct InterviewRun {
    pub interview_id: Vec<u8>,
    pub model: Vec<u8>,
    pub prompts: Vec<InterviewPrompt>,
    pub results: Vec<PromptResult>,
}

impl InterviewRun {
    /// The results recorded so far, as ghost values.
    pub open spec fn results_view(&self) -> Seq<PromptResultV> {
        self.results@.map_values(|r: PromptResult| r@)
    }

    /// The script's prompts, as ghost values.
    pub open spec fn prompts_view(&self) -> Seq<crate::msg::InterviewPromptV> {
        self.prompts@.map_values(|p: InterviewPrompt| p@)
    }

    /// Results never outnumber prompts, and each recorded result carries the
    /// id of the prompt at its position.
    pub open spec fn wf(&self) -> bool {
        &&& self.results@.len() <= self.prompts@.len()
        &&& forall|i: int|
            0 <= i < self.results@.len() ==> self.results_view()[i].prompt_id
                == self.prompts_view()[i].id
    }

    /// All prompts have run.
    pub open spec fn is_done(&self) -> bool {
        self.results@.len() == self.prompts@.len()
    }

    /// Starts an interview over a script; nothing is recorded yet.
    pub fn new(interview_id: Vec<u8>, model: Vec<u8>, prompts: Vec<InterviewPrompt>) -> (r:
        InterviewRun)
        ensures
            r.wf(),
            r.interview_id@ == interview_id@,
            r.model@ == model@,
            r.prompts@ == prompts@,
            r.results@.len() == 0,
    {
        InterviewRun { interview_id, model, prompts, results: Vec::new() }
    }

    /// The next prompt to run, in script order; nothing once all have run.
    pub fn next_prompt(&self) -> (r: Option<&InterviewPrompt>)
        requires
            self.wf(),
        ensures
            match r {
                Option::Some(p) => !self.is_done() && p == &self.prompts@[
                    self.results@.len() as int
                ],
                Option::None => self.is_done(),
            },
    {
        if self.results.len() < self.prompts.len() {
            Option::Some(&self.prompts[self.results.len()])
        } else {
            Option::None
        }
    }

    /// Records the outcome of the next prompt's backend call.  A failure is
    /// recorded like any other outcome; the script continues.
    pub fn record(&mut self, outcome: Result<ChatResp, Vec<u8>>, total_ms: u32)
        requires
            old(self).wf(),
            !old(self).is_done(),
        ensures
            final(self).wf(),
            final(self).interview_id == old(self).interview_id,
            final(self).model == old(self).model,
            final(self).prompts == old(self).prompts,
            final(self).results_view() == old(self).results_view().push(
                prompt_result_of(
                    old(self).prompts_view()[old(self).results@.len() as int].id,
                    outcome_view(outcome),
                    total_ms,
                ),
            ),
    {
        let k = self.results.len();
        let res = build_prompt_result(self.prompts[k].id.as_slice(), outcome, total_ms);
        let ghost rv = res@;
        self.results.push(res);
        proof {
            assert(self.results_view() =~= old(self).results_view().push(rv));
        }
    }

    /// Assembles the interview's reply once every prompt has run.
    pub fn finish(self) -> (r: ClientMessage)
        requires
            self.wf(),
            self.is_done(),
        ensures
            r@ == (ClientMessageV::InterviewResult {
                interview_id: self.interview_id@,
                model: self.model@,
                results: self.results_view(),
            }),
    {
        ClientMessage::InterviewResult {
            interview_id: self.interview_id,
            model: self.model,
            results: self.results,
        }
    }
}

/// Law: a finished interview holds exactly one result per prompt, in script
/// order — the result at each position answers the prompt at that position,
/// whatever each outcome was.
pub proof fn lemma_interview_order(run: InterviewRun)
    requires
        run.wf(),
        run.is_done(),
    ensures
        run.results_view().len() == run.prompts_view().len(),
        forall|i: int|
            0 <= i < run.prompts_view().len() ==> run.results_view()[i].prompt_id
                == run.prompts_view()[i].id,
{
}

} // verus!
