//! The code agent: a state machine that walks a generation job through
//! Plan, Execute, Verify, Refine and ends in Done or Failed.

use vstd::prelude::*;
use crate::text::{decimal, decimal_string};

verus! {

/// Maximum number of refine iterations before refining is refused.
pub const MAX_REFINE_ITERATIONS: u8 = 2;

/// Phases of the code agent state machine.
#[derive(Debug, Clone, PartialEq)]
pub enum AgentPhase {
    /// Planning phase - analyzing the request and creating a plan.
    Plan,
    /// Execution phase - generating code based on the plan.
    Execute,
    /// Verification phase - checking the generated code.
    Verify,
    /// Refinement phase - improving code based on feedback.
    Refine { iteration: u8 },
    /// Successful completion.
    Done,
    /// Failed completion with reason.
    Failed { reason: String },
}

/// Done and Failed are the terminal phases.
pub open spec fn phase_is_terminal(p: AgentPhase) -> bool {
    p is Done || p is Failed
}

/// The progress percentage range of each phase.
pub open spec fn phase_progress_range(p: AgentPhase) -> (u8, u8) {
    match p {
        AgentPhase::Plan => (10, 25),
        AgentPhase::Execute => (25, 75),
        AgentPhase::Verify => (75, 90),
        AgentPhase::Refine { .. } => (90, 99),
        AgentPhase::Done => (100, 100),
        AgentPhase::Failed { .. } => (0, 0),
    }
}

/// The human-readable name of each phase.
pub open spec fn phase_name(p: AgentPhase) -> Seq<char> {
    match p {
        AgentPhase::Plan => "Planning"@,
        AgentPhase::Execute => "Executing"@,
        AgentPhase::Verify => "Verifying"@,
        AgentPhase::Refine { .. } => "Refining"@,
        AgentPhase::Done => "Done"@,
        AgentPhase::Failed { .. } => "Failed"@,
    }
}

impl AgentPhase {
    /// Returns true if this is a terminal phase.
    pub fn is_terminal(&self) -> (r: bool)
        ensures
            r == phase_is_terminal(*self),
    {
        match self {
            AgentPhase::Done => true,
            AgentPhase::Failed { .. } => true,
            _ => false,
        }
    }

    /// Returns the progress percentage range for this phase.
    pub fn progress_range(&self) -> (r: (u8, u8))
        ensures
            r == phase_progress_range(*self),
    {
        match self {
            AgentPhase::Plan => (10, 25),
            AgentPhase::Execute => (25, 75),
            AgentPhase::Verify => (75, 90),
            AgentPhase::Refine { .. } => (90, 99),
            AgentPhase::Done => (100, 100),
            AgentPhase::Failed { .. } => (0, 0),
        }
    }

    /// Returns a human-readable name for this phase.
    pub fn name(&self) -> (r: &'static str)
        ensures
            r@ == phase_name(*self),
    {
        match self {
            AgentPhase::Plan => "Planning",
            AgentPhase::Execute => "Executing",
            AgentPhase::Verify => "Verifying",
            AgentPhase::Refine { .. } => "Refining",
            AgentPhase::Done => "Done",
            AgentPhase::Failed { .. } => "Failed",
        }
    }
}

} // verus!

verus! {

/// The role of a chat message.
#[derive(Debug, Clone, Copy, PartialEq, Eq, Structural)]
pub enum ChatRole {
    System,
    User,
    Assistant,
}

/// One message of the agent's chat history.
#[derive(Debug, Clone, PartialEq)]
pub struct ChatMessage {
    pub role: ChatRole,
    pub content: String,
}

impl ChatMessage {
    /// A message written by the user.
    pub fn user(content: String) -> (m: ChatMessage)
        ensures
            m.role == ChatRole::User,
            m.content@ == content@,
    {
        ChatMessage { role: ChatRole::User, content }
    }
}

/// A generated code file.
#[derive(Debug, Clone, PartialEq)]
pub struct CodeFile {
    /// Relative path for the file.
    pub path: String,
    /// Programming language.
    pub language: String,
    /// Description of what the file contains.
    pub description: String,
    /// The actual code content.
    pub content: String,
}

/// What `{:?}` prints for a phase (the derived `Debug` layout).
pub open spec fn phase_debug(p: AgentPhase) -> Seq<char> {
    match p {
        AgentPhase::Plan => "Plan"@,
        AgentPhase::Execute => "Execute"@,
        AgentPhase::Verify => "Verify"@,
        AgentPhase::Refine { iteration } => "Refine { iteration: "@ + decimal(iteration as nat) + " }"@,
        AgentPhase::Done => "Done"@,
        AgentPhase::Failed { reason } => "Failed { reason: "@ + crate::text::debug_escaped(reason@)
            + " }"@,
    }
}

/// The transitions the agent may take regardless of its counters.
pub open spec fn plain_transition(from: AgentPhase, to: AgentPhase) -> bool {
    ||| (from is Plan && (to is Execute || to is Failed))
    ||| (from is Execute && (to is Verify || to is Failed))
    ||| (from is Verify && (to is Done || to is Failed))
    ||| (from is Refine && (to is Verify || to is Failed))
}

/// Why a transition from `from` (with `iters` refine iterations done) to `to`
/// is refused, or `None` when it is allowed.
pub open spec fn transition_error(from: AgentPhase, iters: u8, to: AgentPhase) -> Option<Seq<char>> {
    if plain_transition(from, to) {
        None
    } else if from is Verify && to is Refine {
        if iters >= MAX_REFINE_ITERATIONS {
            Some("Cannot transition to Refine: already at max iterations (2)"@)
        } else if to->iteration != iters + 1 {
            Some("Invalid refine iteration: expected "@ + decimal((iters + 1) as nat) + ", got "@
                + decimal(to->iteration as nat))
        } else {
            None
        }
    } else if from is Done {
        Some("Cannot transition from Done"@)
    } else if from is Failed {
        Some("Cannot transition from Failed"@)
    } else {
        Some("Invalid transition from "@ + phase_debug(from) + " to "@ + phase_debug(to))
    }
}

/// Formats a phase as `{:?}` does.
fn phase_debug_string(p: &AgentPhase) -> (r: String)
    ensures
        r@ == phase_debug(*p),
{
    match p {
        AgentPhase::Plan => String::from_str("Plan"),
        AgentPhase::Execute => String::from_str("Execute"),
        AgentPhase::Verify => String::from_str("Verify"),
        AgentPhase::Refine { iteration } => {
            let mut s = String::from_str("Refine { iteration: ");
            let d = decimal_string(*iteration as u64);
            s.append(d.as_str());
            s.append(" }");
            s
        },
        AgentPhase::Done => String::from_str("Done"),
        AgentPhase::Failed { reason } => {
            let mut s = String::from_str("Failed { reason: ");
            let d = crate::text::debug_quoted(reason.as_str());
            s.append(d.as_str());
            s.append(" }");
            s
        },
    }
}

/// Payload of a code agent job.
#[derive(Debug)]
pub struct CodeAgentOperation {
    /// The project ID.
    pub project_id: String,
    /// Target engine ("godot" or "unity").
    pub engine: String,
    /// User's prompt describing what code to generate.
    pub prompt: String,
    /// Optional specific model ID to use.
    pub model_id: Option<String>,
    /// Maximum duration in seconds.
    pub max_duration_secs: Option<u64>,
}

/// State of the code agent.
#[derive(Debug, Clone)]
pub struct AgentState {
    /// Current phase of the agent.
    pub phase: AgentPhase,
    /// The generated plan (in Plan phase) or execution plan.
    pub plan: Option<String>,
    /// Generated code files.
    pub code_files: Vec<CodeFile>,
    /// Feedback from verification.
    pub verify_feedback: Option<String>,
    /// Number of refine iterations performed.
    pub refine_iterations: u8,
    /// Chat history for context.
    pub messages: Vec<ChatMessage>,
}

impl AgentState {
    /// Creates a new AgentState with the initial prompt.
    pub fn new(initial_prompt: String) -> (s: AgentState)
        ensures
            s.phase == AgentPhase::Plan,
            s.plan is None,
            s.code_files@.len() == 0,
            s.verify_feedback is None,
            s.refine_iterations == 0,
            s.messages@.len() == 1,
            s.messages@[0].role == ChatRole::User,
            s.messages@[0].content@ == initial_prompt@,
    {
        let mut messages: Vec<ChatMessage> = Vec::new();
        messages.push(ChatMessage::user(initial_prompt));
        AgentState {
            phase: AgentPhase::Plan,
            plan: None,
            code_files: Vec::new(),
            verify_feedback: None,
            refine_iterations: 0,
            messages,
        }
    }

    /// Transitions to a new phase with validation.
    ///
    /// Returns an error if the transition is not allowed; the state is then
    /// left as it was.
    pub fn transition_to(&mut self, next_phase: AgentPhase) -> (r: Result<(), String>)
        ensures
            transition_error(old(self).phase, old(self).refine_iterations, next_phase) is None
                ==> r is Ok && final(self).phase == next_phase,
            match transition_error(old(self).phase, old(self).refine_iterations, next_phase) {
                None => r is Ok,
                Some(msg) => r matches Err(e) && e@ == msg,
            },
            r is Ok ==> final(self).phase == next_phase,
            r is Err ==> final(self).phase == old(self).phase,
            final(self).plan == old(self).plan,
            final(self).code_files@ == old(self).code_files@,
            final(self).verify_feedback == old(self).verify_feedback,
            final(self).refine_iterations == old(self).refine_iterations,
            final(self).messages@ == old(self).messages@,
    {
        let allowed: bool = match &self.phase {
            AgentPhase::Plan => match &next_phase {
                AgentPhase::Execute => true,
                AgentPhase::Failed { .. } => true,
                _ => false,
            },
            AgentPhase::Execute => match &next_phase {
                AgentPhase::Verify => true,
                AgentPhase::Failed { .. } => true,
                _ => false,
            },
            AgentPhase::Verify => match &next_phase {
                AgentPhase::Done => true,
                AgentPhase::Failed { .. } => true,
                _ => false,
            },
            AgentPhase::Refine { .. } => match &next_phase {
                AgentPhase::Verify => true,
                AgentPhase::Failed { .. } => true,
                _ => false,
            },
            _ => false,
        };
        if !allowed {
            let verify_to_refine: bool = match (&self.phase, &next_phase) {
                (AgentPhase::Verify, AgentPhase::Refine { .. }) => true,
                _ => false,
            };
            if verify_to_refine {
                let iteration: u8 = match &next_phase {
                    AgentPhase::Refine { iteration } => *iteration,
                    _ => 0,
                };
                if self.refine_iterations >= MAX_REFINE_ITERATIONS {
                    return Err(
                        String::from_str("Cannot transition to Refine: already at max iterations (2)"),
                    );
                }
                if iteration != self.refine_iterations + 1 {
                    let mut msg = String::from_str("Invalid refine iteration: expected ");
                    let expected = decimal_string((self.refine_iterations + 1) as u64);
                    msg.append(expected.as_str());
                    msg.append(", got ");
                    let got = decimal_string(iteration as u64);
                    msg.append(got.as_str());
                    return Err(msg);
                }
            } else {
                match &self.phase {
                    AgentPhase::Done => {
                        return Err(String::from_str("Cannot transition from Done"));
                    },
                    AgentPhase::Failed { .. } => {
                        return Err(String::from_str("Cannot transition from Failed"));
                    },
                    _ => {},
                }
                let mut msg = String::from_str("Invalid transition from ");
                let from = phase_debug_string(&self.phase);
                msg.append(from.as_str());
                msg.append(" to ");
                let to = phase_debug_string(&next_phase);
                msg.append(to.as_str());
                return Err(msg);
            }
        }
        self.phase = next_phase;
        Ok(())
    }

    /// Adds a message to the chat history.
    pub fn add_message(&mut self, role: ChatRole, content: String)
        ensures
            final(self).messages@ == old(self).messages@.push(ChatMessage { role, content }),
            final(self).phase == old(self).phase,
            final(self).plan == old(self).plan,
            final(self).code_files@ == old(self).code_files@,
            final(self).verify_feedback == old(self).verify_feedback,
            final(self).refine_iterations == old(self).refine_iterations,
    {
        self.messages.push(ChatMessage { role, content });
    }

    /// Increments the refine iteration counter.
    pub fn increment_refine(&mut self) -> (r: Result<(), String>)
        ensures
            old(self).refine_iterations >= MAX_REFINE_ITERATIONS ==> (r matches Err(e)
                && e@ == "Already at max refine iterations"@),
            old(self).refine_iterations >= MAX_REFINE_ITERATIONS ==> final(self).refine_iterations
                == old(self).refine_iterations,
            old(self).refine_iterations < MAX_REFINE_ITERATIONS ==> r is Ok
                && final(self).refine_iterations == old(self).refine_iterations + 1,
            final(self).phase == old(self).phase,
            final(self).plan == old(self).plan,
            final(self).code_files@ == old(self).code_files@,
            final(self).verify_feedback == old(self).verify_feedback,
            final(self).messages@ == old(self).messages@,
    {
        if self.refine_iterations >= MAX_REFINE_ITERATIONS {
            return Err(String::from_str("Already at max refine iterations"));
        }
        self.refine_iterations = self.refine_iterations + 1;
        Ok(())
    }
}

} // verus!

verus! {

/// The `path (language)` entry of one file in the verification prompt.
pub open spec fn file_entry(f: CodeFile) -> Seq<char> {
    f.path@ + " ("@ + f.language@ + ")"@
}

/// The file entries joined by `", "`.
pub open spec fn files_summary(files: Seq<CodeFile>) -> Seq<char>
    decreases files.len(),
{
    if files.len() == 0 {
        Seq::empty()
    } else if files.len() == 1 {
        file_entry(files[0])
    } else {
        files_summary(files.drop_last()) + ", "@ + file_entry(files.last())
    }
}

/// The text of an optional string, or the empty text.
pub open spec fn text_or_empty(s: Option<String>) -> Seq<char> {
    match s {
        Some(t) => t@,
        None => Seq::empty(),
    }
}

/// The system prompt the agent sends in each non-terminal phase.
pub open spec fn phase_prompt(state: AgentState, engine: Seq<char>) -> Seq<char> {
    let head = "You are an expert "@ + engine + " code developer. "@;
    match state.phase {
        AgentPhase::Plan => head
            + "Analyze the user's request and create a detailed plan for implementing the code. Output your plan as a numbered list of steps."@,
        AgentPhase::Execute => head
            + "Based on the following plan, generate the complete code implementation.\n\nPlan:\n"@
            + text_or_empty(state.plan)
            + "\n\nOutput ONLY valid JSON in this exact format:\n{\"engine\":\""@ + engine
            + "\",\"summary\":\"...\",\"files\":[{\"path\":\"...\",\"language\":\"...\",\"description\":\"...\",\"content\":\"...\"}]}"@,
        AgentPhase::Verify => head + "Review the generated code files ["@ + files_summary(
            state.code_files@,
        )
            + "] for correctness, best practices, and potential issues. Provide feedback in JSON format: {\"issues\":[\"...\"],\"score\":0-10}."@,
        AgentPhase::Refine { .. } => head
            + "Based on the following verification feedback, improve the generated code:\n\nFeedback:\n"@
            + text_or_empty(state.verify_feedback)
            + "\n\nOutput ONLY valid JSON in the same format as before."@,
        _ => Seq::empty(),
    }
}

fn optional_text(s: &Option<String>) -> (r: &str)
    ensures
        r@ == text_or_empty(*s),
{
    proof {
        reveal_strlit("");
    }
    match s {
        Some(t) => t.as_str(),
        None => "",
    }
}

fn summarize_files(files: &Vec<CodeFile>) -> (r: String)
    ensures
        r@ == files_summary(files@),
{
    let mut out = String::new();
    let mut i: usize = 0;
    while i < files.len()
        invariant
            i <= files.len(),
            out@ == files_summary(files@.take(i as int)),
        decreases files.len() - i,
    {
        assert(files@.take(i + 1).drop_last() =~= files@.take(i as int));
        if i > 0 {
            out.append(", ");
        }
        out.append(files[i].path.as_str());
        out.append(" (");
        out.append(files[i].language.as_str());
        out.append(")");
        i = i + 1;
    }
    assert(files@.take(files.len() as int) =~= files@);
    out
}

/// The prompt the agent sends next, or `None` once the phase is terminal and
/// the job loop stops. `engine` is the display name of the target engine.
pub fn next_agent_prompt(state: &AgentState, engine: &str) -> (r: Option<String>)
    ensures
        phase_is_terminal(state.phase) <==> r is None,
        r matches Some(p) ==> p@ == phase_prompt(*state, engine@),
{
    let mut head = String::from_str("You are an expert ");
    head.append(engine);
    head.append(" code developer. ");
    match &state.phase {
        AgentPhase::Plan => {
            head.append(
                "Analyze the user's request and create a detailed plan for implementing the code. Output your plan as a numbered list of steps.",
            );
            Some(head)
        },
        AgentPhase::Execute => {
            head.append(
                "Based on the following plan, generate the complete code implementation.\n\nPlan:\n",
            );
            head.append(optional_text(&state.plan));
            head.append("\n\nOutput ONLY valid JSON in this exact format:\n{\"engine\":\"");
            head.append(engine);
            head.append(
                "\",\"summary\":\"...\",\"files\":[{\"path\":\"...\",\"language\":\"...\",\"description\":\"...\",\"content\":\"...\"}]}",
            );
            Some(head)
        },
        AgentPhase::Verify => {
            head.append("Review the generated code files [");
            let summary = summarize_files(&state.code_files);
            head.append(summary.as_str());
            head.append(
                "] for correctness, best practices, and potential issues. Provide feedback in JSON format: {\"issues\":[\"...\"],\"score\":0-10}.",
            );
            Some(head)
        },
        AgentPhase::Refine { .. } => {
            head.append(
                "Based on the following verification feedback, improve the generated code:\n\nFeedback:\n",
            );
            head.append(optional_text(&state.verify_feedback));
            head.append("\n\nOutput ONLY valid JSON in the same format as before.");
            Some(head)
        },
        _ => None,
    }
}

} // verus!

verus! {

/// The Verify phase asks for refinement when the lower-cased reply mentions
/// an `"issues":` key and the reply does not hold an empty issue list.
pub open spec fn reply_needs_refine(reply: Seq<char>) -> bool {
    crate::text::contains_seq(crate::text::lowercase(reply), "\"issues\":"@)
        && !crate::text::contains_seq(reply, "\"issues\":[]"@)
}

/// The agent state invariant: the refine counter never passes its cap.
pub open spec fn agent_state_wf(s: AgentState) -> bool {
    s.refine_iterations <= MAX_REFINE_ITERATIONS
}

/// The history after the assistant's reply is recorded.
pub open spec fn with_reply(s: AgentState, reply: String) -> Seq<ChatMessage> {
    s.messages@.push(ChatMessage { role: ChatRole::Assistant, content: reply })
}

/// Whether `reply` asks for refinement (see `reply_needs_refine`).
pub fn needs_refine(reply: &str) -> (r: bool)
    ensures
        r == reply_needs_refine(reply@),
{
    let lower = crate::text::to_lowercase(reply);
    crate::text::contains_str(lower.as_str(), "\"issues\":") && !crate::text::contains_str(
        reply,
        "\"issues\":[]",
    )
}

fn prefixed(prefix: &str, e: String) -> (r: String)
    ensures
        r@ == prefix@ + e@,
{
    let mut m = String::from_str(prefix);
    m.append(e.as_str());
    m
}

/// Records the model's reply for the current (non-terminal) phase and moves
/// the agent on, as one step of the job loop does.
///
/// `parsed_files` is the file list decoded from the reply when it is valid
/// JSON of the expected shape (only the Execute and Refine phases use it).
/// An `Err` carries the job's internal error message; the loop then stops.
pub fn apply_model_reply(
    state: &mut AgentState,
    reply: String,
    parsed_files: Option<Vec<CodeFile>>,
) -> (r: Result<(), String>)
    requires
        !phase_is_terminal(old(state).phase),
        agent_state_wf(*old(state)),
    ensures
        agent_state_wf(*final(state)),
        final(state).messages@ == with_reply(*old(state), reply),
        old(state).phase is Plan ==> {
            &&& r is Ok
            &&& final(state).phase == AgentPhase::Execute
            &&& final(state).plan == Some(reply)
            &&& final(state).code_files@ == old(state).code_files@
            &&& final(state).verify_feedback == old(state).verify_feedback
            &&& final(state).refine_iterations == old(state).refine_iterations
        },
        (old(state).phase is Execute || old(state).phase is Refine) ==> {
            &&& r is Ok
            &&& final(state).phase == AgentPhase::Verify
            &&& final(state).plan == old(state).plan
            &&& final(state).code_files@ == (match parsed_files {
                Some(f) => f@,
                None => old(state).code_files@,
            })
            &&& final(state).verify_feedback == old(state).verify_feedback
            &&& final(state).refine_iterations == old(state).refine_iterations
        },
        old(state).phase is Verify ==> {
            &&& final(state).plan == old(state).plan
            &&& final(state).code_files@ == old(state).code_files@
            &&& final(state).verify_feedback == Some(reply)
        },
        old(state).phase is Verify && !reply_needs_refine(reply@) ==> {
            &&& r is Ok
            &&& final(state).phase == AgentPhase::Done
            &&& final(state).refine_iterations == old(state).refine_iterations
        },
        old(state).phase is Verify && reply_needs_refine(reply@) && old(state).refine_iterations
            >= MAX_REFINE_ITERATIONS ==> {
            &&& r matches Err(e) && e@ == "Phase transition error: "@
                + "Cannot transition to Refine: already at max iterations (2)"@
            &&& final(state).phase == AgentPhase::Verify
            &&& final(state).refine_iterations == old(state).refine_iterations
        },
        old(state).phase is Verify && reply_needs_refine(reply@) && old(state).refine_iterations
            < MAX_REFINE_ITERATIONS ==> {
            &&& r is Ok
            &&& final(state).phase == (AgentPhase::Refine { iteration: (old(state).refine_iterations + 1) as u8 })
            &&& final(state).refine_iterations == old(state).refine_iterations + 1
        },
{
    let reply_copy = reply.clone();
    match &state.phase {
        AgentPhase::Plan => {
            state.add_message(ChatRole::Assistant, reply);
            state.plan = Some(reply_copy);
            let t = state.transition_to(AgentPhase::Execute);
            assert(t is Ok);
            Ok(())
        },
        AgentPhase::Execute | AgentPhase::Refine { .. } => {
            state.add_message(ChatRole::Assistant, reply);
            match parsed_files {
                Some(files) => {
                    state.code_files = files;
                },
                None => {},
            }
            let t = state.transition_to(AgentPhase::Verify);
            assert(t is Ok);
            Ok(())
        },
        AgentPhase::Verify => {
            let refine = needs_refine(reply.as_str());
            state.add_message(ChatRole::Assistant, reply);
            state.verify_feedback = Some(reply_copy);
            if refine {
                if state.refine_iterations >= MAX_REFINE_ITERATIONS {
                    let t = state.transition_to(AgentPhase::Refine { iteration: MAX_REFINE_ITERATIONS });
                    return match t {
                        Ok(()) => Ok(()),
                        Err(e) => Err(prefixed("Phase transition error: ", e)),
                    };
                }
                let new_iteration: u8 = state.refine_iterations + 1;
                match state.transition_to(AgentPhase::Refine { iteration: new_iteration }) {
                    Ok(()) => {},
                    Err(e) => {
                        return Err(prefixed("Phase transition error: ", e));
                    },
                }
                match state.increment_refine() {
                    Ok(()) => Ok(()),
                    Err(e) => Err(prefixed("Refine iteration error: ", e)),
                }
            } else {
                let t = state.transition_to(AgentPhase::Done);
                assert(t is Ok);
                Ok(())
            }
        },
        _ => Ok(()),
    }
}


/// Done and Failed are final: no transition leaves them.
pub proof fn lemma_terminal_absorbs(from: AgentPhase, iters: u8, to: AgentPhase)
    requires
        phase_is_terminal(from),
    ensures
        transition_error(from, iters, to) is Some,
{
}

/// Once the agent has refined the maximum number of times, it cannot enter
/// Refine again.
pub proof fn lemma_refine_capped(iters: u8, iteration: u8)
    requires
        iters >= MAX_REFINE_ITERATIONS,
    ensures
        transition_error(AgentPhase::Verify, iters, AgentPhase::Refine { iteration }) is Some,
{
}

/// Every phase but Done and Failed can always fail.
pub proof fn lemma_can_always_fail(from: AgentPhase, iters: u8, reason: String)
    requires
        !phase_is_terminal(from),
    ensures
        transition_error(from, iters, AgentPhase::Failed { reason }) is None,
{
}

} // verus!
