//! The conversation between a model and its tools, as a state machine.
//!
//! The machine never calls anything itself.  It says what is to be done
//! next, a model call or a tool run, and takes what came of it as an event.
//! The number of rounds is bounded by a cap that is set at the start.

use crate::agent::tool_calls::{
    complete_tool_call, concluded, find_tool, format_tool_result, formatted_result,
    lemma_position_in_range, not_found, not_found_result, parse_tool_calls, parsed_calls,
    position, ToolCall, ToolCallView, MAX_TOOL_ITERATIONS,
};
use crate::text::{join, joined};
use crate::tools::{ToolResult, ToolResultView};
use vstd::prelude::*;

verus! {

/// What stays the same through a conversation.
pub struct Setup {
    /// The names of the tools, in the order of the registry.
    pub registry: Seq<Seq<char>>,
    /// The most rounds of tool calls that the conversation may take.
    pub cap: nat,
    /// The message that the conversation started from.
    pub first_message: Seq<char>,
}

/// Where a conversation stands.
pub enum PhaseView {
    /// The model is to be called with `prompt`.
    Requesting { prompt: Seq<char> },
    /// The tool at `tool` is to be run for `calls[next]`; `encodings` holds
    /// the rendered results of the calls before it.
    Executing { calls: Seq<ToolCallView>, next: int, tool: int, encodings: Seq<Seq<char>> },
    /// The conversation is over, with this answer.
    Done { answer: Seq<char> },
    /// The conversation was given up because the model could not be
    /// reached.
    Failed { cause: Seq<char> },
}

/// The mathematical content of a `Conversation`.
pub struct ConversationView {
    pub setup: Setup,
    /// The rounds of tool calls that are complete.
    pub iteration: nat,
    pub phase: PhaseView,
}

/// The mathematical content of an `Event`.
pub enum EventView {
    ModelReply(Seq<char>),
    ModelFailure(Seq<char>),
    ToolOutcome(Result<ToolResultView, Seq<char>>),
}

/// The mathematical content of an `Action`.
pub enum ActionView {
    CallModel { prompt: Seq<char> },
    RunTool { tool: int, call: ToolCallView },
    Finish { answer: Seq<char> },
    Abort { cause: Seq<char> },
}

/// The prompt after a round of tool calls: the first message and the
/// results of this round, and of no round before it.
pub open spec fn follow_up(first_message: Seq<char>, results: Seq<char>) -> Seq<char> {
    "Previous message: "@ + first_message + "\n\nTool execution results:\n"@ + results
        + "\n\nPlease continue based on these tool results."@
}

/// The state on the way to the next model call: once the cap is reached
/// the conversation is over instead, with an empty answer.
pub open spec fn request(setup: Setup, iteration: nat, prompt: Seq<char>) -> ConversationView {
    if iteration >= setup.cap {
        ConversationView { setup, iteration, phase: PhaseView::Done { answer: Seq::empty() } }
    } else {
        ConversationView { setup, iteration, phase: PhaseView::Requesting { prompt } }
    }
}

/// The state at the start of a conversation.
pub open spec fn start(message: Seq<char>, registry: Seq<Seq<char>>, cap: nat) -> ConversationView {
    request(Setup { registry, cap, first_message: message }, 0, message)
}

/// The state once the calls from `next` on are taken up, in order.  A call
/// whose tool the registry lacks is answered on the spot; the first call
/// whose tool is there waits for that tool to be run.  When no call is left
/// the round is complete and the next prompt is made of its results.
pub open spec fn advance(
    setup: Setup,
    iteration: nat,
    calls: Seq<ToolCallView>,
    next: int,
    encodings: Seq<Seq<char>>,
) -> ConversationView
    decreases calls.len() - next,
{
    if next < 0 || next >= calls.len() {
        request(setup, iteration + 1, follow_up(setup.first_message, joined(encodings, "\n\n"@)))
    } else {
        match position(setup.registry, calls[next].name, 0) {
            Some(tool) => ConversationView {
                setup,
                iteration,
                phase: PhaseView::Executing { calls, next, tool, encodings },
            },
            None => advance(
                setup,
                iteration,
                calls,
                next + 1,
                encodings.push(formatted_result(calls[next], not_found(calls[next].name))),
            ),
        }
    }
}

/// Something to show of what a step did.
pub enum NoticeView {
    /// A round of this many calls begins.
    Round { calls: nat },
    /// This call is taken up.
    Call { call: ToolCallView },
    /// This is how the call before went.
    Outcome { text: Seq<char> },
}

/// What there is to show of taking up the calls from `next` on: each call,
/// with its outcome where its tool is not there, up to the first call whose
/// tool is to be run.
pub open spec fn advance_notices(
    registry: Seq<Seq<char>>,
    calls: Seq<ToolCallView>,
    next: int,
) -> Seq<NoticeView>
    decreases calls.len() - next,
{
    if next < 0 || next >= calls.len() {
        Seq::empty()
    } else {
        match position(registry, calls[next].name, 0) {
            Some(_) => seq![NoticeView::Call { call: calls[next] }],
            None => seq![
                NoticeView::Call { call: calls[next] },
                NoticeView::Outcome {
                    text: formatted_result(calls[next], not_found(calls[next].name)),
                },
            ] + advance_notices(registry, calls, next + 1),
        }
    }
}

impl ConversationView {
    /// The state after an event.  A reply of the model without tool calls is
    /// the answer; one with calls starts a round.  A model call that failed
    /// ends the conversation: it is not tried again and is no tool result.
    /// The outcome of a tool run is rendered and the round goes on.  An
    /// event that the state does not wait for changes nothing.
    pub open spec fn step(self, event: EventView) -> ConversationView {
        match (self.phase, event) {
            (PhaseView::Requesting { .. }, EventView::ModelReply(text)) => {
                if parsed_calls(text).len() == 0 {
                    ConversationView {
                        setup: self.setup,
                        iteration: self.iteration,
                        phase: PhaseView::Done { answer: text },
                    }
                } else {
                    advance(self.setup, self.iteration, parsed_calls(text), 0, Seq::empty())
                }
            },
            (PhaseView::Requesting { .. }, EventView::ModelFailure(cause)) => ConversationView {
                setup: self.setup,
                iteration: self.iteration,
                phase: PhaseView::Failed { cause },
            },
            (
                PhaseView::Executing { calls, next, tool, encodings },
                EventView::ToolOutcome(outcome),
            ) => advance(
                self.setup,
                self.iteration,
                calls,
                next + 1,
                encodings.push(formatted_result(calls[next], concluded(outcome))),
            ),
            _ => self,
        }
    }

    /// What there is to show of the step that an event causes: the round
    /// that a reply with calls begins, the outcome of the tool run that an
    /// outcome ends, and the calls taken up after either.
    pub open spec fn notices(self, event: EventView) -> Seq<NoticeView> {
        match (self.phase, event) {
            (PhaseView::Requesting { .. }, EventView::ModelReply(text)) => {
                if parsed_calls(text).len() == 0 {
                    Seq::empty()
                } else {
                    seq![NoticeView::Round { calls: parsed_calls(text).len() }] + advance_notices(
                        self.setup.registry,
                        parsed_calls(text),
                        0,
                    )
                }
            },
            (
                PhaseView::Executing { calls, next, tool, encodings },
                EventView::ToolOutcome(outcome),
            ) => seq![
                NoticeView::Outcome { text: formatted_result(calls[next], concluded(outcome)) },
            ] + advance_notices(self.setup.registry, calls, next + 1),
            _ => Seq::empty(),
        }
    }

    /// What the state asks for.
    pub open spec fn action(self) -> ActionView {
        match self.phase {
            PhaseView::Requesting { prompt } => ActionView::CallModel { prompt },
            PhaseView::Executing { calls, next, tool, .. } => ActionView::RunTool {
                tool,
                call: calls[next],
            },
            PhaseView::Done { answer } => ActionView::Finish { answer },
            PhaseView::Failed { cause } => ActionView::Abort { cause },
        }
    }

    /// A state that waits for something is below the cap, and one that
    /// waits for a tool names a call of the round and a tool of the registry.
    pub open spec fn well_formed(self) -> bool {
        match self.phase {
            PhaseView::Requesting { .. } => self.iteration < self.setup.cap,
            PhaseView::Executing { calls, next, tool, .. } => {
                &&& self.iteration < self.setup.cap
                &&& 0 <= next < calls.len()
                &&& 0 <= tool < self.setup.registry.len()
            },
            PhaseView::Done { .. } => true,
            PhaseView::Failed { .. } => true,
        }
    }
}

/// Where a conversation stands.
enum Phase {
    /// The model is to be called with `prompt`.
    Requesting { prompt: String },
    /// The tool at `tool` is to be run for `calls[next]`.
    Executing { calls: Vec<ToolCall>, next: usize, tool: usize, encodings: Vec<String> },
    /// The conversation is over, with this answer.
    Done { answer: String },
    /// The conversation was given up because the model could not be
    /// reached.
    Failed { cause: String },
}

impl View for Phase {
    type V = PhaseView;

    closed spec fn view(&self) -> PhaseView {
        match self {
            Phase::Requesting { prompt } => PhaseView::Requesting { prompt: prompt@ },
            Phase::Executing { calls, next, tool, encodings } => PhaseView::Executing {
                calls: calls.deep_view(),
                next: *next as int,
                tool: *tool as int,
                encodings: encodings.deep_view(),
            },
            Phase::Done { answer } => PhaseView::Done { answer: answer@ },
            Phase::Failed { cause } => PhaseView::Failed { cause: cause@ },
        }
    }
}

/// What came of the action that a conversation asked for.
#[derive(Debug, PartialEq, Eq)]
pub enum Event {
    /// The model's reply to the prompt.
    ModelReply(String),
    /// The model call failed, for this cause.
    ModelFailure(String),
    /// The outcome of the tool run: the tool's result, or the cause of its
    /// failure.
    ToolOutcome(Result<ToolResult, String>),
}

impl View for Event {
    type V = EventView;

    open spec fn view(&self) -> EventView {
        match self {
            Event::ModelReply(text) => EventView::ModelReply(text@),
            Event::ModelFailure(cause) => EventView::ModelFailure(cause@),
            Event::ToolOutcome(outcome) => EventView::ToolOutcome(
                match outcome {
                    Ok(result) => Ok(result@),
                    Err(cause) => Err(cause@),
                },
            ),
        }
    }
}

/// What a conversation asks its caller to do next.
#[derive(Debug, PartialEq, Eq)]
pub enum Action {
    /// Call the model with this prompt and hand back its reply.
    CallModel { prompt: String },
    /// Run the tool at `tool` in the registry with the arguments of `call`
    /// and hand back the outcome.
    RunTool { tool: usize, call: ToolCall },
    /// Nothing more: this is the answer.
    Finish { answer: String },
    /// Nothing more: the model call failed, and this cause goes to whoever
    /// asked.
    Abort { cause: String },
}

impl View for Action {
    type V = ActionView;

    open spec fn view(&self) -> ActionView {
        match self {
            Action::CallModel { prompt } => ActionView::CallModel { prompt: prompt@ },
            Action::RunTool { tool, call } => ActionView::RunTool {
                tool: *tool as int,
                call: call@,
            },
            Action::Finish { answer } => ActionView::Finish { answer: answer@ },
            Action::Abort { cause } => ActionView::Abort { cause: cause@ },
        }
    }
}

/// Something to show of what a step did.
#[derive(Debug, PartialEq, Eq)]
pub enum Notice {
    /// A round of this many calls begins.
    Round { calls: usize },
    /// This call is taken up.
    Call { call: ToolCall },
    /// This is how the call before went.
    Outcome { text: String },
}

impl View for Notice {
    type V = NoticeView;

    open spec fn view(&self) -> NoticeView {
        match self {
            Notice::Round { calls } => NoticeView::Round { calls: *calls as nat },
            Notice::Call { call } => NoticeView::Call { call: call@ },
            Notice::Outcome { text } => NoticeView::Outcome { text: text@ },
        }
    }
}

impl DeepView for Notice {
    type V = NoticeView;

    open spec fn deep_view(&self) -> NoticeView {
        self@
    }
}

/// A conversation between a model and its tools.
pub struct Conversation {
    registry: Vec<String>,
    cap: usize,
    first_message: String,
    iteration: usize,
    phase: Phase,
}

impl View for Conversation {
    type V = ConversationView;

    closed spec fn view(&self) -> ConversationView {
        ConversationView {
            setup: Setup {
                registry: self.registry.deep_view(),
                cap: self.cap as nat,
                first_message: self.first_message@,
            },
            iteration: self.iteration as nat,
            phase: self.phase@,
        }
    }
}

/// Makes the prompt that follows a round of tool calls.
pub fn follow_up_prompt(first_message: &str, results: &str) -> (prompt: String)
    ensures
        prompt@ == follow_up(first_message@, results@),
{
    let mut prompt = "Previous message: ".to_owned();
    prompt.append(first_message);
    prompt.append("\n\nTool execution results:\n");
    prompt.append(results);
    prompt.append("\n\nPlease continue based on these tool results.");
    prompt
}

impl Conversation {
    #[verifier::type_invariant]
    spec fn sound(self) -> bool {
        self@.well_formed()
    }

    /// The state on the way to the next model call.
    fn request(
        registry: Vec<String>,
        cap: usize,
        first_message: String,
        iteration: usize,
        prompt: String,
    ) -> (conversation: Conversation)
        ensures
            conversation@ == request(
                Setup {
                    registry: registry.deep_view(),
                    cap: cap as nat,
                    first_message: first_message@,
                },
                iteration as nat,
                prompt@,
            ),
    {
        if iteration >= cap {
            Conversation {
                registry,
                cap,
                first_message,
                iteration,
                phase: Phase::Done { answer: String::new() },
            }
        } else {
            Conversation {
                registry,
                cap,
                first_message,
                iteration,
                phase: Phase::Requesting { prompt },
            }
        }
    }

    /// Takes up the calls of a round from `first` on; `rendered` holds the
    /// rendered results of the calls before it.
    #[verifier::loop_isolation(false)]
    fn advance(
        registry: Vec<String>,
        cap: usize,
        first_message: String,
        iteration: usize,
        calls: Vec<ToolCall>,
        first: usize,
        rendered: Vec<String>,
    ) -> (conversation: Conversation)
        requires
            iteration < cap,
        ensures
            conversation@ == advance(
                Setup {
                    registry: registry.deep_view(),
                    cap: cap as nat,
                    first_message: first_message@,
                },
                iteration as nat,
                calls.deep_view(),
                first as int,
                rendered.deep_view(),
            ),
    {
        let ghost setup = Setup {
            registry: registry.deep_view(),
            cap: cap as nat,
            first_message: first_message@,
        };
        let ghost target = advance(
            setup,
            iteration as nat,
            calls.deep_view(),
            first as int,
            rendered.deep_view(),
        );
        let mut next = first;
        let mut encodings = rendered;
        while next < calls.len()
            invariant
                iteration < cap,
                setup == (Setup {
                    registry: registry.deep_view(),
                    cap: cap as nat,
                    first_message: first_message@,
                }),
                target == advance(
                    setup,
                    iteration as nat,
                    calls.deep_view(),
                    next as int,
                    encodings.deep_view(),
                ),
            decreases calls.len() - next,
        {
            assert(calls.deep_view()[next as int] == calls@[next as int]@);
            match find_tool(&registry, calls[next].name.as_str()) {
                Some(tool) => {
                    let conversation = Conversation {
                        registry,
                        cap,
                        first_message,
                        iteration,
                        phase: Phase::Executing { calls, next, tool, encodings },
                    };
                    return conversation;
                },
                None => {
                    let ghost before = encodings.deep_view();
                    let result = not_found_result(calls[next].name.as_str());
                    let encoded = format_tool_result(&calls[next], &result);
                    encodings.push(encoded);
                    assert(encodings.deep_view() =~= before.push(encoded@));
                    next += 1;
                },
            }
        }
        let results = join(&encodings, "\n\n");
        let prompt = follow_up_prompt(first_message.as_str(), results.as_str());
        Conversation::request(registry, cap, first_message, iteration + 1, prompt)
    }

    /// Starts a conversation from a user's message, with the names of the
    /// tools in the order of the registry and the cap on the rounds.
    pub fn new(message: &str, registry: Vec<String>, cap: usize) -> (conversation: Conversation)
        ensures
            conversation@ == start(message@, registry.deep_view(), cap as nat),
    {
        Conversation::request(registry, cap, message.to_owned(), 0, message.to_owned())
    }

    /// The state after an event.
    pub fn step(self, event: Event) -> (after: Conversation)
        ensures
            after@ == self@.step(event@),
    {
        proof {
            use_type_invariant(&self);
        }
        let ghost before = self@;
        let Conversation { registry, cap, first_message, iteration, phase } = self;
        assert(before.phase == phase@);
        match phase {
            Phase::Requesting { prompt } => match event {
                Event::ModelReply(text) => {
                    let calls = parse_tool_calls(text.as_str());
                    if calls.len() == 0 {
                        Conversation {
                            registry,
                            cap,
                            first_message,
                            iteration,
                            phase: Phase::Done { answer: text },
                        }
                    } else {
                        let encodings: Vec<String> = Vec::new();
                        assert(encodings.deep_view() =~= Seq::empty());
                        Conversation::advance(
                            registry,
                            cap,
                            first_message,
                            iteration,
                            calls,
                            0,
                            encodings,
                        )
                    }
                },
                Event::ModelFailure(cause) => Conversation {
                    registry,
                    cap,
                    first_message,
                    iteration,
                    phase: Phase::Failed { cause },
                },
                Event::ToolOutcome(_) => Conversation {
                    registry,
                    cap,
                    first_message,
                    iteration,
                    phase: Phase::Requesting { prompt },
                },
            },
            Phase::Executing { calls, next, tool, encodings } => match event {
                Event::ToolOutcome(outcome) => {
                    assert(calls.deep_view().len() == calls.len());
                    assert(calls.deep_view()[next as int] == calls@[next as int]@);
                    let ghost before = encodings.deep_view();
                    let mut encodings = encodings;
                    let result = complete_tool_call(outcome);
                    let encoded = format_tool_result(&calls[next], &result);
                    encodings.push(encoded);
                    assert(encodings.deep_view() =~= before.push(encoded@));
                    Conversation::advance(
                        registry,
                        cap,
                        first_message,
                        iteration,
                        calls,
                        next + 1,
                        encodings,
                    )
                },
                _ => Conversation {
                    registry,
                    cap,
                    first_message,
                    iteration,
                    phase: Phase::Executing { calls, next, tool, encodings },
                },
            },
            Phase::Done { answer } => Conversation {
                registry,
                cap,
                first_message,
                iteration,
                phase: Phase::Done { answer },
            },
            Phase::Failed { cause } => Conversation {
                registry,
                cap,
                first_message,
                iteration,
                phase: Phase::Failed { cause },
            },
        }
    }

    /// Adds what there is to show of taking up the calls from `first` on.
    #[verifier::loop_isolation(false)]
    fn advance_notices(
        registry: &Vec<String>,
        calls: &Vec<ToolCall>,
        first: usize,
        notices: &mut Vec<Notice>,
    )
        ensures
            final(notices).deep_view() == old(notices).deep_view() + advance_notices(
                registry.deep_view(),
                calls.deep_view(),
                first as int,
            ),
    {
        let ghost target = old(notices).deep_view() + advance_notices(
            registry.deep_view(),
            calls.deep_view(),
            first as int,
        );
        let mut next = first;
        assert(notices.deep_view() + Seq::<NoticeView>::empty() =~= notices.deep_view());
        while next < calls.len()
            invariant
                target == notices.deep_view() + advance_notices(
                    registry.deep_view(),
                    calls.deep_view(),
                    next as int,
                ),
            decreases calls.len() - next,
        {
            let ghost before = notices.deep_view();
            let ghost rest = advance_notices(registry.deep_view(), calls.deep_view(), next + 1);
            assert(calls.deep_view()[next as int] == calls@[next as int]@);
            let call = calls[next].clone();
            notices.push(Notice::Call { call });
            assert(notices.deep_view() =~= before.push(NoticeView::Call { call: call@ }));
            match find_tool(registry, calls[next].name.as_str()) {
                Some(_) => {
                    assert(target =~= notices.deep_view());
                    return ;
                },
                None => {
                    let result = not_found_result(calls[next].name.as_str());
                    let text = format_tool_result(&calls[next], &result);
                    notices.push(Notice::Outcome { text });
                    assert(notices.deep_view() =~= before.push(
                        NoticeView::Call { call: call@ },
                    ).push(NoticeView::Outcome { text: text@ }));
                    assert(target =~= notices.deep_view() + rest);
                    next += 1;
                },
            }
        }
        assert(target =~= notices.deep_view());
    }

    /// What there is to show of the step that `event` will cause, in the
    /// order in which it happens.
    pub fn notices(&self, event: &Event) -> (notices: Vec<Notice>)
        ensures
            notices.deep_view() == self@.notices(event@),
    {
        proof {
            use_type_invariant(self);
        }
        let mut notices: Vec<Notice> = Vec::new();
        assert(notices.deep_view() =~= Seq::empty());
        match (&self.phase, event) {
            (Phase::Requesting { .. }, Event::ModelReply(text)) => {
                let calls = parse_tool_calls(text.as_str());
                if calls.len() > 0 {
                    notices.push(Notice::Round { calls: calls.len() });
                    assert(notices.deep_view() =~= seq![
                        NoticeView::Round { calls: calls.len() as nat },
                    ]);
                    Conversation::advance_notices(&self.registry, &calls, 0, &mut notices);
                }
            },
            (Phase::Executing { calls, next, .. }, Event::ToolOutcome(outcome)) => {
                assert(self@.phase == self.phase@);
                assert(calls.deep_view().len() == calls.len());
                assert(*next < calls.len());
                assert(calls.deep_view()[*next as int] == calls@[*next as int]@);
                let given: Result<ToolResult, String> = match outcome {
                    Ok(result) => Ok(result.clone()),
                    Err(cause) => Err(cause.clone()),
                };
                let result = complete_tool_call(given);
                let text = format_tool_result(&calls[*next], &result);
                notices.push(Notice::Outcome { text });
                assert(notices.deep_view() =~= seq![NoticeView::Outcome { text: text@ }]);
                Conversation::advance_notices(&self.registry, calls, *next + 1, &mut notices);
            },
            _ => {},
        }
        notices
    }

    /// What the caller is to do next.
    pub fn action(&self) -> (action: Action)
        ensures
            action@ == self@.action(),
    {
        proof {
            use_type_invariant(self);
        }
        match &self.phase {
            Phase::Requesting { prompt } => Action::CallModel { prompt: prompt.clone() },
            Phase::Executing { calls, next, tool, .. } => Action::RunTool {
                tool: *tool,
                call: calls[*next].clone(),
            },
            Phase::Done { answer } => Action::Finish { answer: answer.clone() },
            Phase::Failed { cause } => Action::Abort { cause: cause.clone() },
        }
    }

    /// The rounds of tool calls that are complete.
    pub fn iteration(&self) -> (rounds: usize)
        ensures
            rounds == self@.iteration,
    {
        self.iteration
    }

    /// Whether the conversation is over.
    pub fn is_done(&self) -> (done: bool)
        ensures
            done == (self@.phase is Done),
    {
        match &self.phase {
            Phase::Done { .. } => true,
            _ => false,
        }
    }
}

/// The state that a run of events leads to.
pub open spec fn state_after(from: ConversationView, events: Seq<EventView>) -> ConversationView
    decreases events.len(),
{
    if events.len() == 0 {
        from
    } else {
        state_after(from, events.drop_last()).step(events.last())
    }
}

/// How many model calls a run of events completes: the replies that come
/// while the conversation waits for one.
pub open spec fn model_calls(from: ConversationView, events: Seq<EventView>) -> nat
    decreases events.len(),
{
    if events.len() == 0 {
        0
    } else {
        let before = model_calls(from, events.drop_last());
        if state_after(from, events.drop_last()).phase is Requesting
            && events.last() is ModelReply {
            before + 1
        } else {
            before
        }
    }
}

/// The model never fails in the run, and every reply of it holds a tool
/// call.
pub open spec fn always_calls(events: Seq<EventView>) -> bool {
    forall|i: int|
        0 <= i < events.len() ==> match #[trigger] events[i] {
            EventView::ModelReply(text) => parsed_calls(text).len() > 0,
            EventView::ModelFailure(_) => false,
            EventView::ToolOutcome(_) => true,
        }
}

/// How the count of model calls goes with the state.  With `strict`, for
/// runs in which the model never fails and always calls tools, the
/// conversation can only end at the cap.
spec fn counted(state: ConversationView, taken: nat, strict: bool) -> bool {
    &&& state.well_formed()
    &&& match state.phase {
        PhaseView::Requesting { .. } => taken == state.iteration,
        PhaseView::Executing { .. } => taken == state.iteration + 1,
        PhaseView::Done { answer } => if strict {
            taken == state.iteration == state.setup.cap && answer.len() == 0
        } else {
            state.iteration <= taken <= state.setup.cap
        },
        PhaseView::Failed { .. } => !strict && taken == state.iteration < state.setup.cap,
    }
}

/// Taking up calls keeps the setup, and either waits for a tool within the
/// same round or completes the round.
proof fn lemma_advance_completes_round(
    setup: Setup,
    iteration: nat,
    calls: Seq<ToolCallView>,
    next: int,
    encodings: Seq<Seq<char>>,
    strict: bool,
)
    requires
        iteration < setup.cap,
    ensures
        advance(setup, iteration, calls, next, encodings).setup == setup,
        counted(advance(setup, iteration, calls, next, encodings), iteration + 1, strict),
    decreases calls.len() - next,
{
    if next < 0 || next >= calls.len() {
    } else {
        match position(setup.registry, calls[next].name, 0) {
            Some(tool) => {
                lemma_position_in_range(setup.registry, calls[next].name, 0);
            },
            None => {
                lemma_advance_completes_round(
                    setup,
                    iteration,
                    calls,
                    next + 1,
                    encodings.push(formatted_result(calls[next], not_found(calls[next].name))),
                    strict,
                );
            },
        }
    }
}

/// The induction behind the laws of the cap.
proof fn lemma_run_counted(from: ConversationView, events: Seq<EventView>, strict: bool)
    requires
        counted(from, 0, strict),
        strict ==> always_calls(events),
    ensures
        state_after(from, events).setup == from.setup,
        counted(state_after(from, events), model_calls(from, events), strict),
    decreases events.len(),
{
    if events.len() > 0 {
        let earlier = events.drop_last();
        if strict {
            assert(always_calls(earlier)) by {
                assert forall|i: int| 0 <= i < earlier.len() implies match #[trigger] earlier[i] {
                    EventView::ModelReply(text) => parsed_calls(text).len() > 0,
                    EventView::ModelFailure(_) => false,
                    EventView::ToolOutcome(_) => true,
                } by {
                    assert(earlier[i] == events[i]);
                }
            }
        }
        lemma_run_counted(from, earlier, strict);
        let state = state_after(from, earlier);
        let event = events.last();
        assert(event == events[events.len() - 1]);
        match (state.phase, event) {
            (PhaseView::Requesting { .. }, EventView::ModelReply(text)) => {
                lemma_advance_completes_round(
                    state.setup,
                    state.iteration,
                    parsed_calls(text),
                    0,
                    Seq::empty(),
                    strict,
                );
            },
            (
                PhaseView::Executing { calls, next, tool, encodings },
                EventView::ToolOutcome(outcome),
            ) => {
                lemma_advance_completes_round(
                    state.setup,
                    state.iteration,
                    calls,
                    next + 1,
                    encodings.push(formatted_result(calls[next], concluded(outcome))),
                    strict,
                );
            },
            _ => {},
        }
    }
}

/// Whatever comes in, a conversation keeps its registry, its cap and its
/// first message, never completes more rounds or more model calls than
/// its cap, and waits only for what it is able to take.
pub proof fn lemma_run_stays_within_cap(
    message: Seq<char>,
    registry: Seq<Seq<char>>,
    cap: nat,
    events: Seq<EventView>,
)
    ensures
        state_after(start(message, registry, cap), events).setup == (Setup {
            registry,
            cap,
            first_message: message,
        }),
        state_after(start(message, registry, cap), events).well_formed(),
        state_after(start(message, registry, cap), events).iteration <= cap,
        model_calls(start(message, registry, cap), events) <= cap,
{
    lemma_run_counted(start(message, registry, cap), events, false);
}

/// While the model never fails and every reply of it holds tool calls, a
/// conversation asks for another model call only while it has completed
/// fewer than its cap, and when it is over it has completed exactly as
/// many as the cap; its answer is then empty.
pub proof fn lemma_cap_counts_model_calls(
    message: Seq<char>,
    registry: Seq<Seq<char>>,
    cap: nat,
    events: Seq<EventView>,
)
    requires
        always_calls(events),
    ensures
        model_calls(start(message, registry, cap), events) <= cap,
        state_after(start(message, registry, cap), events).phase is Done ==> model_calls(
            start(message, registry, cap),
            events,
        ) == cap,
        state_after(start(message, registry, cap), events).phase is Requesting ==> model_calls(
            start(message, registry, cap),
            events,
        ) < cap,
        state_after(start(message, registry, cap), events).phase matches PhaseView::Done { answer }
            ==> answer.len() == 0,
        !(state_after(start(message, registry, cap), events).phase is Failed),
{
    lemma_run_counted(start(message, registry, cap), events, true);
}

/// With the cap of `MAX_TOOL_ITERATIONS`, a conversation whose model
/// always replies with tool calls is over after exactly that many model
/// calls.
pub proof fn lemma_default_cap_model_calls(
    message: Seq<char>,
    registry: Seq<Seq<char>>,
    events: Seq<EventView>,
)
    requires
        always_calls(events),
        state_after(start(message, registry, MAX_TOOL_ITERATIONS as nat), events).phase is Done,
    ensures
        model_calls(start(message, registry, MAX_TOOL_ITERATIONS as nat), events) == 10,
{
    lemma_cap_counts_model_calls(message, registry, MAX_TOOL_ITERATIONS as nat, events);
}

/// One entry that the memory recalled for a message.
#[derive(Debug, PartialEq, Eq)]
pub struct MemoryEntry {
    pub key: String,
    pub content: String,
}

/// The mathematical content of a `MemoryEntry`.
pub struct MemoryEntryView {
    pub key: Seq<char>,
    pub content: Seq<char>,
}

impl View for MemoryEntry {
    type V = MemoryEntryView;

    open spec fn view(&self) -> MemoryEntryView {
        MemoryEntryView { key: self.key@, content: self.content@ }
    }
}

impl DeepView for MemoryEntry {
    type V = MemoryEntryView;

    open spec fn deep_view(&self) -> MemoryEntryView {
        self@
    }
}

/// One line for each entry: a dash, the key, a colon and the content.
pub open spec fn context_lines(entries: Seq<MemoryEntryView>) -> Seq<char>
    decreases entries.len(),
{
    if entries.len() == 0 {
        Seq::empty()
    } else {
        context_lines(entries.drop_last()) + "- "@ + entries.last().key + ": "@
            + entries.last().content + "\n"@
    }
}

/// The preamble that puts recalled entries before a message: a heading,
/// the lines of the entries and an empty line.  Without entries it is empty.
pub open spec fn memory_context(entries: Seq<MemoryEntryView>) -> Seq<char> {
    if entries.len() == 0 {
        Seq::empty()
    } else {
        "[Memory context]\n"@ + context_lines(entries) + "\n"@
    }
}

/// Builds the preamble for a message from what the memory recalled for it.
pub fn build_context(entries: &Vec<MemoryEntry>) -> (context: String)
    ensures
        context@ == memory_context(entries.deep_view()),
{
    let mut context = String::new();
    if entries.len() > 0 {
        let ghost all = entries.deep_view();
        context.append("[Memory context]\n");
        let mut i: usize = 0;
        assert(all.subrange(0, 0) =~= Seq::empty());
        assert("[Memory context]\n"@ + context_lines(all.subrange(0, 0)) =~= "[Memory context]\n"@);
        while i < entries.len()
            invariant
                i <= entries.len(),
                all == entries.deep_view(),
                context@ == "[Memory context]\n"@ + context_lines(all.subrange(0, i as int)),
            decreases entries.len() - i,
        {
            let ghost before = context@;
            assert(all.subrange(0, i + 1).drop_last() =~= all.subrange(0, i as int));
            assert(all.subrange(0, i + 1).last() == entries@[i as int]@);
            context.append("- ");
            context.append(entries[i].key.as_str());
            context.append(": ");
            context.append(entries[i].content.as_str());
            context.append("\n");
            assert(context@ =~= "[Memory context]\n"@ + context_lines(all.subrange(0, i + 1)));
            i += 1;
        }
        assert(all.subrange(0, all.len() as int) =~= all);
        context.append("\n");
    }
    context
}

/// Puts the preamble before the message.
pub fn enrich_message(context: &str, message: &str) -> (enriched: String)
    ensures
        enriched@ == context@ + message@,
{
    let mut enriched = context.to_owned();
    enriched.append(message);
    enriched
}

/// The name to go by: what the caller asked for, else what is configured,
/// else the fallback.
pub open spec fn chosen_name(
    asked: Option<Seq<char>>,
    configured: Option<Seq<char>>,
    fallback: Seq<char>,
) -> Seq<char> {
    match asked {
        Some(name) => name,
        None => match configured {
            Some(name) => name,
            None => fallback,
        },
    }
}

/// Picks the name of a provider or a model.
pub fn choose_name<'a>(
    asked: Option<&'a str>,
    configured: Option<&'a str>,
    fallback: &'a str,
) -> (name: &'a str)
    ensures
        name@ == chosen_name(
            match asked {
                Some(text) => Some(text@),
                None => None,
            },
            match configured {
                Some(text) => Some(text@),
                None => None,
            },
            fallback@,
        ),
{
    match asked {
        Some(name) => name,
        None => match configured {
            Some(name) => name,
            None => fallback,
        },
    }
}

/// The provider to go by where none is asked for or configured.
pub const DEFAULT_PROVIDER: &'static str = "openrouter";

/// Picks the provider: what the caller asked for, else what is configured,
/// else `DEFAULT_PROVIDER`.
pub fn choose_provider<'a>(asked: Option<&'a str>, configured: Option<&'a str>) -> (name: &'a str)
    ensures
        name@ == chosen_name(
            match asked {
                Some(text) => Some(text@),
                None => None,
            },
            match configured {
                Some(text) => Some(text@),
                None => None,
            },
            DEFAULT_PROVIDER@,
        ),
{
    choose_name(asked, configured, DEFAULT_PROVIDER)
}

} // verus!
