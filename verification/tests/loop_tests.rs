use zeroclaw::agent::loop_::{
    build_context, choose_name, choose_provider, enrich_message, follow_up_prompt, Action,
    Conversation, Event, MemoryEntry, Notice, DEFAULT_PROVIDER,
};
use zeroclaw::agent::tool_calls::{ToolCall, MAX_TOOL_ITERATIONS};
use zeroclaw::text::join;
use zeroclaw::tools::ToolResult;
use zeroclaw::value::StructuredValue;

const CALLS_SHELL: &str = r#"{"name": "shell", "arguments": {"command": "ls"}}"#;

fn names(list: &[&str]) -> Vec<String> {
    list.iter().map(|s| s.to_string()).collect()
}

fn shell_call() -> ToolCall {
    ToolCall {
        name: "shell".to_string(),
        arguments: StructuredValue::Object(vec![(
            "command".to_string(),
            StructuredValue::Text("ls".to_string()),
        )]),
    }
}

fn ok(output: &str) -> Event {
    Event::ToolOutcome(Ok(ToolResult { success: true, output: output.to_string(), error: None }))
}

/// Runs a conversation whose model always replies with `reply` and whose
/// tools always succeed; gives the model calls made and the answer.
fn drive(cap: usize, registry: &[&str], reply: &str) -> (usize, String, Vec<String>) {
    let mut conversation = Conversation::new("hello", names(registry), cap);
    let mut model_calls = 0;
    let mut prompts = Vec::new();
    for _ in 0..10_000 {
        match conversation.action() {
            Action::CallModel { prompt } => {
                model_calls += 1;
                prompts.push(prompt);
                conversation = conversation.step(Event::ModelReply(reply.to_string()));
            }
            Action::RunTool { .. } => {
                conversation = conversation.step(ok("done"));
            }
            Action::Finish { answer } => return (model_calls, answer, prompts),
            Action::Abort { cause } => panic!("the model never fails here: {}", cause),
        }
    }
    panic!("the conversation did not end");
}

#[test]
fn a_model_that_always_calls_tools_is_called_ten_times() {
    let (model_calls, answer, prompts) = drive(MAX_TOOL_ITERATIONS, &["shell"], CALLS_SHELL);
    assert_eq!(model_calls, 10);
    assert_eq!(answer, "");
    assert_eq!(prompts.len(), 10);
    let (model_calls, answer, _) = drive(MAX_TOOL_ITERATIONS, &[], CALLS_SHELL);
    assert_eq!(model_calls, 10);
    assert_eq!(answer, "");
}

#[test]
fn the_cap_bounds_the_model_calls() {
    for cap in [0usize, 1, 2, 3, 7] {
        let (model_calls, answer, _) = drive(cap, &["shell"], CALLS_SHELL);
        assert_eq!(model_calls, cap);
        assert_eq!(answer, "");
    }
}

#[test]
fn a_cap_of_zero_ends_at_once() {
    let conversation = Conversation::new("hello", vec![], 0);
    assert!(conversation.is_done());
    assert_eq!(conversation.iteration(), 0);
    assert_eq!(conversation.action(), Action::Finish { answer: String::new() });
}

#[test]
fn prose_is_the_final_answer_on_the_first_round() {
    let conversation = Conversation::new("What is 2 + 2?", names(&["shell"]), 10);
    assert!(!conversation.is_done());
    assert_eq!(conversation.iteration(), 0);
    assert_eq!(conversation.action(), Action::CallModel { prompt: "What is 2 + 2?".to_string() });
    let conversation = conversation.step(Event::ModelReply("It is four.".to_string()));
    assert!(conversation.is_done());
    assert_eq!(conversation.iteration(), 0);
    assert_eq!(conversation.action(), Action::Finish { answer: "It is four.".to_string() });
    let conversation = conversation.step(Event::ModelReply("more".to_string()));
    assert_eq!(conversation.action(), Action::Finish { answer: "It is four.".to_string() });
    let conversation = conversation.step(ok("late"));
    assert_eq!(conversation.action(), Action::Finish { answer: "It is four.".to_string() });
    assert_eq!(conversation.iteration(), 0);
}

#[test]
fn a_round_runs_its_calls_in_order_and_builds_the_next_prompt() {
    let reply = r#"[{"name": "shell", "arguments": {"command": "ls"}},
                    {"name": "missing"},
                    {"name": "file_read", "arguments": {"path": "a"}}]"#;
    let conversation = Conversation::new("list it", names(&["file_read", "shell"]), 10);
    let conversation = conversation.step(Event::ModelReply(reply.to_string()));
    assert_eq!(conversation.iteration(), 0);
    assert_eq!(conversation.action(), Action::RunTool { tool: 1, call: shell_call() });
    let conversation = conversation.step(Event::ModelReply("not now".to_string()));
    assert_eq!(conversation.action(), Action::RunTool { tool: 1, call: shell_call() });
    let conversation = conversation.step(ok("a.txt\n"));
    assert_eq!(
        conversation.action(),
        Action::RunTool {
            tool: 0,
            call: ToolCall {
                name: "file_read".to_string(),
                arguments: StructuredValue::Object(vec![(
                    "path".to_string(),
                    StructuredValue::Text("a".to_string())
                )]),
            }
        }
    );
    assert_eq!(conversation.iteration(), 0);
    let conversation = conversation.step(Event::ToolOutcome(Err("no such file".to_string())));
    assert_eq!(conversation.iteration(), 1);
    assert_eq!(
        conversation.action(),
        Action::CallModel {
            prompt: "Previous message: list it\n\nTool execution results:\nTool shell completed successfully:\nOutput: a.txt\n\n\nTool missing failed:\nError: Tool 'missing' not found\n\nTool file_read failed:\nError: Tool execution failed: no such file\n\nPlease continue based on these tool results.".to_string()
        }
    );
    let conversation = conversation.step(ok("stray"));
    assert_eq!(conversation.iteration(), 1);
    let conversation = conversation.step(Event::ModelReply("All done.".to_string()));
    assert_eq!(conversation.action(), Action::Finish { answer: "All done.".to_string() });
    assert_eq!(conversation.iteration(), 1);
}

#[test]
fn a_round_without_any_tool_needs_no_run() {
    let conversation = Conversation::new("go", vec![], 3);
    let conversation = conversation.step(Event::ModelReply(CALLS_SHELL.to_string()));
    assert_eq!(conversation.iteration(), 1);
    assert_eq!(
        conversation.action(),
        Action::CallModel {
            prompt: "Previous message: go\n\nTool execution results:\nTool shell failed:\nError: Tool 'shell' not found\n\nPlease continue based on these tool results.".to_string()
        }
    );
}

#[test]
fn the_next_prompt_holds_only_the_latest_results() {
    let (_, _, prompts) = drive(3, &["shell"], CALLS_SHELL);
    let follow = "Previous message: hello\n\nTool execution results:\nTool shell completed successfully:\nOutput: done\n\nPlease continue based on these tool results.";
    assert_eq!(prompts, vec!["hello".to_string(), follow.to_string(), follow.to_string()]);
}

#[test]
fn a_productive_last_round_still_ends_with_an_empty_answer() {
    let conversation = Conversation::new("go", names(&["shell"]), 1);
    let conversation = conversation.step(Event::ModelReply(CALLS_SHELL.to_string()));
    assert!(!conversation.is_done());
    let conversation = conversation.step(ok("useful output"));
    assert!(conversation.is_done());
    assert_eq!(conversation.iteration(), 1);
    assert_eq!(conversation.action(), Action::Finish { answer: String::new() });
}

#[test]
fn the_follow_up_prompt_is_made_of_the_first_message_and_the_results() {
    assert_eq!(
        follow_up_prompt("m", "r"),
        "Previous message: m\n\nTool execution results:\nr\n\nPlease continue based on these tool results."
    );
    assert_eq!(
        follow_up_prompt("", ""),
        "Previous message: \n\nTool execution results:\n\n\nPlease continue based on these tool results."
    );
}

#[test]
fn parts_are_joined_with_the_separator_between_them() {
    assert_eq!(join(&vec![], "\n\n"), "");
    assert_eq!(join(&names(&["a"]), "\n\n"), "a");
    assert_eq!(join(&names(&["a", "b", "c"]), "\n\n"), "a\n\nb\n\nc");
    assert_eq!(join(&names(&["", "", ""]), "-"), "--");
    assert_eq!(join(&names(&["x", "y"]), ""), "xy");
}

#[test]
fn recalled_entries_become_a_preamble() {
    assert_eq!(build_context(&vec![]), "");
    let entries = vec![
        MemoryEntry { key: "lang".to_string(), content: "Rust".to_string() },
        MemoryEntry { key: "editor".to_string(), content: "vim".to_string() },
    ];
    assert_eq!(build_context(&entries), "[Memory context]\n- lang: Rust\n- editor: vim\n\n");
    assert_eq!(
        enrich_message(&build_context(&entries), "hi"),
        "[Memory context]\n- lang: Rust\n- editor: vim\n\nhi"
    );
    assert_eq!(enrich_message("", "hi"), "hi");
}

#[test]
fn a_failed_model_call_ends_the_conversation() {
    let conversation = Conversation::new("go", names(&["shell"]), 10);
    let conversation = conversation.step(Event::ModelFailure("connection refused".to_string()));
    assert!(!conversation.is_done());
    assert_eq!(conversation.iteration(), 0);
    assert_eq!(conversation.action(), Action::Abort { cause: "connection refused".to_string() });
    let conversation = conversation.step(Event::ModelReply("late".to_string()));
    assert_eq!(conversation.action(), Action::Abort { cause: "connection refused".to_string() });
    let conversation = conversation.step(ok("late"));
    assert_eq!(conversation.action(), Action::Abort { cause: "connection refused".to_string() });

    let conversation = Conversation::new("go", names(&["shell"]), 10);
    let conversation = conversation.step(Event::ModelReply(CALLS_SHELL.to_string()));
    let conversation = conversation.step(Event::ModelFailure("stray".to_string()));
    assert_eq!(conversation.action(), Action::RunTool { tool: 0, call: shell_call() });
    let conversation = conversation.step(ok("fine"));
    let conversation = conversation.step(Event::ModelFailure("timeout".to_string()));
    assert_eq!(conversation.iteration(), 1);
    assert_eq!(conversation.action(), Action::Abort { cause: "timeout".to_string() });
}

#[test]
fn the_name_asked_for_goes_before_the_configured_one() {
    assert_eq!(choose_name(Some("a"), Some("b"), "c"), "a");
    assert_eq!(choose_name(Some("a"), None, "c"), "a");
    assert_eq!(choose_name(None, Some("b"), "c"), "b");
    assert_eq!(choose_name(None, None, "c"), "c");
    assert_eq!(choose_name(Some(""), Some("b"), "c"), "");
}

#[test]
fn the_provider_falls_back_to_openrouter() {
    assert_eq!(DEFAULT_PROVIDER, "openrouter");
    assert_eq!(choose_provider(None, None), "openrouter");
    assert_eq!(choose_provider(None, Some("ollama")), "ollama");
    assert_eq!(choose_provider(Some("openai"), Some("ollama")), "openai");
    assert_eq!(choose_provider(Some("openai"), None), "openai");
}

#[test]
fn a_step_says_what_it_does() {
    let reply = r#"[{"name": "missing"},
                    {"name": "shell", "arguments": {"command": "ls"}},
                    {"name": "gone"}]"#;
    let missing = ToolCall { name: "missing".to_string(), arguments: StructuredValue::empty_object() };
    let gone = ToolCall { name: "gone".to_string(), arguments: StructuredValue::empty_object() };
    let conversation = Conversation::new("go", names(&["shell"]), 10);
    assert_eq!(conversation.notices(&ok("early")), vec![]);
    assert_eq!(conversation.notices(&Event::ModelReply("Just prose.".to_string())), vec![]);
    assert_eq!(conversation.notices(&Event::ModelFailure("down".to_string())), vec![]);
    let event = Event::ModelReply(reply.to_string());
    assert_eq!(
        conversation.notices(&event),
        vec![
            Notice::Round { calls: 3 },
            Notice::Call { call: missing },
            Notice::Outcome {
                text: "Tool missing failed:\nError: Tool 'missing' not found".to_string()
            },
            Notice::Call { call: shell_call() },
        ]
    );
    let conversation = conversation.step(event);
    assert_eq!(conversation.notices(&Event::ModelReply(reply.to_string())), vec![]);
    let event = ok("a.txt");
    assert_eq!(
        conversation.notices(&event),
        vec![
            Notice::Outcome { text: "Tool shell completed successfully:\nOutput: a.txt".to_string() },
            Notice::Call { call: gone },
            Notice::Outcome { text: "Tool gone failed:\nError: Tool 'gone' not found".to_string() },
        ]
    );
    let failed = Event::ToolOutcome(Err("boom".to_string()));
    assert_eq!(conversation.notices(&failed)[0], Notice::Outcome {
        text: "Tool shell failed:\nError: Tool execution failed: boom".to_string()
    });
    let conversation = conversation.step(event);
    assert_eq!(conversation.iteration(), 1);
    assert_eq!(conversation.notices(&ok("late")), vec![]);
}
