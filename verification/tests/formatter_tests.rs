use ail_core::formatter::format_run_as_ail_log;
use ail_core::logs::{attach_tool_events, StepRow};
use ail_core::runner::ToolEvent;

fn row(step_id: &str, event_type: &str) -> StepRow {
    StepRow {
        step_id: step_id.to_string(),
        event_type: event_type.to_string(),
        prompt: None,
        response: None,
        thinking: None,
        cost_usd: None,
        input_tokens: None,
        output_tokens: None,
        stdout: None,
        stderr: None,
        exit_code: None,
        recorded_at: 0,
        tool_events: vec![],
    }
}

#[test]
fn no_rows_give_only_the_header() {
    assert_eq!(format_run_as_ail_log(&vec![]), "ail-log/1\n");
}

#[test]
fn completed_prompt_step_shows_response_and_cost() {
    let started = row("review", "step_started");
    let mut done = row("review", "step_completed");
    done.response = Some("looks fine".to_string());
    done.cost_usd = Some("0.0123".to_string());
    done.input_tokens = Some(10);
    done.output_tokens = Some(5);
    let text = format_run_as_ail_log(&vec![started, done]);
    assert_eq!(
        text,
        "ail-log/1\n\n## Turn 1 — `review`\n\nlooks fine\n\n---\n_Cost: $0.0123 | 10in / 5out tokens_\n"
    );
}

#[test]
fn failed_step_shows_the_warning_instead_of_the_response() {
    let mut failed = row("build", "step_failed");
    failed.response = Some("exit 2".to_string());
    failed.cost_usd = Some("0.5000".to_string());
    let text = format_run_as_ail_log(&vec![failed]);
    assert_eq!(text, "ail-log/1\n\n## Turn 1 — `build`\n\n> [!WARNING]\n> **Step failed:** exit 2\n");
}

#[test]
fn failed_step_without_detail_says_step_failed() {
    let text = format_run_as_ail_log(&vec![row("x", "step_failed")]);
    assert!(text.ends_with("> **Step failed:** Step failed\n"), "{text}");
}

#[test]
fn context_step_shows_its_output_blocks() {
    let mut done = row("lint", "step_completed");
    done.stdout = Some("all good".to_string());
    done.stderr = Some(String::new());
    done.input_tokens = Some(0);
    let text = format_run_as_ail_log(&vec![done]);
    assert_eq!(
        text,
        "ail-log/1\n\n## Turn 1 — `lint`\n\n:::stdio stream=\"stdout\"\nall good\n:::\n\n---\n_No cost (context step)_\n"
    );
}

#[test]
fn turns_follow_the_first_appearance_of_each_step() {
    let a1 = row("a", "step_started");
    let b1 = row("b", "step_started");
    let mut a2 = row("a", "step_completed");
    a2.response = Some("A".to_string());
    let text = format_run_as_ail_log(&vec![a1, b1, a2]);
    assert_eq!(text, "ail-log/1\n\n## Turn 1 — `a`\n\nA\n\n## Turn 2 — `b`\n");
}

#[test]
fn thinking_and_tool_events_come_before_the_response() {
    let mut r = row("t", "step_completed");
    r.thinking = Some("hmm".to_string());
    r.response = Some("done".to_string());
    r.tool_events = vec![
        ToolEvent { event_type: "tool_call".to_string(), tool_name: "Bash".to_string(), content_json: "{\"cmd\":\"ls\"}".to_string() },
        ToolEvent { event_type: "tool_result".to_string(), tool_name: "Bash".to_string(), content_json: "\"a\"".to_string() },
        ToolEvent { event_type: "other".to_string(), tool_name: "x".to_string(), content_json: "{}".to_string() },
    ];
    let text = format_run_as_ail_log(&vec![r]);
    assert_eq!(
        text,
        [
            "ail-log/1\n\n## Turn 1 — `t`\n",
            "\n:::thinking\nhmm\n:::\n",
            "\n:::tool-call name=\"Bash\"\n{\"cmd\":\"ls\"}\n:::\n",
            "\n:::tool-result name=\"Bash\"\n\"a\"\n:::\n",
            "\ndone\n",
        ]
        .concat()
    );
}

#[test]
fn later_rows_win_and_empty_texts_do_not_erase() {
    let mut r1 = row("s", "step_completed");
    r1.response = Some("first".to_string());
    let mut r2 = row("s", "step_completed");
    r2.response = Some(String::new());
    r2.cost_usd = Some("1.0000".to_string());
    let text = format_run_as_ail_log(&vec![r1, r2]);
    assert_eq!(text, "ail-log/1\n\n## Turn 1 — `s`\n\nfirst\n\n---\n_Cost: $1.0000_\n");
}

fn event(kind: &str, tool: &str) -> ToolEvent {
    ToolEvent { event_type: kind.to_string(), tool_name: tool.to_string(), content_json: "{}".to_string() }
}

#[test]
fn tool_events_go_to_the_first_row_of_their_step() {
    let rows = vec![row("a", "step_started"), row("b", "step_started"), row("a", "step_completed")];
    let events = vec![
        ("a".to_string(), event("tool_call", "Read")),
        ("z".to_string(), event("tool_call", "Lost")),
        ("a".to_string(), event("tool_result", "Read")),
    ];
    let out = attach_tool_events(rows, &events);
    assert_eq!(out.len(), 3);
    assert_eq!(out[0].tool_events.len(), 2);
    assert_eq!(out[0].tool_events[0].event_type, "tool_call");
    assert_eq!(out[0].tool_events[1].event_type, "tool_result");
    assert!(out[1].tool_events.is_empty());
    assert!(out[2].tool_events.is_empty());
}
