use pie::compaction::cut::{
    find_cut_point, find_turn_start_index, get_last_assistant_usage, prepare_compaction,
    try_find_cut_point, try_prepare_compaction,
};
use pie::compaction::estimate::{
    assistant_usage, calculate_context_tokens, checked_context_tokens, content_block_chars,
    estimate_context_tokens, estimate_tokens, try_content_block_chars,
    try_estimate_context_tokens, try_estimate_tokens, user_block_chars,
};
use pie::compaction::plan::{plan_compaction, try_plan_compaction, CompactionPlan};
use pie::compaction::budget::{
    serialize_conversation_for_summary_budget, summarization_prompt_budget,
    summarize_prompt_estimate_tokens, trim_messages_for_summary_budget,
    trim_messages_for_summary_budget_at, try_serialize_conversation_for_summary_budget,
    try_summarize_prompt_estimate_tokens, try_trim_messages_for_summary_budget,
    DEFAULT_SUMMARY_PROMPT_TOKEN_BUDGET, OMITTED_CONTENT_NOTE, SUMMARIZATION_SYSTEM_PROMPT,
};
use pie::compaction::conversation::serialize_conversation;
use pie::compaction::summary::{
    summary_call, summary_call_at, GenerateSummaryOutput, GenerateSummaryRequest, SummarizeError,
    SummaryProgress,
};
use pie::compaction::{should_compact, CompactionSettings};
use pie::json::Json;
use pie::message::{
    AgentMessage, AssistantMessage, ContentBlock, CustomMessage, ImageContent, Message, StopReason,
    TextContent, ThinkingContent, ToolCall, ToolResultMessage, Usage, UserContent,
    UserContentBlock, UserMessage,
};
use pie::model::Model;
use pie::session::SessionTreeEntry;
use pie::stream::{AssistantMessageEvent, DoneReason, ErrorReason};

fn user(text: &str) -> AgentMessage {
    AgentMessage::Llm(Message::User(UserMessage {
        content: UserContent::Text(text.into()),
        timestamp: 0,
    }))
}

fn model_with_context_window(context_window: u32) -> Model {
    Model {
        id: "faux".into(),
        name: "Faux".into(),
        api: "faux".into(),
        provider: "faux".into(),
        context_window,
    }
}

fn answer(blocks: Vec<ContentBlock>, stop: StopReason, usage: Usage) -> AssistantMessage {
    AssistantMessage {
        content: blocks,
        api: "faux".into(),
        provider: "faux".into(),
        model: "faux".into(),
        response_model: None,
        response_id: None,
        diagnostics: None,
        usage,
        stop_reason: stop,
        error_message: None,
        timestamp: 0,
    }
}

fn text_block(text: &str) -> ContentBlock {
    ContentBlock::Text(TextContent { text: text.into() })
}

fn assistant(text: &str, stop: StopReason, usage: Usage) -> AgentMessage {
    AgentMessage::Llm(Message::Assistant(answer(vec![text_block(text)], stop, usage)))
}

fn entry(id: &str, parent: Option<&str>, message: AgentMessage) -> SessionTreeEntry {
    SessionTreeEntry::Message {
        id: id.into(),
        parent_id: parent.map(|p| p.to_string()),
        timestamp: "t".into(),
        message,
    }
}

fn text_of(message: &UserMessage) -> String {
    match &message.content {
        UserContent::Text(text) => text.clone(),
        UserContent::Blocks(_) => String::new(),
    }
}

#[test]
fn should_compact_when_over_threshold() {
    let s = CompactionSettings {
        enabled: true,
        reserve_tokens: 1024,
        keep_recent_tokens: 0,
    };
    // Threshold is 80% of window = 102_400 for a 128K window.
    assert!(should_compact(102_401, 128_000, &s));
    assert!(!should_compact(102_400, 128_000, &s));
    // Also triggers at higher usage.
    assert!(should_compact(127_000, 128_000, &s));
    // Well below threshold does not trigger.
    assert!(!should_compact(80_000, 128_000, &s));
}

#[test]
fn compact_trims_summarizer_prompt_before_provider_call() {
    let mut entries = Vec::new();
    let mut parent_id: Option<String> = None;
    for i in 0..80 {
        let id = format!("entry-{i}");
        entries.push(entry(
            &id,
            parent_id.as_deref(),
            user(&format!("old-msg-{i} {}", "x".repeat(1600))),
        ));
        parent_id = Some(id);
    }
    let plan = plan_compaction(
        model_with_context_window(5_000),
        &entries,
        &CompactionSettings {
            enabled: true,
            reserve_tokens: 1_000,
            keep_recent_tokens: 1,
        },
        None,
    );
    let (request, pending) = match plan {
        CompactionPlan::Summarize { request, pending } => (request, pending),
        CompactionPlan::Nothing(_) => panic!("there is something to summarize"),
    };
    assert_eq!(request.prompt_budget_tokens, Some(4_000));
    assert_eq!(request.messages.len(), 79);
    let call = summary_call(&request).expect("the prompt can be counted");
    assert_eq!(call.system_prompt, SUMMARIZATION_SYSTEM_PROMPT);
    let text = text_of(&call.message);
    assert!(
        text.len().div_ceil(4) < 4_000,
        "summarizer prompt must be trimmed before provider dispatch; got {} chars",
        text.len()
    );
    assert!(
        text.contains("[compaction note: omitted"),
        "trimmed prompt must disclose omitted older content"
    );
    assert!(
        !text.contains("old-msg-0"),
        "oldest oversized content should not reach the provider prompt"
    );

    let mut progress = SummaryProgress::new();
    let done = AssistantMessageEvent::Done {
        reason: DoneReason::Stop,
        message: answer(
            vec![text_block("bounded summary")],
            StopReason::Stop,
            Usage::default(),
        ),
    };
    assert!(progress.on_event(done, false).is_ok());
    let result = pending
        .finish(progress.finish())
        .expect("compaction should succeed with a bounded summarizer prompt");
    assert_eq!(result.summary, "bounded summary");
    assert_eq!(result.first_kept_entry_id.as_deref(), Some("entry-79"));
}

#[test]
fn summary_budget_caps_single_oversized_message() {
    let conversation =
        serialize_conversation_for_summary_budget(&[user(&"x".repeat(50_000))], 2_000, None);
    assert!(
        conversation.len().div_ceil(4) <= 2_000,
        "serialized compaction prompt must fit the budget; got {} chars",
        conversation.len()
    );
    assert!(
        conversation.starts_with("[compaction note: omitted older serialized content"),
        "single-message truncation must disclose omitted content"
    );
}

#[test]
fn disabled_compaction_returns_false() {
    let s = CompactionSettings {
        enabled: false,
        ..Default::default()
    };
    assert!(!should_compact(1_000_000, 128_000, &s));
}

#[test]
fn estimate_context_tokens_uses_last_usage_block() {
    let msgs = vec![
        user("hi"),
        assistant(
            "ok",
            StopReason::Stop,
            Usage {
                input: 100,
                output: 50,
                total_tokens: 150,
                ..Default::default()
            },
        ),
        user("more"),
    ];
    let est = estimate_context_tokens(&msgs);
    assert_eq!(est.usage_tokens, 150);
    // Trailing user("more") gets char-estimated, so total > 150.
    assert!(est.tokens > 150);
    assert_eq!(est.last_usage_index, Some(1));
}

#[test]
fn cut_point_lands_on_turn_boundary() {
    // entries: U A U A U  (4 turns). Set keep_recent_tokens to a small value so cut is far
    // back; verify it lands on a turn start (user message).
    let entries = vec![
        entry("1", None, user("a")),
        entry("2", Some("1"), assistant("b", StopReason::Stop, Usage::default())),
        entry("3", Some("2"), user("c")),
        entry("4", Some("3"), assistant("d", StopReason::Stop, Usage::default())),
    ];
    let cut = find_cut_point(
        &entries,
        &CompactionSettings {
            keep_recent_tokens: 1,
            ..Default::default()
        },
    );
    // Should land on a turn boundary, i.e., a user message or 0.
    if cut.cut_index < entries.len() {
        if let SessionTreeEntry::Message { message, .. } = &entries[cut.cut_index] {
            assert!(
                matches!(message, AgentMessage::Llm(Message::User(_))) || cut.cut_index == 0
            );
        }
    }
    assert_eq!(cut.cut_index, 2);
    assert_eq!(cut.first_kept_entry_id.as_deref(), Some("3"));
}

#[test]
fn default_settings() {
    let s = CompactionSettings::default();
    assert!(s.enabled);
    assert_eq!(s.reserve_tokens, 16_384);
    assert_eq!(s.keep_recent_tokens, 20_000);
}

#[test]
fn a_message_is_taken_for_a_quarter_of_its_bytes() {
    assert_eq!(estimate_tokens(&user("")), 0);
    assert_eq!(estimate_tokens(&user("abcd")), 1);
    assert_eq!(estimate_tokens(&user("abcde")), 2);
    // Two characters of two bytes each, and one byte more.
    assert_eq!(estimate_tokens(&user("ééx")), 2);
    let image = AgentMessage::Llm(Message::User(UserMessage {
        content: UserContent::Blocks(vec![UserContentBlock::Image(ImageContent {
            data: "AAAA".into(),
            mime_type: "image/png".into(),
        })]),
        timestamp: 0,
    }));
    assert_eq!(estimate_tokens(&image), 768);
    let call = AgentMessage::Llm(Message::Assistant(answer(
        vec![
            ContentBlock::Thinking(ThinkingContent {
                thinking: "hmm".into(),
            }),
            ContentBlock::ToolCall(ToolCall {
                id: "1".into(),
                name: "ls".into(),
                arguments: Json::parse("{ \"p\" : 1 }").unwrap(),
            }),
        ],
        StopReason::ToolUse,
        Usage::default(),
    )));
    // "hmm", "ls" and `{"p":1}`: 3 + 2 + 7 bytes.
    assert_eq!(estimate_tokens(&call), 3);
    assert_eq!(try_estimate_tokens(&call), Some(3));
    let result = AgentMessage::Llm(Message::ToolResult(ToolResultMessage {
        tool_name: "ls".into(),
        content: vec![UserContentBlock::Text(TextContent { text: "abc".into() })],
    }));
    assert_eq!(estimate_tokens(&result), 2);
    let custom = AgentMessage::Custom(CustomMessage {
        role: "note".into(),
        payload: Json::parse("[1,2]").unwrap(),
    });
    assert_eq!(estimate_tokens(&custom), 3);
}

#[test]
fn blocks_count_their_bytes() {
    let image = || ImageContent {
        data: "AAAA".into(),
        mime_type: "image/png".into(),
    };
    assert_eq!(user_block_chars(&UserContentBlock::Image(image())), 3072);
    assert_eq!(content_block_chars(&ContentBlock::Image(image())), 3072);
    assert_eq!(content_block_chars(&text_block("é")), 2);
    let call = ContentBlock::ToolCall(ToolCall {
        id: "long id that does not count".into(),
        name: "ls".into(),
        arguments: Json::parse("{ }").unwrap(),
    });
    assert_eq!(try_content_block_chars(&call), Some(4));
}

#[test]
fn broken_off_answers_carry_no_count() {
    let usage = Usage {
        input: 1,
        ..Default::default()
    };
    assert_eq!(
        assistant_usage(&assistant("a", StopReason::Stop, usage)),
        Some(usage)
    );
    assert_eq!(assistant_usage(&assistant("a", StopReason::Aborted, usage)), None);
    assert_eq!(assistant_usage(&assistant("a", StopReason::Error, usage)), None);
    assert_eq!(
        assistant_usage(&assistant("a", StopReason::Stop, Usage::default())),
        None
    );
    assert_eq!(assistant_usage(&user("a")), None);
    let entries = vec![
        entry("1", None, assistant("a", StopReason::Stop, usage)),
        entry("2", None, assistant("b", StopReason::Error, usage)),
    ];
    assert_eq!(get_last_assistant_usage(&entries), Some(usage));
}

#[test]
fn context_tokens_are_the_total_or_the_sum() {
    let parts = Usage {
        input: 1,
        output: 2,
        cache_read: 3,
        cache_write: 4,
        total_tokens: 0,
    };
    assert_eq!(calculate_context_tokens(&parts), 10);
    assert_eq!(
        calculate_context_tokens(&Usage {
            total_tokens: 7,
            ..parts
        }),
        7
    );
    assert_eq!(
        checked_context_tokens(&Usage {
            input: u64::MAX,
            output: 1,
            ..Default::default()
        }),
        None
    );
}

#[test]
fn an_estimate_without_a_count_takes_every_message() {
    let est = try_estimate_context_tokens(&[user("abcd"), user("abcde")]).unwrap();
    assert_eq!(est.tokens, 3);
    assert_eq!(est.usage_tokens, 0);
    assert_eq!(est.trailing_tokens, 3);
    assert_eq!(est.last_usage_index, None);
    let overflow = assistant(
        "",
        StopReason::Stop,
        Usage {
            input: u64::MAX,
            output: 1,
            ..Default::default()
        },
    );
    assert_eq!(try_estimate_context_tokens(&[overflow]), None);
}

#[test]
fn a_turn_begins_with_what_the_user_says() {
    let entries = vec![
        entry("1", None, user("a")),
        entry("2", None, assistant("b", StopReason::Stop, Usage::default())),
        SessionTreeEntry::Leaf {
            id: "3".into(),
            parent_id: None,
            timestamp: "t".into(),
            target_id: None,
        },
        entry("4", None, user("d")),
    ];
    assert_eq!(find_turn_start_index(&entries, 2, 0), 0);
    assert_eq!(find_turn_start_index(&entries, 3, 0), 3);
    assert_eq!(find_turn_start_index(&entries, 9, 0), 3);
    assert_eq!(find_turn_start_index(&[], 0, 0), 0);
    assert_eq!(find_turn_start_index(&[], 0, 4), 4);
}

#[test]
fn preparing_splits_a_session_at_the_cut() {
    let entries = vec![
        entry("1", None, user("abcdefgh")),
        entry("2", Some("1"), assistant("b", StopReason::Stop, Usage::default())),
        SessionTreeEntry::Custom {
            id: "2a".into(),
            parent_id: None,
            timestamp: "t".into(),
            custom_type: "mark".into(),
        },
        entry("3", Some("2"), user("c")),
    ];
    let settings = CompactionSettings {
        keep_recent_tokens: 1,
        ..Default::default()
    };
    let preparation = prepare_compaction(&entries, &settings);
    assert_eq!(preparation.cut.cut_index, 3);
    assert_eq!(preparation.cut.first_kept_entry_id.as_deref(), Some("3"));
    assert_eq!(preparation.tokens_before, 3);
    assert_eq!(preparation.entries_to_summarize, entries[..3].to_vec());
    let again = try_prepare_compaction(&entries, &settings).unwrap();
    assert_eq!(again.cut.cut_index, 3);
    assert_eq!(again.clone().tokens_before, 3);
    assert_eq!(try_find_cut_point(&entries, &settings).unwrap().cut_index, 3);
}

#[test]
fn an_empty_session_has_nothing_to_summarize() {
    let plan = try_plan_compaction(
        model_with_context_window(0),
        &[],
        &CompactionSettings::default(),
        None,
    );
    match plan {
        Some(CompactionPlan::Nothing(result)) => {
            assert_eq!(result.summary, "");
            assert_eq!(result.first_kept_entry_id, None);
            assert_eq!(result.tokens_before, 0);
            assert_eq!(result.usage, Usage::default());
        }
        other => panic!("unexpected plan {other:?}"),
    }
}

#[test]
fn conversations_are_written_out() {
    let messages = vec![
        AgentMessage::Llm(Message::User(UserMessage {
            content: UserContent::Blocks(vec![
                UserContentBlock::Text(TextContent { text: "look".into() }),
                UserContentBlock::Image(ImageContent {
                    data: "AAAA".into(),
                    mime_type: "image/png".into(),
                }),
            ]),
            timestamp: 0,
        })),
        AgentMessage::Llm(Message::Assistant(answer(
            vec![
                ContentBlock::Thinking(ThinkingContent {
                    thinking: "hmm".into(),
                }),
                text_block("yes"),
                ContentBlock::ToolCall(ToolCall {
                    id: "1".into(),
                    name: "ls".into(),
                    arguments: Json::parse("{ \"b\" : 1, \"a\" : [true] }").unwrap(),
                }),
            ],
            StopReason::ToolUse,
            Usage::default(),
        ))),
        AgentMessage::Llm(Message::ToolResult(ToolResultMessage {
            tool_name: "ls".into(),
            content: vec![
                UserContentBlock::Text(TextContent { text: "x".into() }),
                UserContentBlock::Image(ImageContent {
                    data: "AAAA".into(),
                    mime_type: "image/png".into(),
                }),
            ],
        })),
        AgentMessage::Custom(CustomMessage {
            role: "straße".into(),
            payload: Json::parse("null").unwrap(),
        }),
    ];
    assert_eq!(
        serialize_conversation(&messages),
        "USER:\nlook<image>\n\nASSISTANT:\n<thinking>hmm</thinking>yes<tool_call name=\"ls\">{\"a\":[true],\"b\":1}</tool_call>\n\nTOOL_RESULT[ls]:\nx\n\nSTRASSE:\nnull\n\n"
    );
}

#[test]
fn prompt_budgets() {
    let settings = CompactionSettings {
        enabled: true,
        reserve_tokens: 1_000,
        keep_recent_tokens: 0,
    };
    assert_eq!(
        summarization_prompt_budget(&model_with_context_window(0), &settings),
        DEFAULT_SUMMARY_PROMPT_TOKEN_BUDGET
    );
    assert_eq!(
        summarization_prompt_budget(&model_with_context_window(5_000), &settings),
        4_000
    );
    assert_eq!(
        summarization_prompt_budget(&model_with_context_window(1_000), &settings),
        800
    );
}

#[test]
fn prompts_are_counted_with_what_stands_around_them() {
    let system = SUMMARIZATION_SYSTEM_PROMPT.len().div_ceil(4) as u64;
    assert_eq!(
        summarize_prompt_estimate_tokens(&[user("abcde")], Some("abc")),
        512 + system + 1 + 2
    );
    assert_eq!(
        try_summarize_prompt_estimate_tokens(&[], None),
        Some(512 + system)
    );
}

#[test]
fn trimming_keeps_the_end_and_says_what_is_missing() {
    let overhead = summarize_prompt_estimate_tokens(&[], None);
    let messages = vec![user("aaaa"), user("bbbb"), user("cccc")];
    let kept = trim_messages_for_summary_budget_at(&messages, overhead + 2, None, 77);
    assert_eq!(kept.len(), 3);
    match &kept[0] {
        AgentMessage::Llm(Message::User(note)) => {
            assert_eq!(
                text_of(note),
                "[compaction note: omitted 1 older message(s) before summarization because the session exceeded the summarizer prompt budget]"
            );
            assert_eq!(note.timestamp, 77);
        }
        other => panic!("unexpected message {other:?}"),
    }
    assert_eq!(kept[1..], messages[1..]);
    // What fits stays as it is.
    assert_eq!(
        trim_messages_for_summary_budget(&messages, overhead + 3, None),
        messages
    );
    // At least one message is kept.
    let one = try_trim_messages_for_summary_budget(&messages, 0, None).unwrap();
    assert_eq!(one.len(), 2);
    assert_eq!(one[1], messages[2]);
    let stamped = match &one[0] {
        AgentMessage::Llm(Message::User(note)) => note.timestamp,
        _ => 0,
    };
    assert!(stamped > 1_600_000_000_000);
}

#[test]
fn a_budget_below_the_standing_prompt_leaves_no_conversation() {
    assert_eq!(
        serialize_conversation_for_summary_budget(&[user("hello")], 10, None),
        ""
    );
    let overhead = summarize_prompt_estimate_tokens(&[], None);
    let long = user(&"x".repeat(500));
    // Room for twenty bytes holds the beginning of the note.
    assert_eq!(
        serialize_conversation_for_summary_budget(&[long], overhead + 5, None),
        OMITTED_CONTENT_NOTE[..20]
    );
}

#[test]
fn a_prompt_of_wide_characters_fits_its_budget() {
    let conversation =
        serialize_conversation_for_summary_budget(&[user(&"é".repeat(50_000))], 2_000, None);
    assert!(conversation.len().div_ceil(4) <= 2_000);
    assert!(conversation.starts_with("[compaction note: omitted older serialized content"));

    let overhead = summarize_prompt_estimate_tokens(&[], None);
    let text = try_serialize_conversation_for_summary_budget(
        &[user(&"é".repeat(1_000))],
        overhead + 100,
        None,
    )
    .unwrap();
    // The note, the line ends and as many whole characters as there is room for.
    let end = text.strip_prefix(OMITTED_CONTENT_NOTE).unwrap();
    let room = 400 - OMITTED_CONTENT_NOTE.len();
    assert_eq!(end, format!("{}\n\n", "é".repeat((room - 2) / 2)));
    assert!(text.len() <= 400);
}

#[test]
fn a_session_shorter_than_what_is_kept_is_kept_whole() {
    let entries = vec![
        entry("1", None, user("a")),
        entry("2", Some("1"), assistant("b", StopReason::Stop, Usage::default())),
        entry("3", Some("2"), user("c")),
        entry("4", Some("3"), assistant("d", StopReason::Stop, Usage::default())),
    ];
    let settings = CompactionSettings {
        keep_recent_tokens: 100,
        ..Default::default()
    };
    let cut = find_cut_point(&entries, &settings);
    assert_eq!(cut.cut_index, 0);
    assert_eq!(cut.first_kept_entry_id.as_deref(), Some("1"));
    let plan = plan_compaction(model_with_context_window(0), &entries, &settings, None);
    assert!(matches!(plan, CompactionPlan::Nothing(_)));
}

#[test]
fn a_summary_call_carries_the_instructions() {
    let request = GenerateSummaryRequest {
        model: model_with_context_window(0),
        messages: vec![user("hi")],
        custom_instructions: Some("Be brief.".into()),
        prompt_budget_tokens: None,
    };
    let call = summary_call_at(&request, 5);
    assert_eq!(
        call.system_prompt,
        format!("{SUMMARIZATION_SYSTEM_PROMPT}\n\nBe brief.")
    );
    assert_eq!(text_of(&call.message), "USER:\nhi\n\n");
    assert_eq!(call.message.timestamp, 5);
    let context = call.context();
    assert!(context.system_prompt.unwrap().ends_with("Be brief."));
    assert_eq!(context.messages.len(), 1);
    assert_eq!(context.tools, None);
}

#[test]
fn a_summary_is_the_text_of_the_last_answer() {
    let mut progress = SummaryProgress::new();
    assert!(progress.on_event(AssistantMessageEvent::Other, false).is_ok());
    let usage = Usage {
        input: 3,
        ..Default::default()
    };
    let first = AssistantMessageEvent::Done {
        reason: DoneReason::Stop,
        message: answer(vec![text_block("one")], StopReason::Stop, Usage::default()),
    };
    let second = AssistantMessageEvent::Done {
        reason: DoneReason::Stop,
        message: answer(
            vec![
                text_block("two"),
                ContentBlock::Thinking(ThinkingContent {
                    thinking: "hmm".into(),
                }),
                text_block("three"),
            ],
            StopReason::Stop,
            usage,
        ),
    };
    assert!(progress.on_event(first, false).is_ok());
    assert!(progress.on_event(second, false).is_ok());
    assert_eq!(
        progress.finish(),
        Ok(GenerateSummaryOutput {
            summary: "twothree".into(),
            usage,
        })
    );
}

#[test]
fn a_summary_fails_in_three_ways() {
    assert_eq!(SummaryProgress::new().finish(), Err(SummarizeError::Empty));
    let mut progress = SummaryProgress::new();
    let failed = |why: Option<&str>| AssistantMessageEvent::Error {
        reason: ErrorReason::Error,
        error: AssistantMessage {
            error_message: why.map(|w| w.to_string()),
            ..answer(vec![], StopReason::Error, Usage::default())
        },
    };
    assert_eq!(
        progress.on_event(failed(Some("overloaded")), false),
        Err(SummarizeError::Provider("overloaded".into()))
    );
    assert_eq!(
        progress.on_event(failed(None), false),
        Err(SummarizeError::Provider("summarization failed".into()))
    );
    // Being called off comes before what the event is.
    assert_eq!(
        progress.on_event(failed(None), true),
        Err(SummarizeError::Aborted)
    );
    assert_eq!(SummarizeError::Aborted.message(), "aborted");
    assert_eq!(
        SummarizeError::Provider("x".into()).message(),
        "provider error: x"
    );
    assert_eq!(
        SummarizeError::Empty.message(),
        "summarizer produced no message"
    );
}
