use pie::debug::{
    closed_line, context_line, done_line, elapsed_ms, error_line, message_log, role_label,
    start_line, tool_call_line, CallCounter, StreamTap,
};
use pie::json::Json;
use pie::message::{
    AssistantMessage, ContentBlock, ImageContent, Message, StopReason, TextContent,
    ThinkingContent, ToolCall, ToolResultMessage, Usage, UserContent, UserContentBlock,
    UserMessage,
};
use pie::model::Model;
use pie::stream::{
    AssistantMessageEvent, Context, DoneReason, ErrorReason, SimpleStreamOptions,
};
use pie::tools::write::WriteTool;

fn model() -> Model {
    Model {
        id: "m-1".into(),
        name: "M".into(),
        api: "openai-responses".into(),
        provider: "openai".into(),
        context_window: 0,
    }
}

fn user(text: &str) -> Message {
    Message::User(UserMessage {
        content: UserContent::Text(text.into()),
        timestamp: 0,
    })
}

fn call() -> ToolCall {
    ToolCall {
        id: "c1".into(),
        name: "ls".into(),
        arguments: Json::parse(r#"{"b":1,"a":[]}"#).unwrap(),
    }
}

fn answer() -> AssistantMessage {
    AssistantMessage {
        content: vec![
            ContentBlock::Thinking(ThinkingContent {
                thinking: "hmm".into(),
            }),
            ContentBlock::Text(TextContent { text: "ok".into() }),
            ContentBlock::Image(ImageContent {
                data: "AAAA".into(),
                mime_type: "image/png".into(),
            }),
            ContentBlock::ToolCall(call()),
        ],
        api: "a".into(),
        provider: "p".into(),
        model: "m".into(),
        response_model: None,
        response_id: Some("r-9".into()),
        diagnostics: None,
        usage: Usage {
            input: 1,
            output: 2,
            cache_read: 3,
            cache_write: 4,
            total_tokens: 10,
        },
        stop_reason: StopReason::ToolUse,
        error_message: None,
        timestamp: 0,
    }
}

#[test]
fn a_call_begins_with_a_line() {
    let context = Context {
        system_prompt: Some("äb".into()),
        messages: vec![user("one"), user("two")],
        tools: Some(vec![WriteTool.definition()]),
    };
    let options = SimpleStreamOptions {
        reasoning: Some("High".into()),
        session_id: Some("s1".into()),
    };
    assert_eq!(
        start_line(7, &model(), &context, Some(&options)),
        "[debug llm #7 start] provider=openai api=openai-responses model=m-1 messages=2 tools=1 system_chars=3 reasoning=High session=s1"
    );
    assert_eq!(
        context_line(7, &context).as_deref(),
        Some("[debug llm #7 context] last_user:\ntwo")
    );
    let bare = Context {
        system_prompt: None,
        messages: vec![],
        tools: None,
    };
    assert_eq!(
        start_line(1, &model(), &bare, None),
        "[debug llm #1 start] provider=openai api=openai-responses model=m-1 messages=0 tools=0 system_chars=0 reasoning=off session=-"
    );
    assert_eq!(context_line(1, &bare), None);
}

#[test]
fn messages_are_shown_block_by_block() {
    assert_eq!(
        message_log(&Message::Assistant(answer())),
        "hmm\nok\n[image:image/png]\n[tool-call:c1:ls]"
    );
    let result = Message::ToolResult(ToolResultMessage {
        tool_name: "ls".into(),
        content: vec![
            UserContentBlock::Text(TextContent { text: "a".into() }),
            UserContentBlock::Image(ImageContent {
                data: "AAAA".into(),
                mime_type: "image/gif".into(),
            }),
        ],
    });
    assert_eq!(message_log(&result), "a\n[image:image/gif]");
    assert_eq!(role_label(&result), "tool_result");
    assert_eq!(role_label(&user("x")), "user");
    assert_eq!(role_label(&Message::Assistant(answer())), "assistant");
    let blocks = Message::User(UserMessage {
        content: UserContent::Blocks(vec![]),
        timestamp: 0,
    });
    assert_eq!(message_log(&blocks), "");
}

#[test]
fn lines_of_a_call() {
    assert_eq!(elapsed_ms(1234), "1234ms");
    assert_eq!(
        tool_call_line(2, &call()),
        "[debug llm #2 tool-call] id=c1 name=ls args=\n{\n  \"a\": [],\n  \"b\": 1\n}"
    );
    assert_eq!(
        done_line(2, DoneReason::ToolUse, &answer(), 50, "0.000123"),
        "[debug llm #2 done] reason=ToolUse stop=ToolUse elapsed=50ms usage=input:1 output:2 cache_read:3 cache_write:4 total:10 cost:$0.000123 response_id=r-9 text:\nhmm\nok\n[image:image/png]\n[tool-call:c1:ls]"
    );
    assert_eq!(
        error_line(2, ErrorReason::Aborted, &answer(), 5),
        "[debug llm #2 error] reason=Aborted elapsed=5ms message=\"unknown error\""
    );
    let failed = AssistantMessage {
        error_message: Some("boom".into()),
        ..answer()
    };
    assert_eq!(
        error_line(2, ErrorReason::Error, &failed, 5),
        "[debug llm #2 error] reason=Error elapsed=5ms message=\"boom\""
    );
    assert_eq!(
        closed_line(3, 0),
        "[debug llm #3 closed] elapsed=0ms stream ended without terminal event"
    );
}

#[test]
fn a_tap_tells_a_stream_that_just_ends() {
    let mut tap = StreamTap::new(4);
    assert_eq!(tap.on_event(&AssistantMessageEvent::Other, 1, "0"), None);
    let line = tap.on_event(
        &AssistantMessageEvent::ToolCallEnd { tool_call: call() },
        1,
        "0",
    );
    assert_eq!(line, Some(tool_call_line(4, &call())));
    assert_eq!(tap.on_end(9), Some(closed_line(4, 9)));
    let done = AssistantMessageEvent::Done {
        reason: DoneReason::Stop,
        message: answer(),
    };
    assert_eq!(
        tap.on_event(&done, 2, "1"),
        Some(done_line(4, DoneReason::Stop, &answer(), 2, "1"))
    );
    assert_eq!(tap.on_end(9), None);
    let mut failing = StreamTap::new(5);
    let error = AssistantMessageEvent::Error {
        reason: ErrorReason::Error,
        error: answer(),
    };
    assert_eq!(
        failing.on_event(&error, 2, "1"),
        Some(error_line(5, ErrorReason::Error, &answer(), 2))
    );
    assert_eq!(failing.on_end(9), None);
}

#[test]
fn calls_are_numbered() {
    let mut counter = CallCounter::new();
    assert_eq!(counter.take(), 1);
    assert_eq!(counter.take(), 2);
    let mut last = CallCounter { next: u64::MAX };
    assert_eq!(last.take(), u64::MAX);
    assert_eq!(last.take(), 0);
}
