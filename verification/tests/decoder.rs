use agent::content::ContentBlock;
use agent::decoder::{
    decode, BlockStart, Delta, StreamEvent, ToolInputDecodeError, TurnDecoder,
};

fn text(fragment: &str) -> StreamEvent {
    StreamEvent::Delta(Delta::Text(fragment.to_string()))
}

fn tool_input(fragment: &str) -> StreamEvent {
    StreamEvent::Delta(Delta::ToolInput(fragment.to_string()))
}

fn start_tool(id: &str, name: &str) -> StreamEvent {
    StreamEvent::Start(BlockStart::ToolUse { id: id.to_string(), name: name.to_string() })
}

fn tool_use(id: &str, name: &str, input: &str) -> ContentBlock {
    ContentBlock::ToolUse {
        id: id.to_string(),
        name: name.to_string(),
        input: input.to_string(),
    }
}

#[test]
fn text_fragments_are_joined_into_one_block() {
    let events = vec![StreamEvent::Start(BlockStart::Text), text("ab"), text("cd"), StreamEvent::Stop];
    assert_eq!(decode(&events), Ok(vec![ContentBlock::Text("abcd".to_string())]));
}

#[test]
fn text_and_tool_call_keep_their_order() {
    let events = vec![
        StreamEvent::Start(BlockStart::Text),
        text("hi"),
        StreamEvent::Stop,
        start_tool("1", "x"),
        tool_input("{\"a\":"),
        tool_input("1}"),
        StreamEvent::Stop,
    ];
    let blocks = decode(&events).unwrap();
    assert_eq!(blocks, vec![ContentBlock::Text("hi".to_string()), tool_use("1", "x", "{\"a\":1}")]);
    let input = match &blocks[1] {
        ContentBlock::ToolUse { input, .. } => input.clone(),
        other => panic!("not a tool call: {:?}", other),
    };
    let parsed: serde_json::Value = serde_json::from_str(&input).unwrap();
    let mut expected = serde_json::Map::new();
    expected.insert("a".to_string(), serde_json::Value::from(1));
    assert_eq!(parsed, serde_json::Value::Object(expected));
}

#[test]
fn malformed_tool_input_fails_the_decode() {
    let events = vec![start_tool("7", "search"), tool_input("{bad"), StreamEvent::Stop];
    assert_eq!(
        decode(&events),
        Err(ToolInputDecodeError {
            id: "7".to_string(),
            name: "search".to_string(),
            input: "{bad".to_string(),
        })
    );
}

#[test]
fn malformed_tool_input_discards_earlier_blocks() {
    let events = vec![
        text("before"),
        StreamEvent::Stop,
        start_tool("7", "search"),
        tool_input("{bad"),
        StreamEvent::Stop,
        text("after"),
        StreamEvent::Stop,
    ];
    let result = decode(&events);
    assert!(result.is_err());
}

#[test]
fn decoder_is_left_as_new_after_an_error() {
    let mut decoder = TurnDecoder::new();
    assert_eq!(decoder.push_event(&text("kept")), Ok(()));
    assert_eq!(decoder.push_event(&start_tool("1", "x")), Ok(()));
    assert_eq!(decoder.push_event(&tool_input("nope")), Ok(()));
    assert!(decoder.push_event(&StreamEvent::Stop).is_err());
    assert_eq!(decoder.finish(), Ok(vec![]));
}

#[test]
fn stop_with_no_arguments_received_fails() {
    let events = vec![start_tool("1", "x"), StreamEvent::Stop];
    assert_eq!(
        decode(&events),
        Err(ToolInputDecodeError {
            id: "1".to_string(),
            name: "x".to_string(),
            input: String::new(),
        })
    );
}

#[test]
fn trailing_text_without_stop_is_flushed() {
    let events = vec![text("a"), StreamEvent::Stop, text("tail")];
    assert_eq!(
        decode(&events),
        Ok(vec![ContentBlock::Text("a".to_string()), ContentBlock::Text("tail".to_string())])
    );
}

#[test]
fn open_call_without_arguments_is_dropped_at_end_of_stream() {
    let events = vec![text("a"), start_tool("1", "x")];
    assert_eq!(decode(&events), Ok(vec![ContentBlock::Text("a".to_string())]));
}

#[test]
fn open_call_with_malformed_arguments_fails_at_end_of_stream() {
    let events = vec![start_tool("1", "x"), tool_input("{\"a\":")];
    assert_eq!(
        decode(&events),
        Err(ToolInputDecodeError {
            id: "1".to_string(),
            name: "x".to_string(),
            input: "{\"a\":".to_string(),
        })
    );
}

#[test]
fn open_call_with_complete_arguments_is_dropped_at_end_of_stream() {
    let events = vec![start_tool("1", "x"), tool_input("{}")];
    assert_eq!(decode(&events), Ok(vec![]));
}

#[test]
fn empty_stream_decodes_to_no_block() {
    assert_eq!(decode(&Vec::new()), Ok(vec![]));
}

#[test]
fn stop_without_content_closes_nothing() {
    let events = vec![StreamEvent::Stop, StreamEvent::Stop];
    assert_eq!(decode(&events), Ok(vec![]));
}

#[test]
fn other_starts_and_other_events_change_nothing() {
    let events = vec![
        StreamEvent::Other,
        StreamEvent::Start(BlockStart::Other),
        text("a"),
        StreamEvent::Other,
        text("b"),
        StreamEvent::Stop,
        StreamEvent::Other,
    ];
    assert_eq!(decode(&events), Ok(vec![ContentBlock::Text("ab".to_string())]));
}

#[test]
fn tool_input_with_no_call_open_is_dropped() {
    let events = vec![tool_input("{\"lost\":true}"), text("a"), StreamEvent::Stop];
    assert_eq!(decode(&events), Ok(vec![ContentBlock::Text("a".to_string())]));
}

#[test]
fn a_second_start_replaces_the_open_call() {
    let events = vec![
        start_tool("1", "first"),
        tool_input("{\"n\":1}"),
        start_tool("2", "second"),
        tool_input("[2]"),
        StreamEvent::Stop,
    ];
    assert_eq!(decode(&events), Ok(vec![tool_use("2", "second", "[2]")]));
}

#[test]
fn stop_flushes_text_before_the_tool_call() {
    let events = vec![start_tool("1", "x"), tool_input("null"), text("said"), StreamEvent::Stop];
    assert_eq!(
        decode(&events),
        Ok(vec![ContentBlock::Text("said".to_string()), tool_use("1", "x", "null")])
    );
}

#[test]
fn several_tool_calls_come_out_in_closing_order() {
    let events = vec![
        start_tool("a", "one"),
        tool_input("{}"),
        StreamEvent::Stop,
        text("between"),
        StreamEvent::Stop,
        start_tool("b", "two"),
        tool_input("{\"k\":"),
        tool_input("\"v\"}"),
        StreamEvent::Stop,
    ];
    assert_eq!(
        decode(&events),
        Ok(vec![
            tool_use("a", "one", "{}"),
            ContentBlock::Text("between".to_string()),
            tool_use("b", "two", "{\"k\":\"v\"}"),
        ])
    );
}

#[test]
fn blocks_of_a_prefix_are_the_first_blocks_of_the_whole() {
    let events = || {
        vec![
            text("one"),
            StreamEvent::Stop,
            start_tool("t", "tool"),
            tool_input("1"),
            StreamEvent::Stop,
            text("two"),
            StreamEvent::Stop,
        ]
    };
    let whole = decode(&events()).unwrap();
    assert_eq!(whole.len(), 3);
    for (cut, closed) in [(0, 0), (2, 1), (5, 2), (7, 3)] {
        let mut prefix = events();
        prefix.truncate(cut);
        let blocks = decode(&prefix).unwrap();
        assert_eq!(blocks.len(), closed);
        assert_eq!(&whole[..closed], &blocks[..]);
    }
}

#[test]
fn stop_with_closes_the_call_only_if_told_its_input_is_json() {
    let mut decoder = TurnDecoder::new();
    decoder.push_event(&text("hi")).unwrap();
    decoder.push_event(&start_tool("1", "x")).unwrap();
    decoder.push_event(&tool_input("{\"a\":1}")).unwrap();
    assert!(decoder.pending_is_json());
    assert_eq!(decoder.stop_with(true), Ok(()));
    assert!(!decoder.pending_is_json());
    assert_eq!(
        decoder.finish(),
        Ok(vec![ContentBlock::Text("hi".to_string()), tool_use("1", "x", "{\"a\":1}")])
    );

    let mut refused = TurnDecoder::new();
    refused.push_event(&start_tool("1", "x")).unwrap();
    refused.push_event(&tool_input("{\"a\":1}")).unwrap();
    assert_eq!(
        refused.stop_with(false),
        Err(ToolInputDecodeError {
            id: "1".to_string(),
            name: "x".to_string(),
            input: "{\"a\":1}".to_string(),
        })
    );
    assert_eq!(refused.finish(), Ok(vec![]));
}

#[test]
fn stop_with_and_no_call_open_only_flushes_text() {
    let mut decoder = TurnDecoder::new();
    decoder.push_event(&text("a")).unwrap();
    assert!(!decoder.pending_is_json());
    assert_eq!(decoder.stop_with(false), Ok(()));
    assert_eq!(decoder.stop_with(true), Ok(()));
    assert_eq!(decoder.finish_with(true), Ok(vec![ContentBlock::Text("a".to_string())]));
}

#[test]
fn finish_with_fails_only_on_arguments_that_are_not_json() {
    let open = |fragment: &str| {
        let mut decoder = TurnDecoder::new();
        decoder.push_event(&text("t")).unwrap();
        decoder.push_event(&start_tool("1", "x")).unwrap();
        if !fragment.is_empty() {
            decoder.push_event(&tool_input(fragment)).unwrap();
        }
        decoder
    };
    let only_text = Ok(vec![ContentBlock::Text("t".to_string())]);
    assert_eq!(open("").finish_with(false), only_text);
    assert_eq!(open("").finish_with(true), only_text);
    assert_eq!(open("{}").finish_with(true), only_text);
    assert_eq!(
        open("{").finish_with(false),
        Err(ToolInputDecodeError {
            id: "1".to_string(),
            name: "x".to_string(),
            input: "{".to_string(),
        })
    );
    assert!(!open("{").pending_is_json());
    assert!(open("{}").pending_is_json());
    assert!(!open("").pending_is_json());
}

#[test]
fn decoding_twice_gives_the_same_blocks() {
    let events = vec![text("x"), start_tool("1", "t"), tool_input("{\"a\":[1,2]}"), StreamEvent::Stop];
    assert_eq!(decode(&events), decode(&events));
}
