use agent::content::{ContentBlock, Message, Role};
use agent::error::AgentError;
use agent::history::HistoryStore;

fn user(text: &str) -> Message {
    Message { role: Role::User, blocks: vec![ContentBlock::Text(text.to_string())] }
}

#[test]
fn new_history_is_empty() {
    let history = HistoryStore::new();
    assert!(history.is_empty());
    assert_eq!(history.len(), 0);
    assert_eq!(history.snapshot(), Vec::<Message>::new());
}

#[test]
fn append_user_adds_one_text_message() {
    let mut history = HistoryStore::new();
    history.append_user("hello");
    assert_eq!(history.snapshot(), vec![user("hello")]);
    assert_eq!(history.len(), 1);
    assert!(!history.is_empty());
}

#[test]
fn append_assistant_adds_the_blocks_in_order() {
    let mut history = HistoryStore::new();
    history.append_user("q");
    let blocks = vec![
        ContentBlock::Text("a".to_string()),
        ContentBlock::ToolUse {
            id: "1".to_string(),
            name: "t".to_string(),
            input: "{}".to_string(),
        },
    ];
    assert_eq!(history.append_assistant(blocks), Ok(()));
    assert_eq!(
        history.snapshot(),
        vec![
            user("q"),
            Message {
                role: Role::Assistant,
                blocks: vec![
                    ContentBlock::Text("a".to_string()),
                    ContentBlock::ToolUse {
                        id: "1".to_string(),
                        name: "t".to_string(),
                        input: "{}".to_string(),
                    },
                ],
            },
        ]
    );
}

#[test]
fn append_assistant_refuses_an_empty_reply() {
    let mut history = HistoryStore::new();
    history.append_user("q");
    assert_eq!(
        history.append_assistant(Vec::new()),
        Err(AgentError::MessageBuildError(
            "Failed to build message: content was not specified but it is required when building Message"
                .to_string()
        ))
    );
    assert_eq!(history.snapshot(), vec![user("q")]);
}

#[test]
fn append_tool_result_adds_a_user_message() {
    let mut history = HistoryStore::new();
    history.append_tool_result("call-1".to_string(), "{\"ok\":true}".to_string());
    assert_eq!(
        history.snapshot(),
        vec![Message {
            role: Role::User,
            blocks: vec![ContentBlock::ToolResult {
                id: "call-1".to_string(),
                payload: "{\"ok\":true}".to_string(),
            }],
        }]
    );
}

#[test]
fn rollback_on_empty_history_is_a_no_op() {
    let mut history = HistoryStore::new();
    assert!(!history.rollback_last_if_user());
    assert!(history.is_empty());
    assert!(!history.rollback_last_if_user());
    assert!(history.is_empty());
}

#[test]
fn rollback_after_assistant_message_is_a_no_op() {
    let mut history = HistoryStore::new();
    history.append_user("q");
    history.append_assistant(vec![ContentBlock::Text("a".to_string())]).unwrap();
    let before = history.snapshot();
    assert!(!history.rollback_last_if_user());
    assert_eq!(history.snapshot(), before);
    assert!(!history.rollback_last_if_user());
    assert_eq!(history.snapshot(), before);
}

#[test]
fn rollback_removes_the_last_user_message_only() {
    let mut history = HistoryStore::new();
    history.append_user("first");
    history.append_assistant(vec![ContentBlock::Text("a".to_string())]).unwrap();
    history.append_user("second");
    assert!(history.rollback_last_if_user());
    assert_eq!(history.len(), 2);
    assert_eq!(history.snapshot()[0], user("first"));
    assert!(!history.rollback_last_if_user());
    assert_eq!(history.len(), 2);
}

#[test]
fn rollback_removes_a_tool_result() {
    let mut history = HistoryStore::new();
    history.append_user("q");
    history.append_tool_result("1".to_string(), "null".to_string());
    assert!(history.rollback_last_if_user());
    assert_eq!(history.snapshot(), vec![user("q")]);
}

#[test]
fn snapshot_is_a_copy() {
    let mut history = HistoryStore::new();
    history.append_user("a");
    let snapshot = history.snapshot();
    history.append_user("b");
    assert_eq!(snapshot, vec![user("a")]);
    assert_eq!(history.snapshot(), vec![user("a"), user("b")]);
}

#[test]
fn message_clone_is_equal() {
    let message = Message {
        role: Role::Assistant,
        blocks: vec![
            ContentBlock::Text("t".to_string()),
            ContentBlock::ToolUse {
                id: "i".to_string(),
                name: "n".to_string(),
                input: "[1]".to_string(),
            },
            ContentBlock::ToolResult { id: "i".to_string(), payload: "2".to_string() },
        ],
    };
    assert_eq!(message.clone(), message);
    assert!(message.blocks[1].is_tool_use());
    assert!(!message.blocks[0].is_tool_use());
    assert!(!message.blocks[2].is_tool_use());
}
