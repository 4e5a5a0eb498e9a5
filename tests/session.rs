use chat_session::chat::{avatar_for_name, blank, Chat, Msg};
use chat_session::json::Json;
use chat_session::protocol::{frame_from_json, message_from_json, MsgTypes, WebSocketMessage};

fn session(name: &str) -> Chat {
    Chat::create(name.to_string()).0
}

fn relay(chat: &mut Chat, from: &str, text: &str) -> bool {
    let nested = format!("{{\"from\":\"{}\",\"message\":\"{}\",\"reactions\":null}}", from, text);
    let frame = WebSocketMessage {
        message_type: MsgTypes::Message,
        data_array: None,
        data: Some(nested),
    };
    chat.handle_msg(&frame.to_json())
}

fn reactions_of(chat: &Chat, index: usize) -> Option<Vec<(String, Vec<String>)>> {
    chat.messages()[index].reactions.clone()
}

#[test]
fn create_sends_register_frame() {
    let (chat, frame) = Chat::create("alice".to_string());
    assert_eq!(frame, "{\"messageType\":\"register\",\"dataArray\":null,\"data\":\"alice\"}");
    assert_eq!(chat.current_user(), "alice");
    assert!(chat.users().is_empty());
    assert!(chat.messages().is_empty());
}

#[test]
fn users_frame_fills_roster_in_order() {
    let mut chat = session("carol");
    let changed = chat.handle_msg("{\"messageType\":\"users\",\"dataArray\":[\"alice\",\"bob\"]}");
    assert!(changed);
    let users = chat.users();
    assert_eq!(users.len(), 2);
    assert_eq!(users[0].name, "alice");
    assert_eq!(users[1].name, "bob");
    assert_eq!(users[0].avatar, "https://avatars.dicebear.com/api/adventurer-neutral/alice.svg");
    assert_eq!(users[1].avatar, "https://avatars.dicebear.com/api/adventurer-neutral/bob.svg");
}

#[test]
fn latest_users_frame_replaces_roster() {
    let mut chat = session("carol");
    assert!(chat.handle_msg("{\"messageType\":\"users\",\"dataArray\":[\"alice\",\"bob\",\"dave\"]}"));
    assert!(chat.handle_msg("{\"messageType\":\"users\",\"dataArray\":[\"erin\"]}"));
    let names: Vec<&str> = chat.users().iter().map(|u| u.name.as_str()).collect();
    assert_eq!(names, vec!["erin"]);
    assert!(chat.handle_msg("{\"messageType\":\"users\"}"));
    assert!(chat.users().is_empty());
}

#[test]
fn message_frame_appends_message() {
    let mut chat = session("alice");
    let changed = chat.handle_msg(
        "{\"messageType\":\"message\",\"data\":\"{\\\"from\\\":\\\"bob\\\",\\\"message\\\":\\\"hi\\\",\\\"reactions\\\":null}\"}",
    );
    assert!(changed);
    let messages = chat.messages();
    assert_eq!(messages.len(), 1);
    assert_eq!(messages[0].from, "bob");
    assert_eq!(messages[0].message, "hi");
    assert!(messages[0].reactions.is_none());
}

#[test]
fn message_frame_keeps_relayed_reactions() {
    let mut chat = session("alice");
    let changed = chat.handle_msg(
        "{\"messageType\":\"message\",\"data\":\"{\\\"from\\\":\\\"bob\\\",\\\"message\\\":\\\"yo\\\",\\\"reactions\\\":[[\\\"x\\\",[\\\"bob\\\",\\\"dan\\\"]]]}\"}",
    );
    assert!(changed);
    assert_eq!(
        reactions_of(&chat, 0),
        Some(vec![("x".to_string(), vec!["bob".to_string(), "dan".to_string()])])
    );
    assert_eq!(chat.reaction_count(0, &"x".to_string()), 2);
}

#[test]
fn malformed_frames_are_dropped() {
    let mut chat = session("alice");
    assert!(!chat.handle_msg("not json"));
    assert!(!chat.handle_msg("{\"dataArray\":[\"a\"]}"));
    assert!(!chat.handle_msg("{\"messageType\":\"shout\"}"));
    assert!(!chat.handle_msg("{\"messageType\":\"users\",\"dataArray\":[1]}"));
    assert!(!chat.handle_msg("{\"messageType\":\"message\"}"));
    assert!(!chat.handle_msg("{\"messageType\":\"message\",\"data\":\"oops\"}"));
    assert!(!chat.handle_msg("{\"messageType\":\"message\",\"data\":\"{\\\"from\\\":\\\"bob\\\"}\"}"));
    assert!(!chat.handle_msg(
        "{\"messageType\":\"message\",\"data\":\"{\\\"from\\\":\\\"bob\\\",\\\"message\\\":\\\"hi\\\",\\\"reactions\\\":[[\\\"x\\\"]]}\"}"
    ));
    assert!(!chat.handle_msg("[1,2]"));
    assert!(chat.users().is_empty());
    assert!(chat.messages().is_empty());
}

#[test]
fn inbound_register_changes_nothing() {
    let mut chat = session("alice");
    assert!(!chat.handle_msg("{\"messageType\":\"register\",\"data\":\"bob\"}"));
    assert!(chat.users().is_empty());
    assert!(chat.messages().is_empty());
}

#[test]
fn toggle_adds_then_removes_user() {
    let mut chat = session("alice");
    assert!(relay(&mut chat, "bob", "hi"));
    assert!(chat.toggle_reaction(0, "👍".to_string()));
    assert_eq!(reactions_of(&chat, 0), Some(vec![("👍".to_string(), vec!["alice".to_string()])]));
    assert_eq!(chat.reaction_count(0, &"👍".to_string()), 1);
    assert!(chat.toggle_reaction(0, "👍".to_string()));
    assert_eq!(chat.reaction_count(0, &"👍".to_string()), 0);
    assert_eq!(reactions_of(&chat, 0), Some(vec![("👍".to_string(), vec![])]));
}

#[test]
fn toggle_out_of_range_changes_nothing() {
    let mut chat = session("alice");
    assert!(relay(&mut chat, "bob", "hi"));
    assert!(!chat.toggle_reaction(99, "👍".to_string()));
    assert_eq!(chat.messages().len(), 1);
    assert!(reactions_of(&chat, 0).is_none());
}

#[test]
fn toggle_twice_restores_members() {
    let mut chat = session("alice");
    chat.handle_msg(
        "{\"messageType\":\"message\",\"data\":\"{\\\"from\\\":\\\"bob\\\",\\\"message\\\":\\\"yo\\\",\\\"reactions\\\":[[\\\"x\\\",[\\\"bob\\\"]],[\\\"y\\\",[\\\"alice\\\"]]]}\"}",
    );
    chat.toggle_reaction(0, "x".to_string());
    assert_eq!(chat.reaction_count(0, &"x".to_string()), 2);
    chat.toggle_reaction(0, "x".to_string());
    assert_eq!(
        reactions_of(&chat, 0),
        Some(vec![
            ("x".to_string(), vec!["bob".to_string()]),
            ("y".to_string(), vec!["alice".to_string()]),
        ])
    );
    chat.toggle_reaction(0, "y".to_string());
    chat.toggle_reaction(0, "y".to_string());
    assert_eq!(chat.reaction_count(0, &"y".to_string()), 1);
}

#[test]
fn toggle_removes_every_copy_of_user() {
    let mut chat = session("alice");
    chat.handle_msg(
        "{\"messageType\":\"message\",\"data\":\"{\\\"from\\\":\\\"bob\\\",\\\"message\\\":\\\"yo\\\",\\\"reactions\\\":[[\\\"x\\\",[\\\"alice\\\",\\\"bob\\\",\\\"alice\\\"]]]}\"}",
    );
    chat.toggle_reaction(0, "x".to_string());
    assert_eq!(reactions_of(&chat, 0), Some(vec![("x".to_string(), vec!["bob".to_string()])]));
    chat.toggle_reaction(0, "x".to_string());
    assert_eq!(
        reactions_of(&chat, 0),
        Some(vec![("x".to_string(), vec!["bob".to_string(), "alice".to_string()])])
    );
}

#[test]
fn toggle_sends_nothing() {
    let mut chat = session("alice");
    relay(&mut chat, "bob", "hi");
    let update = chat.update(Msg::React(0, "👍".to_string()));
    assert!(update.changed);
    assert!(update.outbound.is_none());
    assert!(!update.clear_input);
}

#[test]
fn blank_submit_sends_nothing() {
    let mut chat = session("alice");
    assert!(chat.submit_message("").is_none());
    assert!(chat.submit_message("   \t\n").is_none());
    assert!(chat.submit_message("\u{3000}\u{a0}").is_none());
    let update = chat.update(Msg::SubmitMessage("  ".to_string()));
    assert!(update.outbound.is_none());
    assert!(update.clear_input);
    assert!(!update.changed);
}

#[test]
fn submit_hello_sends_one_frame() {
    let mut chat = session("alice");
    let update = chat.update(Msg::SubmitMessage("hello".to_string()));
    assert_eq!(
        update.outbound,
        Some("{\"messageType\":\"message\",\"dataArray\":null,\"data\":\"hello\"}".to_string())
    );
    assert!(update.clear_input);
    assert!(!update.changed);
    assert!(chat.messages().is_empty());
    let echoed = chat.update(Msg::HandleMsg(
        "{\"messageType\":\"message\",\"data\":\"{\\\"from\\\":\\\"alice\\\",\\\"message\\\":\\\"hello\\\"}\"}".to_string(),
    ));
    assert!(echoed.changed);
    assert_eq!(chat.messages().len(), 1);
    assert_eq!(chat.messages()[0].message, "hello");
}

#[test]
fn submit_keeps_text_untrimmed_and_escaped() {
    let chat = session("alice");
    assert_eq!(
        chat.submit_message(" say \"hi\" "),
        Some("{\"messageType\":\"message\",\"dataArray\":null,\"data\":\" say \\\"hi\\\" \"}".to_string())
    );
}

#[test]
fn users_frame_encodes_list() {
    let frame = WebSocketMessage {
        message_type: MsgTypes::Users,
        data_array: Some(vec!["a".to_string(), "b\"c".to_string()]),
        data: None,
    };
    assert_eq!(frame.to_json(), "{\"messageType\":\"users\",\"dataArray\":[\"a\",\"b\\\"c\"],\"data\":null}");
    let empty = WebSocketMessage { message_type: MsgTypes::Users, data_array: Some(vec![]), data: None };
    assert_eq!(empty.to_json(), "{\"messageType\":\"users\",\"dataArray\":[],\"data\":null}");
}

#[test]
fn json_tree_decodes_frame() {
    let doc = Json::Object(vec![
        ("messageType".to_string(), Json::Str("users".to_string())),
        ("dataArray".to_string(), Json::Array(vec![Json::Str("zed".to_string())])),
        ("data".to_string(), Json::Null),
        ("extra".to_string(), Json::Number("3".to_string())),
    ]);
    let frame = frame_from_json(&doc).unwrap();
    assert_eq!(frame.message_type, MsgTypes::Users);
    assert_eq!(frame.data_array, Some(vec!["zed".to_string()]));
    assert!(frame.data.is_none());
    let bad = Json::Object(vec![("messageType".to_string(), Json::Bool(true))]);
    assert!(frame_from_json(&bad).is_none());
    let mut chat = session("alice");
    assert!(chat.apply_json(&doc));
    assert_eq!(chat.users()[0].name, "zed");
}

#[test]
fn json_tree_decodes_message() {
    let doc = Json::Object(vec![
        ("from".to_string(), Json::Str("bob".to_string())),
        ("message".to_string(), Json::Str("hey".to_string())),
        (
            "reactions".to_string(),
            Json::Array(vec![Json::Array(vec![
                Json::Str("x".to_string()),
                Json::Array(vec![Json::Str("amy".to_string())]),
            ])]),
        ),
    ]);
    let m = message_from_json(&doc).unwrap();
    assert_eq!(m.from, "bob");
    assert_eq!(m.reactions, Some(vec![("x".to_string(), vec!["amy".to_string()])]));
    let missing = Json::Object(vec![("from".to_string(), Json::Str("bob".to_string()))]);
    assert!(message_from_json(&missing).is_none());
    let mut chat = session("alice");
    assert!(!chat.apply_message_json(&missing));
    assert!(chat.apply_message_json(&doc));
    assert_eq!(chat.messages().len(), 1);
}

#[test]
fn avatar_prefers_roster_entry() {
    let mut chat = session("alice");
    chat.handle_msg("{\"messageType\":\"users\",\"dataArray\":[\"bob\"]}");
    assert_eq!(chat.avatar_of(&"bob".to_string()), avatar_for_name("bob"));
    assert_eq!(
        chat.avatar_of(&"zoe".to_string()),
        "https://avatars.dicebear.com/api/adventurer-neutral/zoe.svg"
    );
}

#[test]
fn blank_follows_white_space() {
    assert!(blank(""));
    assert!(blank(" \r\n\u{2028}"));
    assert!(!blank(" a "));
    assert!(!blank("\u{200b}"));
}
