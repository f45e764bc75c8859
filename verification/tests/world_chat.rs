use worldchat::world::chat::{
    GridPosition, MessageReaction, UserMessageData, UserMessageError, UserMoveQueue, UserState,
    decode_user_message, encode_user_message, react_to_message,
};

#[test]
fn user_message_line_is_base64_then_text() {
    assert_eq!(encode_user_message(&[0x01, 0x02, 0x03], None), "AQID");
    assert_eq!(encode_user_message(&[0xff], Some("hello world")), "/w hello world");
    assert_eq!(encode_user_message(&[], Some("x")), " x");
    assert_eq!(encode_user_message(&[2], None), "Ag");
}

#[test]
fn user_message_head_has_no_padding() {
    for n in 0..12u8 {
        let payload: Vec<u8> = (0..n).collect();
        let line = encode_user_message(&payload, Some("text after"));
        let head = line.split(' ').next().unwrap();
        assert!(!head.contains('='), "{line}");
        assert!(head.chars().all(|c| c.is_ascii_alphanumeric() || c == '+' || c == '/'));
    }
}

#[test]
fn user_message_line_reads_back() {
    for (payload, text) in [
        (vec![1u8, 2, 3], None),
        (vec![0u8; 10], Some("some text with  spaces ")),
        (vec![], Some("")),
        (vec![255u8, 254], Some(" leading")),
    ] {
        let line = encode_user_message(&payload, text);
        let (bytes, got) = decode_user_message(&line).unwrap_or_else(|_| panic!("line {line}"));
        assert_eq!(bytes, payload);
        assert_eq!(got.as_deref(), text);
    }
}

#[test]
fn user_message_with_bad_head_is_refused() {
    assert_eq!(decode_user_message("!!!"), Err(UserMessageError::Base64));
    assert_eq!(decode_user_message("AQID= text"), Err(UserMessageError::Base64));
    assert_eq!(decode_user_message("A text"), Err(UserMessageError::Base64));
    assert_eq!(decode_user_message("AQID"), Ok((vec![1, 2, 3], None)));
    assert_eq!(decode_user_message("AQID a b"), Ok((vec![1, 2, 3], Some("a b".to_string()))));
}

fn pos(x: i32, y: i32) -> GridPosition {
    GridPosition { x, y }
}

#[test]
fn reactions_follow_the_message_kind() {
    let fresh = UserState { has_name: false, is_primary: false, has_move_queue: false };
    let named = UserState { has_name: true, is_primary: false, has_move_queue: true };
    let me = UserState { has_name: true, is_primary: true, has_move_queue: false };
    assert_eq!(
        react_to_message(UserMessageData::Broadcast { name: "ann".into(), position: pos(1, 2) }, fresh),
        MessageReaction::Warp { name: "ann".into(), position: pos(1, 2) }
    );
    assert_eq!(
        react_to_message(UserMessageData::Broadcast { name: "ann".into(), position: pos(1, 2) }, named),
        MessageReaction::Nothing
    );
    assert_eq!(react_to_message(UserMessageData::Position(pos(3, 4)), fresh), MessageReaction::StartQueue(pos(3, 4)));
    assert_eq!(react_to_message(UserMessageData::Position(pos(3, 4)), named), MessageReaction::Enqueue(pos(3, 4)));
    assert_eq!(react_to_message(UserMessageData::Position(pos(3, 4)), me), MessageReaction::Nothing);
    assert_eq!(react_to_message(UserMessageData::Message, fresh), MessageReaction::Nothing);
}

#[test]
fn move_queue_keeps_order_and_skips_repeats() {
    let mut q = UserMoveQueue::new(pos(0, 1));
    assert_eq!(q.len(), 1);
    assert_eq!(q.front(), Some(pos(0, 1)));
    assert!(!q.push_if_new(pos(0, 1)));
    assert!(q.push_if_new(pos(1, 1)));
    assert!(q.push_if_new(pos(0, 1)));
    assert_eq!(q.len(), 3);
    assert_eq!(q.back(), Some(pos(0, 1)));
    q.push_back(pos(0, 1));
    assert_eq!(q.len(), 4);
    assert_eq!(q.pop_front(), Some(pos(0, 1)));
    assert_eq!(q.pop_front(), Some(pos(1, 1)));
    assert_eq!(q.pop_front(), Some(pos(0, 1)));
    assert_eq!(q.pop_front(), Some(pos(0, 1)));
    assert_eq!(q.pop_front(), None);
    assert_eq!(q.front(), None);
    assert_eq!(q.back(), None);
    assert!(q.push_if_new(pos(-1, -1)));
}
