use lobic::protocol::{decode, Field, Frame, OpCode, ProtocolError, Request};

fn frame(op: OpCode, user: Option<&str>, host: Option<&str>, lobby: Option<&str>, message: Option<&str>) -> Frame {
    Frame {
        op_code: op,
        user_id: user.map(|s| s.to_string()),
        host_id: host.map(|s| s.to_string()),
        lobby_id: lobby.map(|s| s.to_string()),
        message: message.map(|s| s.to_string()),
    }
}

#[test]
fn decode_connect() {
    assert_eq!(
        decode(frame(OpCode::Connect, Some("a"), None, None, None)),
        Ok(Some(Request::Connect { user_id: "a".to_string() }))
    );
    assert_eq!(
        decode(frame(OpCode::Connect, None, Some("a"), None, None)),
        Err(ProtocolError::MissingField(Field::UserId))
    );
}

#[test]
fn decode_create_lobby() {
    assert_eq!(
        decode(frame(OpCode::CreateLobby, None, Some("h"), None, None)),
        Ok(Some(Request::CreateLobby { host_id: "h".to_string() }))
    );
    assert_eq!(
        decode(frame(OpCode::CreateLobby, Some("h"), None, None, None)),
        Err(ProtocolError::MissingField(Field::HostId))
    );
}

#[test]
fn decode_join_reports_first_missing_field() {
    assert_eq!(
        decode(frame(OpCode::JoinLobby, None, None, None, None)),
        Err(ProtocolError::MissingField(Field::LobbyId))
    );
    assert_eq!(
        decode(frame(OpCode::JoinLobby, None, None, Some("r"), None)),
        Err(ProtocolError::MissingField(Field::UserId))
    );
    assert_eq!(
        decode(frame(OpCode::JoinLobby, Some("u"), None, Some("r"), None)),
        Ok(Some(Request::JoinLobby { lobby_id: "r".to_string(), user_id: "u".to_string() }))
    );
}

#[test]
fn decode_leave_and_delete() {
    assert_eq!(
        decode(frame(OpCode::LeaveLobby, Some("u"), None, None, None)),
        Err(ProtocolError::MissingField(Field::LobbyId))
    );
    assert_eq!(
        decode(frame(OpCode::LeaveLobby, Some("u"), None, Some("r"), None)),
        Ok(Some(Request::LeaveLobby { lobby_id: "r".to_string(), user_id: "u".to_string() }))
    );
    assert_eq!(
        decode(frame(OpCode::DeleteLobby, Some("u"), None, None, None)),
        Err(ProtocolError::MissingField(Field::LobbyId))
    );
    assert_eq!(
        decode(frame(OpCode::DeleteLobby, None, None, Some("r"), None)),
        Ok(Some(Request::DeleteLobby { lobby_id: "r".to_string() }))
    );
}

#[test]
fn decode_message_fields_in_order() {
    assert_eq!(
        decode(frame(OpCode::Message, None, None, None, None)),
        Err(ProtocolError::MissingField(Field::LobbyId))
    );
    assert_eq!(
        decode(frame(OpCode::Message, None, None, Some("r"), Some("hi"))),
        Err(ProtocolError::MissingField(Field::UserId))
    );
    assert_eq!(
        decode(frame(OpCode::Message, Some("u"), None, Some("r"), None)),
        Err(ProtocolError::MissingField(Field::Message))
    );
    assert_eq!(
        decode(frame(OpCode::Message, Some("u"), None, Some("r"), Some("hi"))),
        Ok(Some(Request::Message {
            lobby_id: "r".to_string(),
            user_id: "u".to_string(),
            message: "hi".to_string()
        }))
    );
}

#[test]
fn decode_list_and_reply_codes() {
    assert_eq!(decode(frame(OpCode::GetLobbyIds, None, None, None, None)), Ok(Some(Request::GetLobbyIds)));
    assert_eq!(decode(frame(OpCode::Success, Some("u"), None, None, None)), Ok(None));
    assert_eq!(decode(frame(OpCode::Error, None, None, None, None)), Ok(None));
}
