use vstd::prelude::*;

use crate::connections::ConnId;

verus! {

/// The operation code that tags every envelope on the wire.
#[derive(Debug, Clone, Copy, PartialEq, Eq, Structural)]
pub enum OpCode {
    /// Written `OK` on the wire.
    Success,
    Error,
    Connect,
    CreateLobby,
    JoinLobby,
    LeaveLobby,
    DeleteLobby,
    GetLobbyIds,
    Message,
}

/// A field of a request's payload.
#[derive(Debug, Clone, Copy, PartialEq, Eq, Structural)]
pub enum Field {
    UserId,
    HostId,
    LobbyId,
    Message,
}

/// An inbound envelope as it came off the wire: its operation code and the
/// string fields of its payload that were present.
#[derive(Debug, Clone, PartialEq, Eq)]
pub struct Frame {
    pub op_code: OpCode,
    pub user_id: Option<String>,
    pub host_id: Option<String>,
    pub lobby_id: Option<String>,
    pub message: Option<String>,
}

/// A validated request: one payload shape for each operation.
#[derive(Debug, Clone, PartialEq, Eq)]
pub enum Request {
    Connect { user_id: String },
    CreateLobby { host_id: String },
    JoinLobby { lobby_id: String, user_id: String },
    LeaveLobby { lobby_id: String, user_id: String },
    DeleteLobby { lobby_id: String },
    GetLobbyIds,
    Message { lobby_id: String, user_id: String, message: String },
}

/// Why an inbound envelope could not become a request.
#[derive(Debug, Clone, Copy, PartialEq, Eq, Structural)]
pub enum ProtocolError {
    /// The frame was not an envelope at all.
    MalformedEnvelope,
    /// A field that the operation needs is absent; the first one missing is named.
    MissingField(Field),
}

/// The fields that operation `op` needs, in the order they are checked.
pub open spec fn required(op: OpCode) -> Seq<Field> {
    match op {
        OpCode::Connect => seq![Field::UserId],
        OpCode::CreateLobby => seq![Field::HostId],
        OpCode::JoinLobby | OpCode::LeaveLobby => seq![Field::LobbyId, Field::UserId],
        OpCode::DeleteLobby => seq![Field::LobbyId],
        OpCode::Message => seq![Field::LobbyId, Field::UserId, Field::Message],
        _ => seq![],
    }
}

/// Whether frame `f` carries `field`.
pub open spec fn carries(f: Frame, field: Field) -> bool {
    match field {
        Field::UserId => f.user_id is Some,
        Field::HostId => f.host_id is Some,
        Field::LobbyId => f.lobby_id is Some,
        Field::Message => f.message is Some,
    }
}

/// The first of `fields` that `f` lacks, if any.
pub open spec fn first_missing(f: Frame, fields: Seq<Field>) -> Option<Field>
    decreases fields.len(),
{
    if fields.len() == 0 {
        None
    } else if !carries(f, fields[0]) {
        Some(fields[0])
    } else {
        first_missing(f, fields.drop_first())
    }
}

/// The request that `f` asks for, once it carries every field it needs.
pub open spec fn request_of(f: Frame) -> Request {
    match f.op_code {
        OpCode::Connect => Request::Connect { user_id: f.user_id->0 },
        OpCode::CreateLobby => Request::CreateLobby { host_id: f.host_id->0 },
        OpCode::JoinLobby => Request::JoinLobby { lobby_id: f.lobby_id->0, user_id: f.user_id->0 },
        OpCode::LeaveLobby => Request::LeaveLobby { lobby_id: f.lobby_id->0, user_id: f.user_id->0 },
        OpCode::DeleteLobby => Request::DeleteLobby { lobby_id: f.lobby_id->0 },
        OpCode::Message => Request::Message {
            lobby_id: f.lobby_id->0,
            user_id: f.user_id->0,
            message: f.message->0,
        },
        _ => Request::GetLobbyIds,
    }
}

/// What decoding `f` yields: nothing for the reply-only codes `Success` and
/// `Error`; otherwise the first missing field its operation needs, or, when
/// none is missing, the request.
pub open spec fn decoded(f: Frame) -> Result<Option<Request>, ProtocolError> {
    if f.op_code == OpCode::Success || f.op_code == OpCode::Error {
        Ok(None)
    } else {
        match first_missing(f, required(f.op_code)) {
            Some(field) => Err(ProtocolError::MissingField(field)),
            None => Ok(Some(request_of(f))),
        }
    }
}

/// The first missing field, spelled out for the at most three fields an
/// operation needs; in particular a decoded request had every one of them.
pub proof fn lemma_first_missing(f: Frame)
    ensures
        ({
            let fs = required(f.op_code);
            &&& fs.len() <= 3
            &&& first_missing(f, fs) == if fs.len() > 0 && !carries(f, fs[0]) {
                Some(fs[0])
            } else if fs.len() > 1 && !carries(f, fs[1]) {
                Some(fs[1])
            } else if fs.len() > 2 && !carries(f, fs[2]) {
                Some(fs[2])
            } else {
                None::<Field>
            }
        }),
        first_missing(f, required(f.op_code)) is None ==> forall|i: int|
            0 <= i < required(f.op_code).len() ==> carries(f, #[trigger] required(f.op_code)[i]),
{
    let fs = required(f.op_code);
    if fs.len() > 0 {
        assert(fs.drop_first().len() == fs.len() - 1);
        if fs.len() > 1 {
            assert(fs.drop_first()[0] == fs[1]);
            if fs.len() > 2 {
                assert(fs.drop_first().drop_first()[0] == fs[2]);
                assert(fs.drop_first().drop_first().drop_first().len() == 0);
            } else {
                assert(fs.drop_first().drop_first().len() == 0);
            }
        } else {
            assert(fs.drop_first().len() == 0);
        }
    }
    reveal_with_fuel(first_missing, 4);
}

/// Checks that `f` carries every field its operation needs and turns it
/// into a request. Reply-only codes decode to `None`.
pub fn decode(f: Frame) -> (r: Result<Option<Request>, ProtocolError>)
    ensures
        r == decoded(f),
{
    proof {
        lemma_first_missing(f);
    }
    match f.op_code {
        OpCode::Success | OpCode::Error => Ok(None),
        OpCode::Connect => match f.user_id {
            None => Err(ProtocolError::MissingField(Field::UserId)),
            Some(user_id) => Ok(Some(Request::Connect { user_id })),
        },
        OpCode::CreateLobby => match f.host_id {
            None => Err(ProtocolError::MissingField(Field::HostId)),
            Some(host_id) => Ok(Some(Request::CreateLobby { host_id })),
        },
        OpCode::JoinLobby => match (f.lobby_id, f.user_id) {
            (None, _) => Err(ProtocolError::MissingField(Field::LobbyId)),
            (Some(_), None) => Err(ProtocolError::MissingField(Field::UserId)),
            (Some(lobby_id), Some(user_id)) => Ok(Some(Request::JoinLobby { lobby_id, user_id })),
        },
        OpCode::LeaveLobby => match (f.lobby_id, f.user_id) {
            (None, _) => Err(ProtocolError::MissingField(Field::LobbyId)),
            (Some(_), None) => Err(ProtocolError::MissingField(Field::UserId)),
            (Some(lobby_id), Some(user_id)) => Ok(Some(Request::LeaveLobby { lobby_id, user_id })),
        },
        OpCode::DeleteLobby => match f.lobby_id {
            None => Err(ProtocolError::MissingField(Field::LobbyId)),
            Some(lobby_id) => Ok(Some(Request::DeleteLobby { lobby_id })),
        },
        OpCode::GetLobbyIds => Ok(Some(Request::GetLobbyIds)),
        OpCode::Message => match (f.lobby_id, f.user_id, f.message) {
            (None, _, _) => Err(ProtocolError::MissingField(Field::LobbyId)),
            (Some(_), None, _) => Err(ProtocolError::MissingField(Field::UserId)),
            (Some(_), Some(_), None) => Err(ProtocolError::MissingField(Field::Message)),
            (Some(lobby_id), Some(user_id), Some(message)) => Ok(
                Some(Request::Message { lobby_id, user_id, message }),
            ),
        },
    }
}

/// The fixed texts that replies carry.
#[derive(Debug, Clone, Copy, PartialEq, Eq, Structural)]
pub enum Notice {
    Connected,
    Left,
    Deleted,
    HostDisconnected,
}

/// The value of a success reply.
#[derive(Debug, Clone, PartialEq, Eq)]
pub enum Payload {
    Notice(Notice),
    LobbyId(String),
    LobbyIds(Vec<String>),
}

/// What an error reply reports.
#[derive(Debug, Clone, PartialEq, Eq)]
pub enum Failure {
    Malformed,
    MissingField(Field),
    UnknownAccount(String),
    UnknownLobby(String),
}

/// An outbound envelope.
#[derive(Debug, Clone, PartialEq, Eq)]
pub enum Reply {
    /// Success of operation `for_op`.
    Success { for_op: OpCode, value: Payload },
    /// A failure, addressed to the connection that asked.
    Error(Failure),
    /// A message relayed from `from` to the other members of a room.
    Message { from: String, message: String },
}

/// An outbound envelope and the connection it goes to.
#[derive(Debug, Clone, PartialEq, Eq)]
pub struct Delivery {
    pub to: ConnId,
    pub reply: Reply,
}

pub enum PayloadView {
    Notice(Notice),
    LobbyId(Seq<char>),
    LobbyIds(Seq<Seq<char>>),
}

pub enum FailureView {
    Malformed,
    MissingField(Field),
    UnknownAccount(Seq<char>),
    UnknownLobby(Seq<char>),
}

pub enum ReplyView {
    Success { for_op: OpCode, value: PayloadView },
    Error(FailureView),
    Message { from: Seq<char>, message: Seq<char> },
}

impl View for Payload {
    type V = PayloadView;

    open spec fn view(&self) -> PayloadView {
        match self {
            Payload::Notice(n) => PayloadView::Notice(*n),
            Payload::LobbyId(id) => PayloadView::LobbyId(id@),
            Payload::LobbyIds(ids) => PayloadView::LobbyIds(crate::lobby::ids_of(ids@)),
        }
    }
}

impl View for Failure {
    type V = FailureView;

    open spec fn view(&self) -> FailureView {
        match self {
            Failure::Malformed => FailureView::Malformed,
            Failure::MissingField(f) => FailureView::MissingField(*f),
            Failure::UnknownAccount(a) => FailureView::UnknownAccount(a@),
            Failure::UnknownLobby(l) => FailureView::UnknownLobby(l@),
        }
    }
}

impl View for Reply {
    type V = ReplyView;

    open spec fn view(&self) -> ReplyView {
        match self {
            Reply::Success { for_op, value } => ReplyView::Success { for_op: *for_op, value: value@ },
            Reply::Error(f) => ReplyView::Error(f@),
            Reply::Message { from, message } => ReplyView::Message { from: from@, message: message@ },
        }
    }
}

impl View for Delivery {
    type V = (ConnId, ReplyView);

    open spec fn view(&self) -> (ConnId, ReplyView) {
        (self.to, self.reply@)
    }
}

/// The deliveries of a list, as plain values.
pub open spec fn deliveries_of(v: Seq<Delivery>) -> Seq<(ConnId, ReplyView)> {
    v.map_values(|d: Delivery| d@)
}

} // verus!
