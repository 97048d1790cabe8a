//! Commands on the key-value store, and the messages that carry them.
use vstd::prelude::*;

verus! {

/// Identifies a server of the cluster.
pub type NodeId = u64;

/// Identifies a client of one server.
pub type ClientId = u64;

/// Identifies a command among those that one client has sent.
pub type CommandId = usize;

/// A command on the key-value store.
#[derive(Debug, PartialEq, Eq)]
pub enum KVCommand {
    /// Store a value under a key.
    Put(String, String),
    /// Remove a key.
    Delete(String),
    /// Read the value of a key.
    Get(String),
    /// Store a value (the last) under a key (the first) where its value is the expected one.
    Cas(String, String, String),
}

/// What a connection says of itself first.
#[derive(Debug, PartialEq, Eq)]
pub enum RegistrationMessage {
    NodeRegister(NodeId),
    ClientRegister,
}

/// What a client sends to a server.
#[derive(Debug, PartialEq, Eq)]
pub enum ClientMessage {
    Append(CommandId, KVCommand),
}

/// What a server sends to a client.
#[derive(Debug, PartialEq, Eq)]
pub enum ServerMessage {
    /// The command was a write, and was applied.
    Write(CommandId),
    /// The command was a read, and this is what it found.
    Read(CommandId, Option<String>),
    /// The time at which the cluster starts.
    StartSignal(i64),
}

/// The command that a server message answers, if it answers one.
pub open spec fn answered(msg: ServerMessage) -> Option<CommandId> {
    match msg {
        ServerMessage::Write(cmd_id) => Some(cmd_id),
        ServerMessage::Read(cmd_id, _) => Some(cmd_id),
        ServerMessage::StartSignal(_) => None,
    }
}

/// The view of an optional string.
pub open spec fn text_option(s: Option<String>) -> Option<Seq<char>> {
    match s {
        Some(t) => Some(t@),
        None => None,
    }
}

/// The reply to a write or to a read answers the very command whose number it carries, and a start
/// signal answers none.
pub proof fn law_reply_answers_the_command_it_names(
    cmd_id: CommandId,
    value: Option<String>,
    time: i64,
)
    ensures
        answered(ServerMessage::Write(cmd_id)) == Some(cmd_id),
        answered(ServerMessage::Read(cmd_id, value)) == Some(cmd_id),
        answered(ServerMessage::StartSignal(time)) is None,
{
}

/// The view of an optional string is there where the string is, and has all of its characters.
pub proof fn law_text_option_keeps_the_text(s: Option<String>)
    ensures
        text_option(s) is Some <==> s is Some,
        s is Some ==> text_option(s)->0 == s->0@,
{
}

} // verus!
