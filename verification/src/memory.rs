//! The data shapes and endpoint paths of the memory-server sync client. The
//! HTTP requests themselves are I/O and live outside the library.

use vstd::prelude::*;
use vstd::string::StringExecFns;

verus! {

/// The author of one chat message.
#[derive(Debug, PartialEq, Eq, Clone, Copy)]
pub enum MessageRole {
    System,
    User,
    Assistant,
    Tool,
}

/// Where the memory server lives.
#[derive(Debug, PartialEq, Eq)]
pub struct MemoryConfig {
    pub base_url: String,
}

/// One chat record, as the memory server keys it.
#[derive(Debug, PartialEq, Eq)]
pub struct Chat {
    pub id: String,
    pub session_id: String,
    pub created_at: String,
    pub updated_at: String,
}

/// One message of a chat.
#[derive(Debug, PartialEq, Eq)]
pub struct ChatMessage {
    pub role: MessageRole,
    pub content: String,
}

/// The collection URL chats are created under and listed from.
pub fn chats_url(base_url: &str) -> (r: String)
    ensures
        r@ == base_url@ + "/chats"@,
{
    let mut s: String = base_url.to_owned();
    s.append("/chats");
    s
}

/// The URL of one chat.
pub fn chat_url(base_url: &str, chat_id: &str) -> (r: String)
    ensures
        r@ == base_url@ + "/chats/"@ + chat_id@,
{
    let mut s: String = base_url.to_owned();
    s.append("/chats/");
    s.append(chat_id);
    s
}

/// The URL of one chat's messages.
pub fn chat_messages_url(base_url: &str, chat_id: &str) -> (r: String)
    ensures
        r@ == base_url@ + "/chats/"@ + chat_id@ + "/messages"@,
{
    let mut s: String = base_url.to_owned();
    s.append("/chats/");
    s.append(chat_id);
    s.append("/messages");
    s
}

} // verus!
