use vstd::prelude::*;

verus! {

/// One message of a conversation.
#[derive(Clone, Debug)]
pub struct ChatMessage {
    pub role: String,
    pub content: String,
}

/// The mathematical value of a [`ChatMessage`].
pub struct ChatMessageView {
    pub role: Seq<char>,
    pub content: Seq<char>,
}

impl View for ChatMessage {
    type V = ChatMessageView;

    open spec fn view(&self) -> ChatMessageView {
        ChatMessageView { role: self.role@, content: self.content@ }
    }
}

/// The views of messages.
pub open spec fn messages_view(v: Seq<ChatMessage>) -> Seq<ChatMessageView> {
    v.map_values(|m: ChatMessage| m@)
}

/// Copies a message.
pub fn clone_message(m: &ChatMessage) -> (r: ChatMessage)
    ensures
        r@ == m@,
{
    ChatMessage { role: m.role.clone(), content: m.content.clone() }
}

/// One step of a streamed generation: a piece of text, or the end of the stream with the
/// number of tokens generated.
#[derive(Clone, Debug)]
pub struct TokenEvent {
    pub token: String,
    pub finished: bool,
    pub tokens_generated: u32,
}

} // verus!
