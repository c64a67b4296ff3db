//! LLM-agent model: the agent kinds the runtime knows, the chat-message
//! shape it exchanges with a vendor, and the conversation state an agent
//! accumulates. The vendor call itself is outside work; the library owns
//! the conversation bookkeeping around it.
use vstd::prelude::*;

verus! {

/// The vendors an agent can be backed by.
#[derive(Clone, Copy, Debug, PartialEq, Eq, Structural)]
pub enum AgentType {
    OpenAi,
    OpenRouter,
}

/// The role a chat message was spoken in.
#[derive(Clone, Copy, Debug, PartialEq, Eq, Structural)]
pub enum ChatRole {
    User,
    Assistant,
    System,
}

/// One chat message: a role and optional text content.
#[derive(Clone, Debug)]
pub struct ChatMessage {
    pub role: ChatRole,
    pub content: Option<String>,
}

/// A message body tagged with the vendor dialect it belongs to.
#[derive(Clone, Debug)]
pub enum ChatBody {
    OpenAi(ChatMessage),
    OpenRouter(usize),
}

/// Agent failures: a vendor error rendered as text, or a body handed to an
/// agent of the wrong kind.
#[derive(Clone, Debug)]
pub enum AgentErr {
    OpenAi(String),
    IncorrectBodyType(AgentType, ChatBody),
}

/// Arguments for creating an agent.
#[derive(Debug)]
pub struct AgentArgs {
    pub model: String,
}

/// The conversation state of one live agent: its kind, the model it was
/// created with, and the messages exchanged so far, oldest first.
#[derive(Debug)]
pub struct AgentState {
    pub kind: AgentType,
    pub model: String,
    pub messages: Vec<ChatMessage>,
}

impl AgentType {
    /// Creates the conversation state of a fresh agent of this kind: no
    /// messages yet, remembering the requested model.
    pub fn create(self, args: AgentArgs) -> (r: AgentState)
        requires
            self != AgentType::OpenRouter,
        ensures
            r.kind == self,
            r.model == args.model,
            r.messages@ == Seq::<ChatMessage>::empty(),
    {
        AgentState { kind: self, model: args.model, messages: Vec::new() }
    }
}

impl ChatBody {
    /// The text content of the message, when the dialect carries one.
    pub fn get_content(&self) -> (r: Option<String>)
        requires
            !(self matches ChatBody::OpenRouter(_)),
        ensures
            (match self {
                ChatBody::OpenAi(m) => r == m.content,
                ChatBody::OpenRouter(_) => r is None,
            }),
    {
        match self {
            ChatBody::OpenAi(message) => message.content.clone(),
            ChatBody::OpenRouter(_) => Option::None,
        }
    }
}

} // verus!
