//! Agent conversation operations over the registry: sending appends the
//! user message and, when the vendor answers, the reply; receiving reads
//! the last message's content. The vendor call itself is outside work:
//! the engine consumes the replies it was given, in order.
use vstd::prelude::*;
use crate::agent::{ChatMessage, ChatRole};
use crate::errors::EvalError;
use crate::evaluator::{Engine, engine_wf};
use crate::registries::agent_chain_pos;

verus! {

impl Engine {
    /// Appends the user's message to the agent's conversation and, when
    /// a vendor reply is available, appends that reply after it; fails
    /// with the missing identifier when no agent is registered under it.
    pub fn agent_send(&mut self, scope: usize, id: u128, content: &String) -> (r: Result<
        (),
        EvalError,
    >)
        requires
            engine_wf(*old(self)),
            scope < old(self).scopes@.len(),
        ensures
            engine_wf(*final(self)),
            crate::evaluator::step_frame(*old(self), *final(self)),
            final(self).templates@ == old(self).templates@,
            final(self).mails@ == old(self).mails@,
            final(self).scopes@.len() == old(self).scopes@.len(),
            crate::evaluator::scopes_preserve_nodes(old(self).scopes@, final(self).scopes@),
            agent_chain_pos(old(self).scopes@, scope as int, id) is None <==> (r matches Err(e)
                && e matches EvalError::AgentNotFound(got) && got == id),
            final(self).agent_replies@ == old(self).agent_replies@,
            (match agent_chain_pos(old(self).scopes@, scope as int, id) {
                Some(sp) => r is Ok && {
                    let msgs = old(self).scopes@[sp.0].agents@[sp.1].1.messages@;
                    let new_msgs = final(self).scopes@[sp.0].agents@[sp.1].1.messages@;
                    &&& new_msgs.len() >= msgs.len() + 1
                    &&& new_msgs[msgs.len() as int].role == ChatRole::User
                    &&& new_msgs[msgs.len() as int].content matches Some(c) && c@ == content@
                    &&& forall|i: int| 0 <= i < msgs.len() ==> new_msgs[i] == msgs[i]
                    &&& (if old(self).reply_cursor < old(self).agent_replies@.len() {
                        &&& final(self).reply_cursor == old(self).reply_cursor + 1
                        &&& new_msgs.len() == msgs.len() + 2
                        &&& new_msgs.last().role == ChatRole::Assistant
                        &&& new_msgs.last().content matches Some(c2) && c2@ == old(
                            self,
                        ).agent_replies@[old(self).reply_cursor as int]@
                    } else {
                        &&& final(self).reply_cursor == old(self).reply_cursor
                        &&& new_msgs.len() == msgs.len() + 1
                    })
                },
                None => final(self).scopes@ == old(self).scopes@ && final(self).reply_cursor
                    == old(self).reply_cursor,
            }),
    {
        let ghost pre = self.scopes@;
        match self.find_agent_entry(scope, id) {
            None => Err(EvalError::AgentNotFound(id)),
            Some((si, pos)) => {
                let user = ChatMessage { role: ChatRole::User, content: Some(content.clone()) };
                self.scopes[si].agents[pos].1.messages.push(user);
                proof {
                    let post = self.scopes@;
                    assert(post =~= pre.update(si as int, post[si as int]));
                    assert(post[si as int].agents@ =~= pre[si as int].agents@.update(
                        pos as int,
                        post[si as int].agents@[pos as int],
                    ));
                }
                if self.reply_cursor < self.agent_replies.len() {
                    let ghost mid = self.scopes@;
                    let reply = self.agent_replies[self.reply_cursor].clone();
                    self.reply_cursor = self.reply_cursor + 1;
                    let assistant = ChatMessage { role: ChatRole::Assistant, content: Some(reply) };
                    self.scopes[si].agents[pos].1.messages.push(assistant);
                    proof {
                        let post = self.scopes@;
                        assert(post =~= mid.update(si as int, post[si as int]));
                        assert(post[si as int].agents@ =~= mid[si as int].agents@.update(
                            pos as int,
                            post[si as int].agents@[pos as int],
                        ));
                    }
                }
                Ok(())
            },
        }
    }

    /// The content of the vendor's most recent reply: the last message
    /// when it is the assistant's, and nothing when the conversation is
    /// empty or still waiting on a reply; fails with the missing
    /// identifier when no agent is registered.
    pub fn agent_recieve(&mut self, scope: usize, id: u128) -> (r: Result<Option<String>, EvalError>)
        requires
            engine_wf(*old(self)),
            scope < old(self).scopes@.len(),
        ensures
            engine_wf(*final(self)),
            crate::evaluator::step_frame(*old(self), *final(self)),
            *final(self) == *old(self),
            agent_chain_pos(old(self).scopes@, scope as int, id) is None <==> (r matches Err(e)
                && e matches EvalError::AgentNotFound(got) && got == id),
            (match agent_chain_pos(old(self).scopes@, scope as int, id) {
                Some(sp) => r matches Ok(got) && {
                    let msgs = old(self).scopes@[sp.0].agents@[sp.1].1.messages@;
                    if msgs.len() == 0 || msgs.last().role != ChatRole::Assistant {
                        got is None
                    } else {
                        match (got, msgs.last().content) {
                            (Some(a), Some(b)) => a@ == b@,
                            (None, None) => true,
                            _ => false,
                        }
                    }
                },
                None => true,
            }),
    {
        match self.find_agent_entry(scope, id) {
            None => Err(EvalError::AgentNotFound(id)),
            Some((si, pos)) => {
                let n = self.scopes[si].agents[pos].1.messages.len();
                if n == 0 {
                    return Ok(Option::None);
                }
                let is_reply = match self.scopes[si].agents[pos].1.messages[n - 1].role {
                    ChatRole::Assistant => true,
                    _ => false,
                };
                if !is_reply {
                    return Ok(Option::None);
                }
                match &self.scopes[si].agents[pos].1.messages[n - 1].content {
                    Some(c) => Ok(Some(c.clone())),
                    None => Ok(Option::None),
                }
            },
        }
    }
}

} // verus!
