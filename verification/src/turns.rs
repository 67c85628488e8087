//! Persistence planning for chat turns.  A completed remote exchange is
//! turned into the exact batch of message writes the local store must
//! commit as one unit: both sides of a turn, or the single agent message of
//! an opener.  An exchange without output yields no plan at all, so no
//! state can exist where a user message stands without its reply.

use vstd::prelude::*;

use crate::protocol::ChatResponse;
use crate::protocol::OpenerResponse;

verus! {

/// One message row the local store is asked to create.
#[derive(Debug)]
pub struct MessageWrite {
    pub conversation_id: String,
    pub text: String,
    pub is_from_agent: bool,
}

/// The two linked writes of one turn, committed atomically: the user's
/// message and the agent's reply, in that order.
#[derive(Debug)]
pub struct TurnPlan {
    pub user: MessageWrite,
    pub agent: MessageWrite,
}

/// Plans the persistence of one chat turn.  An exchange that carries output
/// yields exactly the pair of writes for it; an exchange without output is
/// fatal for the turn and yields no plan, so nothing is ever persisted for
/// it.
pub fn plan_turn(conversation_id: &str, user_text: &str, response: &ChatResponse) -> (r: Option<
    TurnPlan,
>)
    ensures
        r is Some <==> response.output is Some,
        r matches Some(p) ==> {
            &&& p.user.conversation_id@ == conversation_id@
            &&& p.user.text@ == user_text@
            &&& p.user.is_from_agent == false
            &&& p.agent.conversation_id@ == conversation_id@
            &&& p.agent.text@ == response.output->Some_0.text@
            &&& p.agent.is_from_agent == true
        },
{
    match &response.output {
        None => None,
        Some(output) => {
            let user = MessageWrite {
                conversation_id: conversation_id.to_owned(),
                text: user_text.to_owned(),
                is_from_agent: false,
            };
            let agent = MessageWrite {
                conversation_id: conversation_id.to_owned(),
                text: output.text.clone(),
                is_from_agent: true,
            };
            Some(TurnPlan { user, agent })
        },
    }
}

/// Plans the persistence of a conversation opener: the agent's message
/// alone, as no user message exists for an opener.  An opener without
/// output is fatal and yields no write.
pub fn plan_opener(conversation_id: &str, response: &OpenerResponse) -> (r: Option<MessageWrite>)
    ensures
        r is Some <==> response.output is Some,
        r matches Some(m) ==> {
            &&& m.conversation_id@ == conversation_id@
            &&& m.text@ == response.output->Some_0.text@
            &&& m.is_from_agent == true
        },
{
    match &response.output {
        None => None,
        Some(output) => Some(
            MessageWrite {
                conversation_id: conversation_id.to_owned(),
                text: output.text.clone(),
                is_from_agent: true,
            },
        ),
    }
}

/// The rows a turn plan asks the store to create, in order.
pub open spec fn turn_writes(p: TurnPlan) -> Seq<MessageWrite> {
    seq![p.user, p.agent]
}

/// Commits one turn against a store of message rows: exactly the two
/// writes of the plan are appended, as one unit, in order.
pub fn apply_turn(store: &mut Vec<MessageWrite>, plan: TurnPlan)
    ensures
        final(store)@ == old(store)@ + turn_writes(plan),
{
    let TurnPlan { user, agent } = plan;
    store.push(user);
    store.push(agent);
    proof {
        assert(store@ =~= old(store)@ + turn_writes(plan));
    }
}

/// Commits one opener against a store of message rows: exactly the one
/// agent-side write is appended.
pub fn apply_opener(store: &mut Vec<MessageWrite>, message: MessageWrite)
    ensures
        final(store)@ == old(store)@.push(message),
{
    store.push(message);
}

/// Committing the same turn plan twice appends two independent pairs of
/// rows: the orchestrator deduplicates nothing, and a repeated identical
/// exchange grows the store by both turns.
pub proof fn lemma_turns_not_deduplicated(
    before: Seq<MessageWrite>,
    once: Seq<MessageWrite>,
    twice: Seq<MessageWrite>,
    plan: TurnPlan,
)
    requires
        once == before + turn_writes(plan),
        twice == once + turn_writes(plan),
    ensures
        twice.len() == before.len() + 4,
        twice == before + turn_writes(plan) + turn_writes(plan),
        twice[before.len() as int] == plan.user,
        twice[before.len() + 1int] == plan.agent,
        twice[before.len() + 2int] == plan.user,
        twice[before.len() + 3int] == plan.agent,
{
    assert(twice =~= before + turn_writes(plan) + turn_writes(plan));
}

} // verus!
