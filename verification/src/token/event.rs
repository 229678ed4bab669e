//! What a token contract reports.

use crate::host::{Event, Host, TokenEvent};
use crate::model::Hash32;
use vstd::prelude::*;

verus! {

/// Only the log has changed: the token contract has reported something.
pub open spec fn reports(pre: Host, post: Host, contract_id: Hash32, event: TokenEvent) -> bool {
    &&& post.wf()
    &&& post.events@ == pre.events@.push(Event::Token { contract_id, event })
    &&& post == (Host { events: post.events, ..pre })
}

pub(crate) fn report(e: &mut Host, contract_id: Hash32, event: TokenEvent)
    requires
        old(e).wf(),
    ensures
        reports(*old(e), *final(e), contract_id, event),
{
    let ghost pre = *e;
    e.events.push(Event::Token { contract_id, event });
    proof {
        assert forall|i: int| 0 <= i < e.events@.len() implies (#[trigger] e.events@[i]).ok(e.objs()) by {
            if i < pre.events@.len() {
                assert(pre.events@[i].ok(pre.objs()));
            }
        }
    }
}

} // verus!
