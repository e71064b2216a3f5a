//! The store: the state value behind the runtime's one lock.

use vstd::prelude::*;
use crate::host::host_wf;
use crate::state::actions::AppAction;
use crate::state::application_state::{state_wf, ApplicationState};
use crate::state::reducers::{spec_action_pre, spec_reduces};

verus! {

/// The shared store. At run time the runtime wraps it in its lock; every
/// access is acquire, one dispatch or read, release.
pub struct AppStateStore {
    pub state: ApplicationState,
}

/// An action whose precondition holds in every state: anything but opening
/// a detail row or acting on the detail view, with reports carrying
/// well-kept records.
pub open spec fn spec_action_stateless(a: AppAction) -> bool {
    match a {
        AppAction::UpdateHost(h) => host_wf(h),
        AppAction::SetModalAction(_) => false,
        AppAction::SetSelectedHost(sel) => sel is None,
        _ => true,
    }
}

/// A stateless-safe action is dispatchable in any state.
pub proof fn lemma_stateless_pre(a: AppAction, s: ApplicationState)
    requires
        spec_action_stateless(a),
    ensures
        spec_action_pre(a, s),
{
}

/// The composite effect of a list of actions, first action first.
pub open spec fn spec_reduces_seq(
    actions: Seq<AppAction>,
    pre: ApplicationState,
    post: ApplicationState,
) -> bool
    decreases actions.len(),
{
    if actions.len() == 0 {
        post == pre
    } else {
        exists|mid: ApplicationState|
            #[trigger] spec_reduces(actions[0], pre, mid) && spec_reduces_seq(
                actions.drop_first(),
                mid,
                post,
            )
    }
}

/// Extending a dispatched prefix by one action extends its composite
/// effect.
pub proof fn lemma_reduces_seq_snoc(
    actions: Seq<AppAction>,
    i: int,
    pre: ApplicationState,
    mid: ApplicationState,
    post: ApplicationState,
)
    requires
        0 <= i < actions.len(),
        spec_reduces_seq(actions.take(i), pre, mid),
        spec_reduces(actions[i], mid, post),
    ensures
        spec_reduces_seq(actions.take(i + 1), pre, post),
    decreases i,
{
    if i == 0 {
        assert(actions.take(0) =~= Seq::<AppAction>::empty());
        assert(mid == pre);
        assert(actions.take(1)[0] == actions[0]);
        assert(actions.take(1).drop_first() =~= Seq::<AppAction>::empty());
        assert(spec_reduces(actions.take(1)[0], pre, post));
        assert(spec_reduces_seq(actions.take(1).drop_first(), post, post));
    } else {
        let m1 = choose|m: ApplicationState|
            #[trigger] spec_reduces(actions.take(i)[0], pre, m) && spec_reduces_seq(
                actions.take(i).drop_first(),
                m,
                mid,
            );
        let rest = actions.drop_first();
        assert(actions.take(i)[0] == actions[0]);
        assert(actions.take(i).drop_first() =~= rest.take(i - 1));
        assert(rest[i - 1] == actions[i]);
        lemma_reduces_seq_snoc(rest, i - 1, m1, mid, post);
        assert(actions.take(i + 1)[0] == actions[0]);
        assert(actions.take(i + 1).drop_first() =~= rest.take(i));
        assert(spec_reduces(actions.take(i + 1)[0], pre, m1));
        assert(spec_reduces_seq(actions.take(i + 1).drop_first(), m1, post));
    }
}

impl AppStateStore {
    /// A store holding the state before any run.
    pub fn new() -> (s: AppStateStore)
        ensures
            state_wf(s.state),
            s.state.hosts@ == Seq::<crate::host::Host>::empty(),
            !s.state.search_run,
            !s.state.query_state,
            s.state.modal_state is None,
    {
        AppStateStore { state: Default::default() }
    }

    /// Dispatch one action through the reducer.
    pub fn dispatch(&mut self, action: AppAction)
        requires
            state_wf(old(self).state),
            spec_action_pre(action, old(self).state),
        ensures
            state_wf(final(self).state),
            spec_reduces(action, old(self).state, final(self).state),
    {
        self.state.apply(action);
    }

    /// Dispatch a list of actions in order.
    pub fn dispatches(&mut self, actions: Vec<AppAction>)
        requires
            state_wf(old(self).state),
            forall|i: int|
                0 <= i < actions@.len() ==> spec_action_stateless(#[trigger] actions@[i]),
        ensures
            state_wf(final(self).state),
            spec_reduces_seq(actions@, old(self).state, final(self).state),
    {
        let ghost all = actions@;
        let mut actions = actions;
        proof {
            assert(all.take(0) =~= Seq::<AppAction>::empty());
        }
        while actions.len() > 0
            invariant
                state_wf(self.state),
                actions@.len() <= all.len(),
                actions@ == all.skip(all.len() - actions@.len()),
                forall|i: int| 0 <= i < all.len() ==> spec_action_stateless(#[trigger] all[i]),
                spec_reduces_seq(
                    all.take(all.len() - actions@.len()),
                    old(self).state,
                    self.state,
                ),
            decreases actions@.len(),
        {
            let ghost k = all.len() - actions@.len();
            let a = actions.remove(0);
            proof {
                assert(a == all[k]);
                assert(actions@ =~= all.skip(k + 1));
                lemma_stateless_pre(a, self.state);
            }
            let ghost mid = self.state;
            self.state.apply(a);
            proof {
                lemma_reduces_seq_snoc(all, k, old(self).state, mid, self.state);
            }
        }
        proof {
            assert(all.take(all.len() as int) =~= all);
        }
    }
}

} // verus!
