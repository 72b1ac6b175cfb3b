//! What holds of a store whatever is asked of it, in whatever order.

use vstd::prelude::*;
use crate::game::{GameError, GameView};
use crate::laws::{law_terminal, refusal, respond, run, Request};
use crate::store::StoreContents;

verus! {

/// One request made of a store.
pub enum StoreRequest {
    Create { creator: Seq<char>, now: u64 },
    Ask { id: u64, request: Request },
}

/// The store after the request: changed where it is granted, as it was where not.
pub open spec fn respond_in_store(store: StoreContents, asked: StoreRequest) -> StoreContents {
    match asked {
        StoreRequest::Create { creator, now } => store.after_create(creator, now),
        StoreRequest::Ask { id, request } => {
            if !store.games.contains_key(id) || refusal(store.games[id], request) is Some {
                store
            } else {
                match request {
                    Request::Submit { action_hash, actor, now } => store.after_submit(
                        id,
                        action_hash,
                        actor,
                        now,
                    ),
                    _ => store.with_game(id, respond(store.games[id], request)),
                }
            }
        },
    }
}

/// The store after a run of requests, made in order.
pub open spec fn run_in_store(store: StoreContents, asked: Seq<StoreRequest>) -> StoreContents
    decreases asked.len(),
{
    if asked.len() == 0 {
        store
    } else {
        respond_in_store(run_in_store(store, asked.drop_last()), asked.last())
    }
}

/// The requests of the run that are made of the session `id`, in order.
pub open spec fn asked_of(id: u64, asked: Seq<StoreRequest>) -> Seq<Request>
    decreases asked.len(),
{
    if asked.len() == 0 {
        Seq::empty()
    } else {
        let before = asked_of(id, asked.drop_last());
        match asked.last() {
            StoreRequest::Ask { id: to, request } => if to == id {
                before.push(request)
            } else {
                before
            },
            StoreRequest::Create { creator, now } => before,
        }
    }
}

/// A new session gets an id that no session had before, one more than the
/// number of sessions. It seats its creator alone, is active, has not started
/// and has counted no turn; no other session and no log is touched.
pub proof fn law_fresh_id(store: StoreContents, creator: Seq<char>, now: u64)
    requires
        store.wf(),
        store.games.len() < u64::MAX,
    ensures
        !store.games.contains_key(store.next_id() as u64),
        store.after_create(creator, now).wf(),
        store.after_create(creator, now).games[store.next_id() as u64] == GameView::fresh(
            store.next_id() as u64,
            creator,
            now,
        ),
        store.after_create(creator, now).games[store.next_id() as u64].players == seq![creator],
        store.after_create(creator, now).games[store.next_id() as u64].is_active,
        !store.after_create(creator, now).games[store.next_id() as u64].is_started,
        store.after_create(creator, now).games[store.next_id() as u64].turn_count == 0,
        store.after_create(creator, now).games[store.next_id() as u64].current_player_index == 0,
        store.after_create(creator, now).games[store.next_id() as u64].direction_clockwise,
        store.after_create(creator, now).actions == store.actions,
        forall|id: u64| #[trigger]
            store.games.contains_key(id) ==> store.after_create(creator, now).games[id]
                == store.games[id],
{
}

/// The requests are the store's operations: each changes the store as the
/// operation of its name does, and leaves it alone where that one refuses.
pub proof fn law_requests_are_operations(store: StoreContents, id: u64, request: Request)
    ensures
        respond_in_store(store, StoreRequest::Ask { id, request }) == match request {
            Request::Join { joinee } => match store.join_refusal(id) {
                Some(e) => store,
                None => store.with_game(id, store.games[id].after_join(joinee)),
            },
            Request::Start { at } => match store.start_refusal(id) {
                Some(e) => store,
                None => store.with_game(id, store.games[id].after_start(at)),
            },
            Request::Submit { action_hash, actor, now } => match store.turn_refusal(id, actor) {
                Some(e) => store,
                None => store.after_submit(id, action_hash, actor, now),
            },
            Request::End { by } => match store.turn_refusal(id, by) {
                Some(e) => store,
                None => store.with_game(id, store.games[id].after_end()),
            },
        },
{
}

/// One request leaves a store's books in order, keeps every session it had
/// under its id, and adds at most one.
pub proof fn law_request_keeps_order(store: StoreContents, asked: StoreRequest)
    requires
        store.wf(),
        store.games.len() < u64::MAX,
    ensures
        respond_in_store(store, asked).wf(),
        store.games.len() <= respond_in_store(store, asked).games.len() <= store.games.len() + 1,
        forall|id: u64| #[trigger]
            store.games.contains_key(id) ==> respond_in_store(store, asked).games.contains_key(id),
{
    let after = respond_in_store(store, asked);
    match asked {
        StoreRequest::Create { creator, now } => {},
        StoreRequest::Ask { id, request } => {
            if store.games.contains_key(id) && refusal(store.games[id], request) is None {
                assert(respond(store.games[id], request).wf());
                assert(after.games.dom() =~= store.games.dom());
                assert forall|other: u64| #[trigger] after.games.contains_key(other) implies {
                    &&& after.games[other].wf()
                    &&& after.games[other].id == other
                    &&& after.games[other].turn_count == after.log(other).len()
                } by {
                    assert(store.games.contains_key(other));
                }
            }
        },
    }
}

/// Whatever is asked of a store, its books stay in order and no session
/// leaves it: a session, once created, can be looked up for good.
pub proof fn law_store_keeps_order(store: StoreContents, asked: Seq<StoreRequest>)
    requires
        store.wf(),
        store.games.len() + asked.len() <= u64::MAX,
    ensures
        run_in_store(store, asked).wf(),
        store.games.len() <= run_in_store(store, asked).games.len() <= store.games.len()
            + asked.len(),
        forall|id: u64| #[trigger]
            store.games.contains_key(id) ==> run_in_store(store, asked).games.contains_key(id),
    decreases asked.len(),
{
    if asked.len() > 0 {
        law_store_keeps_order(store, asked.drop_last());
        law_request_keeps_order(run_in_store(store, asked.drop_last()), asked.last());
    }
}

/// A session is moved by the requests made of it and by no others: after any
/// run of requests it is where those made of it, taken alone, bring it.
pub proof fn law_sessions_apart(store: StoreContents, asked: Seq<StoreRequest>, id: u64)
    requires
        store.wf(),
        store.games.len() + asked.len() <= u64::MAX,
        store.games.contains_key(id),
    ensures
        run_in_store(store, asked).games.contains_key(id),
        run_in_store(store, asked).games[id] == run(store.games[id], asked_of(id, asked)),
    decreases asked.len(),
{
    if asked.len() > 0 {
        let before = asked.drop_last();
        law_sessions_apart(store, before, id);
        law_store_keeps_order(store, before);
        match asked.last() {
            StoreRequest::Create { creator, now } => {},
            StoreRequest::Ask { id: to, request } => {
                if to == id {
                    assert(asked_of(id, asked).drop_last() =~= asked_of(id, before));
                }
            },
        }
    }
}

/// A log only grows: whatever is asked of a store, each session's log still
/// begins with the moves it held before, unchanged and in order.
pub proof fn law_log_grows(store: StoreContents, asked: Seq<StoreRequest>, id: u64)
    requires
        store.wf(),
        store.games.len() + asked.len() <= u64::MAX,
    ensures
        store.log(id).len() <= run_in_store(store, asked).log(id).len(),
        run_in_store(store, asked).log(id).take(store.log(id).len() as int) == store.log(id),
    decreases asked.len(),
{
    if asked.len() == 0 {
        assert(store.log(id).take(store.log(id).len() as int) =~= store.log(id));
    } else {
        let before = asked.drop_last();
        law_log_grows(store, before, id);
        law_store_keeps_order(store, before);
        let reached = run_in_store(store, before);
        let after = run_in_store(store, asked);
        assert(after.log(id).take(store.log(id).len() as int) =~= reached.log(id).take(
            store.log(id).len() as int,
        ));
    }
}

/// A session that has ended is at its end whatever is asked of the store: it
/// stays exactly as it was, and every later join, start, move and end of it
/// is turned down as not active.
pub proof fn law_terminal_in_store(
    store: StoreContents,
    asked: Seq<StoreRequest>,
    id: u64,
    actor: Seq<char>,
)
    requires
        store.wf(),
        store.games.len() + asked.len() <= u64::MAX,
        store.games.contains_key(id),
        !store.games[id].is_active,
    ensures
        run_in_store(store, asked).games.contains_key(id),
        run_in_store(store, asked).games[id] == store.games[id],
        run_in_store(store, asked).log(id) == store.log(id),
        run_in_store(store, asked).join_refusal(id) == Some(GameError::NotActive),
        run_in_store(store, asked).start_refusal(id) == Some(GameError::NotActive),
        run_in_store(store, asked).turn_refusal(id, actor) == Some(GameError::NotActive),
{
    law_sessions_apart(store, asked, id);
    law_terminal(store.games[id], asked_of(id, asked));
    law_store_keeps_order(store, asked);
    law_log_grows(store, asked, id);
    let after = run_in_store(store, asked);
    assert(after.log(id).len() == store.log(id).len());
    assert(after.log(id).take(store.log(id).len() as int) =~= after.log(id));
}

} // verus!
