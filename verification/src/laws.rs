//! What holds of a session whatever is asked of it, in whatever order.

use vstd::prelude::*;
use crate::game::{chain_step, roster_hash, GameError, GameView, MAX_PLAYERS};

verus! {

/// One request made of a session.
pub enum Request {
    Join { joinee: Seq<char> },
    Start { at: u64 },
    Submit { action_hash: Seq<char>, actor: Seq<char>, now: u64 },
    End { by: Seq<char> },
}

/// Why the session turns the request down, if it does.
pub open spec fn refusal(game: GameView, request: Request) -> Option<GameError> {
    match request {
        Request::Join { joinee } => game.join_refusal(),
        Request::Start { at } => game.start_refusal(),
        Request::Submit { action_hash, actor, now } => game.turn_refusal(actor),
        Request::End { by } => game.turn_refusal(by),
    }
}

/// The session after the request: changed where it is granted, as it was where not.
pub open spec fn respond(game: GameView, request: Request) -> GameView {
    if refusal(game, request) is Some {
        game
    } else {
        match request {
            Request::Join { joinee } => game.after_join(joinee),
            Request::Start { at } => game.after_start(at),
            Request::Submit { action_hash, actor, now } => game.after_action(action_hash, now),
            Request::End { by } => game.after_end(),
        }
    }
}

/// The session after a run of requests, made in order.
pub open spec fn run(game: GameView, requests: Seq<Request>) -> GameView
    decreases requests.len(),
{
    if requests.len() == 0 {
        game
    } else {
        respond(run(game, requests.drop_last()), requests.last())
    }
}

/// Every request of the run is granted at the moment it is made.
pub open spec fn all_granted(game: GameView, requests: Seq<Request>) -> bool {
    forall|k: int|
        0 <= k < requests.len() ==> refusal(
            run(game, requests.take(k)),
            #[trigger] requests[k],
        ) is None
}

/// The turn pointer is where the count of turns puts it: at the count modulo the roster's size.
pub open spec fn in_step(game: GameView) -> bool {
    game.current_player_index == game.turn_count % game.players.len()
}

/// The chain that grows from `seed` by folding in the fingerprints in order.
pub open spec fn chain(seed: Seq<char>, action_hashes: Seq<Seq<char>>) -> Seq<char>
    decreases action_hashes.len(),
{
    if action_hashes.len() == 0 {
        seed
    } else {
        chain_step(chain(seed, action_hashes.drop_last()), action_hashes.last())
    }
}

/// The fingerprints that a run of moves carries, in order.
pub open spec fn submitted_hashes(requests: Seq<Request>) -> Seq<Seq<char>>
    recommends
        forall|k: int| 0 <= k < requests.len() ==> requests[k] is Submit,
{
    Seq::new(requests.len(), |k: int| requests[k]->action_hash)
}

/// A new session seats its creator alone, is active, has not started and has
/// counted no turn; its roster and turn pointer are in bounds.
pub proof fn law_creation(id: u64, creator: Seq<char>, now: u64)
    ensures
        GameView::fresh(id, creator, now).players == seq![creator],
        GameView::fresh(id, creator, now).is_active,
        !GameView::fresh(id, creator, now).is_started,
        GameView::fresh(id, creator, now).turn_count == 0,
        GameView::fresh(id, creator, now).current_player_index == 0,
        GameView::fresh(id, creator, now).wf(),
        in_step(GameView::fresh(id, creator, now)),
{
}

/// Whatever is asked of a session, its roster keeps between one and ten
/// players and its turn pointer keeps naming a seat.
pub proof fn law_roster_bound(game: GameView, requests: Seq<Request>)
    requires
        game.wf(),
    ensures
        run(game, requests).wf(),
        run(game, requests).players.len() <= MAX_PLAYERS,
    decreases requests.len(),
{
    if requests.len() > 0 {
        law_roster_bound(game, requests.drop_last());
    }
}

/// Whatever is asked of a session, nothing that it has is taken back: it keeps
/// its id and its direction, those seated keep their seats in their order, the
/// count of turns does not fall, and once started it stays started.
pub proof fn law_no_way_back(game: GameView, requests: Seq<Request>)
    ensures
        run(game, requests).id == game.id,
        run(game, requests).direction_clockwise == game.direction_clockwise,
        game.players.len() <= run(game, requests).players.len(),
        run(game, requests).players.take(game.players.len() as int) == game.players,
        game.turn_count <= run(game, requests).turn_count,
        game.is_started ==> run(game, requests).is_started,
        !game.is_active ==> !run(game, requests).is_active,
    decreases requests.len(),
{
    if requests.len() == 0 {
        assert(game.players.take(game.players.len() as int) =~= game.players);
    } else {
        law_no_way_back(game, requests.drop_last());
        let reached = run(game, requests.drop_last());
        assert(run(game, requests).players.take(game.players.len() as int) =~= reached.players.take(
            game.players.len() as int,
        ));
    }
}

/// An active session with ten players turns every join down as full.
pub proof fn law_full_session_refuses(game: GameView)
    requires
        game.is_active,
        game.players.len() == MAX_PLAYERS,
    ensures
        game.join_refusal() == Some(GameError::SessionFull),
{
}

/// After its creation a session grants nine joins, one after the other, and
/// turns the next one down as full.
pub proof fn law_tenth_join_refused(
    id: u64,
    creator: Seq<char>,
    now: u64,
    joins: Seq<Request>,
)
    requires
        joins.len() <= MAX_PLAYERS - 1,
        forall|k: int| 0 <= k < joins.len() ==> joins[k] is Join,
    ensures
        all_granted(GameView::fresh(id, creator, now), joins),
        run(GameView::fresh(id, creator, now), joins).players.len() == 1 + joins.len(),
        run(GameView::fresh(id, creator, now), joins).is_active,
        joins.len() == MAX_PLAYERS - 1 ==> run(
            GameView::fresh(id, creator, now),
            joins,
        ).join_refusal() == Some(GameError::SessionFull),
    decreases joins.len(),
{
    let fresh = GameView::fresh(id, creator, now);
    if joins.len() > 0 {
        let before = joins.drop_last();
        law_tenth_join_refused(id, creator, now, before);
        assert forall|k: int| 0 <= k < joins.len() implies refusal(
            run(fresh, joins.take(k)),
            #[trigger] joins[k],
        ) is None by {
            if k < before.len() {
                assert(before.take(k) =~= joins.take(k));
                assert(before[k] == joins[k]);
            } else {
                assert(joins.take(k) =~= before);
            }
        }
    }
}

/// A granted move comes from the player at the turn pointer, and it leaves the
/// pointer in step with the count of turns exactly if it found it so.
pub proof fn law_turn_passes(game: GameView, action_hash: Seq<char>, actor: Seq<char>, now: u64)
    requires
        game.wf(),
        game.turn_refusal(actor) is None,
    ensures
        actor == game.players[game.current_player_index as int],
        game.after_action(action_hash, now).turn_count == game.turn_count + 1,
        game.after_action(action_hash, now).players == game.players,
        in_step(game.after_action(action_hash, now)) <==> in_step(game),
{
    let n = game.players.len() as int;
    let i = game.current_player_index as int;
    let t = game.turn_count as int;
    assert(((i + 1) % n == (t + 1) % n) <==> (i == t % n)) by (nonlinear_arith)
        requires
            0 <= i < n,
            0 <= t,
    ;
}

/// Through any run of moves on a session whose turn pointer is in step with
/// its count of turns, the pointer stays at the count modulo the roster's
/// size after each move, and each granted move comes from the player at the
/// pointer just before it.
pub proof fn law_turn_order(game: GameView, moves: Seq<Request>)
    requires
        game.wf(),
        in_step(game),
        forall|k: int| 0 <= k < moves.len() ==> moves[k] is Submit,
    ensures
        forall|k: int|
            0 <= k <= moves.len() ==> in_step(#[trigger] run(game, moves.take(k))) && run(
                game,
                moves.take(k),
            ).players == game.players,
        forall|k: int|
            0 <= k < moves.len() && refusal(run(game, moves.take(k)), #[trigger] moves[k])
                is None ==> moves[k]->actor == run(game, moves.take(k)).turn_holder(),
        in_step(run(game, moves)),
    decreases moves.len(),
{
    if moves.len() == 0 {
        assert forall|k: int| 0 <= k <= moves.len() implies in_step(
            #[trigger] run(game, moves.take(k)),
        ) && run(game, moves.take(k)).players == game.players by {
            assert(moves.take(k) =~= moves);
        }
    } else {
        let before = moves.drop_last();
        let last = moves.last();
        law_turn_order(game, before);
        law_roster_bound(game, before);
        let reached = run(game, before);
        if refusal(reached, last) is None {
            law_turn_passes(reached, last->action_hash, last->actor, last->now);
        }
        assert forall|k: int| 0 <= k <= moves.len() implies in_step(
            #[trigger] run(game, moves.take(k)),
        ) && run(game, moves.take(k)).players == game.players by {
            if k < moves.len() {
                assert(moves.take(k) =~= before.take(k));
            } else {
                assert(moves.take(k) =~= moves);
                assert(before.take(before.len() as int) =~= before);
            }
        }
        assert forall|k: int|
            0 <= k < moves.len() && refusal(
                run(game, moves.take(k)),
                #[trigger] moves[k],
            ) is None implies moves[k]->actor == run(game, moves.take(k)).turn_holder() by {
            if k < before.len() {
                assert(moves.take(k) =~= before.take(k));
                assert(moves[k] == before[k]);
            } else {
                assert(moves.take(k) =~= before);
            }
        }
    }
}

/// Until the first move a session's turn pointer is in step with its count of
/// turns, however many join and whenever play begins.
pub proof fn law_in_step_before_play(
    id: u64,
    creator: Seq<char>,
    now: u64,
    requests: Seq<Request>,
)
    requires
        forall|k: int|
            0 <= k < requests.len() ==> requests[k] is Join || requests[k] is Start,
    ensures
        run(GameView::fresh(id, creator, now), requests).turn_count == 0,
        run(GameView::fresh(id, creator, now), requests).current_player_index == 0,
        run(GameView::fresh(id, creator, now), requests).wf(),
        in_step(run(GameView::fresh(id, creator, now), requests)),
    decreases requests.len(),
{
    if requests.len() > 0 {
        law_in_step_before_play(id, creator, now, requests.drop_last());
    }
}

/// A run of granted moves leaves the chain that grows from the chain it found
/// by folding in the moves' fingerprints in order: who moved and when leaves
/// no trace in it.
pub proof fn law_chain_of_moves(game: GameView, moves: Seq<Request>)
    requires
        forall|k: int| 0 <= k < moves.len() ==> moves[k] is Submit,
        all_granted(game, moves),
    ensures
        run(game, moves).state_hash == chain(game.state_hash, submitted_hashes(moves)),
        run(game, moves).turn_count == game.turn_count + moves.len(),
    decreases moves.len(),
{
    if moves.len() > 0 {
        let before = moves.drop_last();
        assert forall|k: int| 0 <= k < before.len() implies refusal(
            run(game, before.take(k)),
            #[trigger] before[k],
        ) is None by {
            assert(before.take(k) =~= moves.take(k));
            assert(before[k] == moves[k]);
        }
        law_chain_of_moves(game, before);
        assert(moves.take(moves.len() - 1) =~= before);
        assert(refusal(run(game, before), moves[moves.len() - 1]) is None);
        assert(submitted_hashes(moves).drop_last() =~= submitted_hashes(before));
    }
}

/// Two sessions with the same id and roster, each started and then given
/// moves with the same fingerprints in the same order, all granted, end with
/// the same chain, whenever they were started and whoever moved when.
pub proof fn law_chain_replay(
    first: GameView,
    second: GameView,
    first_start: u64,
    second_start: u64,
    first_moves: Seq<Request>,
    second_moves: Seq<Request>,
)
    requires
        first.id == second.id,
        first.players == second.players,
        first.start_refusal() is None,
        second.start_refusal() is None,
        forall|k: int| 0 <= k < first_moves.len() ==> first_moves[k] is Submit,
        forall|k: int| 0 <= k < second_moves.len() ==> second_moves[k] is Submit,
        submitted_hashes(first_moves) == submitted_hashes(second_moves),
        all_granted(first.after_start(first_start), first_moves),
        all_granted(second.after_start(second_start), second_moves),
    ensures
        run(first.after_start(first_start), first_moves).state_hash == run(
            second.after_start(second_start),
            second_moves,
        ).state_hash,
        run(first.after_start(first_start), first_moves).state_hash == chain(
            roster_hash(first.id, first.players),
            submitted_hashes(first_moves),
        ),
{
    law_chain_of_moves(first.after_start(first_start), first_moves);
    law_chain_of_moves(second.after_start(second_start), second_moves);
}

/// Ending a session, where it is granted, leaves it inactive and changes
/// nothing else.
pub proof fn law_end_closes(game: GameView, actor: Seq<char>)
    requires
        game.turn_refusal(actor) is None,
    ensures
        !respond(game, Request::End { by: actor }).is_active,
        respond(game, Request::End { by: actor }) == (GameView { is_active: false, ..game }),
{
}

/// A session that has ended is at its end: whatever is asked of it later,
/// every join, start, move and end is turned down as not active, and the
/// session stays exactly as it was.
pub proof fn law_terminal(game: GameView, requests: Seq<Request>)
    requires
        !game.is_active,
    ensures
        run(game, requests) == game,
        forall|k: int|
            0 <= k < requests.len() ==> run(game, requests.take(k)) == game && refusal(
                run(game, requests.take(k)),
                #[trigger] requests[k],
            ) == Some(GameError::NotActive),
    decreases requests.len(),
{
    if requests.len() > 0 {
        law_terminal(game, requests.drop_last());
        assert forall|k: int| 0 <= k < requests.len() implies run(game, requests.take(k))
            == game && refusal(run(game, requests.take(k)), #[trigger] requests[k]) == Some(
            GameError::NotActive,
        ) by {
            law_terminal(game, requests.take(k));
        }
    }
}

} // verus!
