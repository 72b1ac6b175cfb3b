//! Every session and its log of accepted moves, keyed by session id.

use std::collections::HashMap;
use vstd::prelude::*;
use crate::digest::FINGERPRINT_LEN;
use crate::game::{Action, ActionView, Game, GameError, GameView};

verus! {

/// The sessions and their logs. Ids are handed out in order, starting at 1.
pub struct Store {
    games: HashMap<u64, Game>,
    actions: HashMap<u64, Vec<Action>>,
}

/// What a `Store` holds, as plain mathematical values.
pub struct StoreContents {
    pub games: Map<u64, GameView>,
    pub actions: Map<u64, Seq<ActionView>>,
}

/// The view of each logged move, in order.
pub open spec fn action_views(log: Seq<Action>) -> Seq<ActionView> {
    Seq::new(log.len(), |i: int| log[i]@)
}

/// What a pair of maps holds, read as a store.
pub open spec fn contents_of(
    games: Map<u64, Game>,
    actions: Map<u64, Vec<Action>>,
) -> StoreContents {
    StoreContents {
        games: games.map_values(|g: Game| g@),
        actions: actions.map_values(|log: Vec<Action>| action_views(log@)),
    }
}

impl StoreContents {
    /// The moves logged for `id`: none where the session has no log yet.
    pub open spec fn log(self, id: u64) -> Seq<ActionView> {
        if self.actions.contains_key(id) {
            self.actions[id]
        } else {
            Seq::empty()
        }
    }

    /// The ids in use are exactly 1 up to the number of sessions; each session is
    /// filed under its own id with its roster and turn pointer in bounds; only
    /// sessions have logs; and each session has counted as many turns as its log
    /// holds moves.
    pub open spec fn wf(self) -> bool {
        &&& self.games.dom().finite()
        &&& forall|id: u64| #[trigger]
            self.games.contains_key(id) <==> 1 <= id <= self.games.len()
        &&& forall|id: u64| #[trigger]
            self.games.contains_key(id) ==> self.games[id].wf() && self.games[id].id == id
                && self.games[id].turn_count == self.log(id).len()
        &&& forall|id: u64| #[trigger]
            self.actions.contains_key(id) ==> self.games.contains_key(id)
    }

    /// The id that the next session gets.
    pub open spec fn next_id(self) -> nat {
        self.games.len() + 1
    }

    /// The store with the session under `id` replaced by `game`.
    pub open spec fn with_game(self, id: u64, game: GameView) -> StoreContents {
        StoreContents { games: self.games.insert(id, game), ..self }
    }

    /// The store with a new session opened by `creator` at `now`.
    pub open spec fn after_create(self, creator: Seq<char>, now: u64) -> StoreContents {
        let id = self.next_id() as u64;
        self.with_game(id, GameView::fresh(id, creator, now))
    }

    /// Why a join of the session `id` is turned down, if it is.
    pub open spec fn join_refusal(self, id: u64) -> Option<GameError> {
        if !self.games.contains_key(id) {
            Some(GameError::NotFound)
        } else {
            self.games[id].join_refusal()
        }
    }

    /// Why a start of the session `id` is turned down, if it is.
    pub open spec fn start_refusal(self, id: u64) -> Option<GameError> {
        if !self.games.contains_key(id) {
            Some(GameError::NotFound)
        } else {
            self.games[id].start_refusal()
        }
    }

    /// Why `actor` may not act on the session `id` now, if so.
    pub open spec fn turn_refusal(self, id: u64, actor: Seq<char>) -> Option<GameError> {
        if !self.games.contains_key(id) {
            Some(GameError::NotFound)
        } else {
            self.games[id].turn_refusal(actor)
        }
    }

    /// The store with `actor`'s move folded into the session `id` and appended to its log.
    pub open spec fn after_submit(
        self,
        id: u64,
        action_hash: Seq<char>,
        actor: Seq<char>,
        now: u64,
    ) -> StoreContents {
        StoreContents {
            games: self.games.insert(id, self.games[id].after_action(action_hash, now)),
            actions: self.actions.insert(
                id,
                self.log(id).push(ActionView { player: actor, action_hash, timestamp: now }),
            ),
        }
    }
}

/// A session put back under the id it was taken from leaves the store as it
/// was but for that session; put back unchanged, it leaves the store as it was.
proof fn lemma_put_back(
    games: Map<u64, Game>,
    actions: Map<u64, Vec<Action>>,
    id: u64,
    game: Game,
)
    requires
        games.contains_key(id),
    ensures
        contents_of(games.remove(id).insert(id, game), actions) == contents_of(
            games,
            actions,
        ).with_game(id, game@),
        game@ == games[id]@ ==> contents_of(games.remove(id).insert(id, game), actions)
            == contents_of(games, actions),
{
    let after = contents_of(games.remove(id).insert(id, game), actions);
    let before = contents_of(games, actions);
    assert(after.games =~= before.games.insert(id, game@));
    if game@ == games[id]@ {
        assert(after.games =~= before.games);
    }
}

impl View for Store {
    type V = StoreContents;

    closed spec fn view(&self) -> StoreContents {
        contents_of(self.games@, self.actions@)
    }
}

impl Store {
    /// Whether the store keeps its books in order.
    pub open spec fn wf(&self) -> bool {
        self@.wf()
    }

    /// A store with no sessions.
    pub fn init() -> (store: Store)
        ensures
            store.wf(),
            store@.games == Map::<u64, GameView>::empty(),
            store@.actions == Map::<u64, Seq<ActionView>>::empty(),
    {
        let store = Store { games: HashMap::new(), actions: HashMap::new() };
        assert(store@.games =~= Map::<u64, GameView>::empty());
        assert(store@.actions =~= Map::<u64, Seq<ActionView>>::empty());
        store
    }

    /// Takes over a pair of maps as a store, if they keep their books in order.
    pub fn from_parts(games: HashMap<u64, Game>, actions: HashMap<u64, Vec<Action>>) -> (result:
        Option<Store>)
        ensures
            match result {
                Some(store) => store.wf() && store@ == contents_of(games@, actions@),
                None => !contents_of(games@, actions@).wf(),
            },
    {
        let ghost whole = contents_of(games@, actions@);
        let n: usize = games.len();
        let mut rest_games = games;
        let mut rest_actions = actions;
        let mut kept_games: HashMap<u64, Game> = HashMap::new();
        let mut kept_actions: HashMap<u64, Vec<Action>> = HashMap::new();
        proof {
            assert(whole.games.dom() =~= games@.dom());
            assert(whole.actions.dom() =~= actions@.dom());
        }
        let mut i: usize = 0;
        while i < n
            invariant
                i <= n,
                n == games@.len(),
                n == whole.games.len(),
                whole == contents_of(games@, actions@),
                whole.games.dom() == games@.dom(),
                whole.actions.dom() == actions@.dom(),
                forall|k: u64| #[trigger] kept_games@.contains_key(k) <==> 1 <= k <= i,
                forall|k: u64| #[trigger]
                    kept_games@.contains_key(k) ==> games@.contains_key(k) && kept_games@[k]
                        == games@[k] && whole.games[k].wf() && whole.games[k].id == k
                        && whole.games[k].turn_count == whole.log(k).len(),
                forall|k: u64| #[trigger]
                    rest_games@.contains_key(k) <==> games@.contains_key(k) && !(1 <= k <= i),
                forall|k: u64| #[trigger]
                    rest_games@.contains_key(k) ==> rest_games@[k] == games@[k],
                forall|k: u64| #[trigger]
                    kept_actions@.contains_key(k) <==> actions@.contains_key(k) && 1 <= k <= i,
                forall|k: u64| #[trigger]
                    kept_actions@.contains_key(k) ==> kept_actions@[k] == actions@[k],
                forall|k: u64| #[trigger]
                    rest_actions@.contains_key(k) <==> actions@.contains_key(k) && !(1 <= k
                        <= i),
                forall|k: u64| #[trigger]
                    rest_actions@.contains_key(k) ==> rest_actions@[k] == actions@[k],
            decreases n - i,
        {
            let id: u64 = i as u64 + 1;
            let game = match rest_games.remove(&id) {
                None => {
                    assert(!whole.games.contains_key(id));
                    return None;
                },
                Some(game) => game,
            };
            assert(whole.games.contains_key(id) && whole.games[id] == game@);
            if !game.is_well_formed() || game.id != id {
                return None;
            }
            match rest_actions.remove(&id) {
                None => {
                    assert(whole.log(id) =~= Seq::<ActionView>::empty());
                    if game.turn_count != 0 {
                        return None;
                    }
                },
                Some(log) => {
                    assert(whole.log(id) == action_views(log@));
                    if log.len() as u64 != game.turn_count {
                        return None;
                    }
                    kept_actions.insert(id, log);
                },
            }
            kept_games.insert(id, game);
            i += 1;
        }
        if !rest_games.is_empty() || !rest_actions.is_empty() {
            proof {
                if whole.wf() {
                    assert forall|k: u64| !rest_games@.contains_key(k) by {
                        if rest_games@.contains_key(k) {
                            assert(whole.games.contains_key(k));
                        }
                    }
                    assert forall|k: u64| !rest_actions@.contains_key(k) by {
                        if rest_actions@.contains_key(k) {
                            assert(whole.actions.contains_key(k));
                            assert(whole.games.contains_key(k));
                        }
                    }
                    assert(rest_games@.dom() =~= Set::<u64>::empty());
                    assert(rest_actions@.dom() =~= Set::<u64>::empty());
                }
            }
            return None;
        }
        let store = Store { games: kept_games, actions: kept_actions };
        proof {
            assert forall|k: u64| games@.contains_key(k) implies 1 <= k <= n by {
                if !(1 <= k <= n) {
                    assert(rest_games@.contains_key(k));
                    assert(rest_games@.dom().contains(k));
                }
            }
            assert forall|k: u64| actions@.contains_key(k) implies 1 <= k <= n by {
                if !(1 <= k <= n) {
                    assert(rest_actions@.contains_key(k));
                    assert(rest_actions@.dom().contains(k));
                }
            }
            assert(store.games@ =~= games@);
            assert(store.actions@ =~= actions@);
            assert forall|k: u64| #[trigger] whole.games.contains_key(k) implies whole.games[k].wf()
                && whole.games[k].id == k && whole.games[k].turn_count == whole.log(k).len() by {
                assert(kept_games@.contains_key(k));
            }
            assert forall|k: u64| #[trigger]
                whole.actions.contains_key(k) implies whole.games.contains_key(k) by {
                assert(kept_actions@.contains_key(k));
                assert(kept_games@.contains_key(k));
            }
        }
        Some(store)
    }

    /// Hands the sessions and the logs out as a pair of maps.
    pub fn into_parts(self) -> (parts: (HashMap<u64, Game>, HashMap<u64, Vec<Action>>))
        ensures
            contents_of(parts.0@, parts.1@) == self@,
    {
        (self.games, self.actions)
    }

    /// How many sessions there are.
    pub fn session_count(&self) -> (n: usize)
        ensures
            n == self@.games.len(),
    {
        proof {
            assert(self@.games.dom() =~= self.games@.dom());
        }
        self.games.len()
    }

    /// Opens a session for `creator` at `now` and returns its id.
    pub fn create_game(&mut self, creator: String, now: u64) -> (id: u64)
        requires
            old(self).wf(),
            old(self)@.games.len() < u64::MAX,
        ensures
            final(self).wf(),
            id == old(self)@.next_id(),
            !old(self)@.games.contains_key(id),
            final(self)@.games[id] == GameView::fresh(id, creator@, now),
            final(self)@.games[id].players == seq![creator@],
            final(self)@.games[id].is_active,
            !final(self)@.games[id].is_started,
            final(self)@.games[id].turn_count == 0,
            final(self)@.games[id].current_player_index == 0,
            final(self)@.games[id].direction_clockwise,
            final(self)@.games[id].state_hash.len() == FINGERPRINT_LEN,
            final(self)@ == old(self)@.after_create(creator@, now),
    {
        proof {
            assert(self@.games.dom() =~= self.games@.dom());
        }
        let id: u64 = self.games.len() as u64 + 1;
        let game = Game::new(id, creator, now);
        self.games.insert(id, game);
        proof {
            assert(self@.games =~= old(self)@.games.insert(id, game@));
            assert(self@.actions =~= old(self)@.actions);
        }
        id
    }

    /// Seats `joinee` in the session `game_id`.
    pub fn join_game(&mut self, game_id: u64, joinee: String) -> (result: Result<(), GameError>)
        requires
            old(self).wf(),
        ensures
            final(self).wf(),
            match old(self)@.join_refusal(game_id) {
                Some(e) => result == Err::<(), GameError>(e) && final(self)@ == old(self)@,
                None => result is Ok && final(self)@ == old(self)@.with_game(
                    game_id,
                    old(self)@.games[game_id].after_join(joinee@),
                ),
            },
    {
        match self.games.remove(&game_id) {
            None => {
                assert(self@.games =~= old(self)@.games);
                Err(GameError::NotFound)
            },
            Some(mut game) => {
                let result = game.join(joinee);
                self.games.insert(game_id, game);
                proof {
                    lemma_put_back(old(self).games@, old(self).actions@, game_id, game);
                }
                result
            },
        }
    }

    /// Begins play in the session `game_id` at `now`.
    pub fn start_game(&mut self, game_id: u64, now: u64) -> (result: Result<(), GameError>)
        requires
            old(self).wf(),
        ensures
            final(self).wf(),
            match old(self)@.start_refusal(game_id) {
                Some(e) => result == Err::<(), GameError>(e) && final(self)@ == old(self)@,
                None => result is Ok && final(self)@ == old(self)@.with_game(
                    game_id,
                    old(self)@.games[game_id].after_start(now),
                ) && final(self)@.games[game_id].state_hash.len() == FINGERPRINT_LEN,
            },
    {
        match self.games.remove(&game_id) {
            None => {
                assert(self@.games =~= old(self)@.games);
                Err(GameError::NotFound)
            },
            Some(mut game) => {
                let result = game.start(now);
                self.games.insert(game_id, game);
                proof {
                    lemma_put_back(old(self).games@, old(self).actions@, game_id, game);
                }
                result
            },
        }
    }

    /// Takes `actor`'s move in the session `game_id` at `now`: folds `action_hash`
    /// into the chain, logs the move and passes the turn on.
    pub fn submit_action(
        &mut self,
        game_id: u64,
        action_hash: String,
        actor: String,
        now: u64,
    ) -> (result: Result<(), GameError>)
        requires
            old(self).wf(),
        ensures
            final(self).wf(),
            match old(self)@.turn_refusal(game_id, actor@) {
                Some(e) => result == Err::<(), GameError>(e) && final(self)@ == old(self)@,
                None => result is Ok && final(self)@ == old(self)@.after_submit(
                    game_id,
                    action_hash@,
                    actor@,
                    now,
                ) && final(self)@.games[game_id].state_hash.len() == FINGERPRINT_LEN,
            },
    {
        let mut game = match self.games.remove(&game_id) {
            None => {
                assert(self@.games =~= old(self)@.games);
                return Err(GameError::NotFound);
            },
            Some(game) => game,
        };
        if let Err(e) = game.check_turn(&actor) {
            self.games.insert(game_id, game);
            proof {
                lemma_put_back(old(self).games@, old(self).actions@, game_id, game);
            }
            return Err(e);
        }
        let mut log = match self.actions.remove(&game_id) {
            None => Vec::new(),
            Some(log) => log,
        };
        assert(action_views(log@) =~= old(self)@.log(game_id));
        let ghost before = action_views(log@);
        let action = Action { player: actor, action_hash: action_hash.clone(), timestamp: now };
        log.push(action);
        assert(action_views(log@) =~= before.push(action@));
        assert(game.turn_count < log.len());
        game.apply_action(action_hash.as_str(), now);
        self.games.insert(game_id, game);
        self.actions.insert(game_id, log);
        proof {
            let after = old(self)@.after_submit(game_id, action_hash@, actor@, now);
            assert(self@.games =~= after.games);
            assert(self@.actions =~= after.actions);
        }
        Ok(())
    }

    /// Ends the session `game_id` at the request of `actor`.
    pub fn end_game(&mut self, game_id: u64, actor: String) -> (result: Result<(), GameError>)
        requires
            old(self).wf(),
        ensures
            final(self).wf(),
            match old(self)@.turn_refusal(game_id, actor@) {
                Some(e) => result == Err::<(), GameError>(e) && final(self)@ == old(self)@,
                None => result is Ok && final(self)@ == old(self)@.with_game(
                    game_id,
                    old(self)@.games[game_id].after_end(),
                ),
            },
    {
        match self.games.remove(&game_id) {
            None => {
                assert(self@.games =~= old(self)@.games);
                Err(GameError::NotFound)
            },
            Some(mut game) => {
                let result = game.end(&actor);
                self.games.insert(game_id, game);
                proof {
                    lemma_put_back(old(self).games@, old(self).actions@, game_id, game);
                }
                result
            },
        }
    }

    /// A copy of the session `game_id`.
    pub fn get_game_state(&self, game_id: u64) -> (result: Result<Game, GameError>)
        ensures
            match result {
                Ok(game) => self@.games.contains_key(game_id) && game@ == self@.games[game_id],
                Err(e) => !self@.games.contains_key(game_id) && e == GameError::NotFound,
            },
    {
        match self.games.get(&game_id) {
            Some(game) => Ok(game.clone()),
            None => Err(GameError::NotFound),
        }
    }

    /// A copy of the log of the session `game_id`, oldest move first. A session
    /// in which nobody has moved yet has no log.
    pub fn get_game_actions(&self, game_id: u64) -> (result: Result<Vec<Action>, GameError>)
        ensures
            match result {
                Ok(log) => self@.actions.contains_key(game_id) && action_views(log@)
                    == self@.actions[game_id],
                Err(e) => !self@.actions.contains_key(game_id) && e == GameError::NotFound,
            },
    {
        match self.actions.get(&game_id) {
            Some(log) => Ok(clone_log(log)),
            None => Err(GameError::NotFound),
        }
    }
}

fn clone_log(log: &Vec<Action>) -> (out: Vec<Action>)
    ensures
        action_views(out@) == action_views(log@),
{
    let mut out: Vec<Action> = Vec::new();
    let mut i: usize = 0;
    while i < log.len()
        invariant
            i <= log.len(),
            out@.len() == i,
            forall|j: int| 0 <= j < i ==> out@[j]@ == log@[j]@,
        decreases log.len() - i,
    {
        out.push(log[i].clone());
        i += 1;
    }
    assert(action_views(out@) =~= action_views(log@));
    out
}

} // verus!
