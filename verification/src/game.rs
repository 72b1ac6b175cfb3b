//! One game session: its roster, its turn pointer and its hash chain, with the
//! rules that move it from creation to its end.

use vstd::prelude::*;
use vstd::string::*;
use crate::digest::{digest_text, text_digest, FINGERPRINT_LEN};
use crate::text::{append_decimal, comma, decimal_text, join_names, joined, texts};

verus! {

/// The most players a session seats.
pub const MAX_PLAYERS: usize = 10;

/// The fewest players with which play can begin.
pub const MIN_PLAYERS_TO_START: usize = 2;

/// Why a request was turned down.
#[derive(Clone, Copy, Debug, PartialEq, Eq, Structural)]
pub enum GameError {
    NotFound,
    NotActive,
    NotYourTurn,
    InsufficientPlayers,
    AlreadyStarted,
    SessionFull,
}

impl GameError {
    /// The wording a caller is shown.
    pub open spec fn message_text(self) -> Seq<char> {
        match self {
            GameError::NotFound => "Game not found"@,
            GameError::NotActive => "Game is not active"@,
            GameError::NotYourTurn => "Not your turn"@,
            GameError::InsufficientPlayers => "Not enough players"@,
            GameError::AlreadyStarted => "Game already started"@,
            GameError::SessionFull => "Game is full"@,
        }
    }

    pub fn message(&self) -> (s: String)
        ensures
            s@ == self.message_text(),
    {
        match self {
            GameError::NotFound => String::from_str("Game not found"),
            GameError::NotActive => String::from_str("Game is not active"),
            GameError::NotYourTurn => String::from_str("Not your turn"),
            GameError::InsufficientPlayers => String::from_str("Not enough players"),
            GameError::AlreadyStarted => String::from_str("Game already started"),
            GameError::SessionFull => String::from_str("Game is full"),
        }
    }
}

/// One accepted move, as the log keeps it.
#[derive(Debug)]
pub struct Action {
    pub player: String,
    pub action_hash: String,
    pub timestamp: u64,
}

/// What an `Action` holds, as plain mathematical values.
pub struct ActionView {
    pub player: Seq<char>,
    pub action_hash: Seq<char>,
    pub timestamp: u64,
}

impl View for Action {
    type V = ActionView;

    open spec fn view(&self) -> ActionView {
        ActionView {
            player: self.player@,
            action_hash: self.action_hash@,
            timestamp: self.timestamp,
        }
    }
}

impl Clone for Action {
    fn clone(&self) -> (out: Self)
        ensures
            out@ == self@,
    {
        Action {
            player: self.player.clone(),
            action_hash: self.action_hash.clone(),
            timestamp: self.timestamp,
        }
    }
}

/// A game session.
#[derive(Debug)]
pub struct Game {
    pub id: u64,
    pub players: Vec<String>,
    pub is_active: bool,
    pub current_player_index: usize,
    pub state_hash: String,
    pub last_action_timestamp: u64,
    pub turn_count: u64,
    pub direction_clockwise: bool,
    pub is_started: bool,
}

/// What a `Game` holds, as plain mathematical values.
pub struct GameView {
    pub id: u64,
    pub players: Seq<Seq<char>>,
    pub is_active: bool,
    pub current_player_index: nat,
    pub state_hash: Seq<char>,
    pub last_action_timestamp: u64,
    pub turn_count: nat,
    pub direction_clockwise: bool,
    pub is_started: bool,
}

impl View for Game {
    type V = GameView;

    open spec fn view(&self) -> GameView {
        GameView {
            id: self.id,
            players: texts(self.players@),
            is_active: self.is_active,
            current_player_index: self.current_player_index as nat,
            state_hash: self.state_hash@,
            last_action_timestamp: self.last_action_timestamp,
            turn_count: self.turn_count as nat,
            direction_clockwise: self.direction_clockwise,
            is_started: self.is_started,
        }
    }
}

/// The fingerprint that seeds a chain: of the id's decimal numeral followed by `seed`.
pub open spec fn seed_hash(id: u64, seed: Seq<char>) -> Seq<char> {
    text_digest(decimal_text(id as nat) + seed)
}

/// The fingerprint with which play begins: seeded by the roster, comma-joined.
pub open spec fn roster_hash(id: u64, players: Seq<Seq<char>>) -> Seq<char> {
    seed_hash(id, joined(players, comma()))
}

/// One link of the chain: the fingerprint of the previous one followed by the move's.
pub open spec fn chain_step(previous: Seq<char>, action_hash: Seq<char>) -> Seq<char> {
    text_digest(previous + action_hash)
}

impl GameView {
    /// The roster holds one to ten players and the turn pointer names a seat.
    pub open spec fn wf(self) -> bool {
        &&& 1 <= self.players.len() <= MAX_PLAYERS
        &&& self.current_player_index < self.players.len()
    }

    /// The player whose turn it is.
    pub open spec fn turn_holder(self) -> Seq<char> {
        self.players[self.current_player_index as int]
    }

    /// A session as its creator finds it: alone at the table, active, not yet started.
    pub open spec fn fresh(id: u64, creator: Seq<char>, now: u64) -> GameView {
        GameView {
            id,
            players: seq![creator],
            is_active: true,
            current_player_index: 0,
            state_hash: seed_hash(id, creator),
            last_action_timestamp: now,
            turn_count: 0,
            direction_clockwise: true,
            is_started: false,
        }
    }

    /// Why a join is turned down, if it is.
    pub open spec fn join_refusal(self) -> Option<GameError> {
        if !self.is_active {
            Some(GameError::NotActive)
        } else if self.players.len() >= MAX_PLAYERS {
            Some(GameError::SessionFull)
        } else {
            None
        }
    }

    /// The session with `joinee` seated last.
    pub open spec fn after_join(self, joinee: Seq<char>) -> GameView {
        GameView { players: self.players.push(joinee), ..self }
    }

    /// Why a start is turned down, if it is.
    pub open spec fn start_refusal(self) -> Option<GameError> {
        if !self.is_active {
            Some(GameError::NotActive)
        } else if self.is_started {
            Some(GameError::AlreadyStarted)
        } else if self.players.len() < MIN_PLAYERS_TO_START {
            Some(GameError::InsufficientPlayers)
        } else {
            None
        }
    }

    /// The session once play has begun at `now`: the chain starts anew from the roster.
    pub open spec fn after_start(self, now: u64) -> GameView {
        GameView {
            is_started: true,
            state_hash: roster_hash(self.id, self.players),
            last_action_timestamp: now,
            ..self
        }
    }

    /// Why `actor` may not act on the session now, if so.
    pub open spec fn turn_refusal(self, actor: Seq<char>) -> Option<GameError> {
        if !self.is_active {
            Some(GameError::NotActive)
        } else if self.turn_holder() != actor {
            Some(GameError::NotYourTurn)
        } else {
            None
        }
    }

    /// The seat after the current one, wrapping at the end of the roster.
    pub open spec fn next_seat(self) -> nat {
        ((self.current_player_index as int + 1) % (self.players.len() as int)) as nat
    }

    /// The session with the turn passed on at `now`, its chain untouched.
    pub open spec fn after_turn(self, now: u64) -> GameView {
        GameView {
            turn_count: self.turn_count + 1,
            current_player_index: self.next_seat(),
            last_action_timestamp: now,
            ..self
        }
    }

    /// The session with one more move folded in at `now`.
    pub open spec fn after_action(self, action_hash: Seq<char>, now: u64) -> GameView {
        GameView { state_hash: chain_step(self.state_hash, action_hash), ..self.after_turn(now) }
    }

    /// The session, ended.
    pub open spec fn after_end(self) -> GameView {
        GameView { is_active: false, ..self }
    }
}

/// Fingerprints a session id together with a seed text.
pub fn hash_state(game_id: u64, seed: &str) -> (hash: String)
    ensures
        hash@ == seed_hash(game_id, seed@),
        hash@.len() == FINGERPRINT_LEN,
{
    let mut text = String::new();
    append_decimal(&mut text, game_id);
    text.append(seed);
    assert(text@ =~= decimal_text(game_id as nat) + seed@);
    digest_text(text.as_str())
}

/// Folds one move's fingerprint into a chain.
pub fn extend_hash(previous: &str, action_hash: &str) -> (hash: String)
    ensures
        hash@ == chain_step(previous@, action_hash@),
        hash@.len() == FINGERPRINT_LEN,
{
    let mut text = String::from_str(previous);
    text.append(action_hash);
    digest_text(text.as_str())
}

/// Whether it is `player`'s turn.
pub fn is_player_turn(game: &Game, player: &String) -> (yes: bool)
    requires
        game.current_player_index < game.players.len(),
    ensures
        yes == (game@.turn_holder() == player@),
{
    game.players[game.current_player_index] == *player
}

/// Counts the move and passes the turn to the next seat, wrapping at the end of the roster.
pub fn update_game_state(game: &mut Game, now: u64)
    requires
        old(game)@.wf(),
        old(game).turn_count < u64::MAX,
    ensures
        final(game)@ == old(game)@.after_turn(now),
{
    game.turn_count = game.turn_count + 1;
    game.current_player_index = (game.current_player_index + 1) % game.players.len();
    game.last_action_timestamp = now;
}

fn clone_names(names: &Vec<String>) -> (out: Vec<String>)
    ensures
        out@ == names@,
{
    let mut out: Vec<String> = Vec::new();
    let mut i: usize = 0;
    while i < names.len()
        invariant
            i <= names.len(),
            out@ == names@.take(i as int),
        decreases names.len() - i,
    {
        out.push(names[i].clone());
        i += 1;
        assert(out@ =~= names@.take(i as int));
    }
    assert(names@.take(names.len() as int) =~= names@);
    out
}

impl Clone for Game {
    fn clone(&self) -> (out: Self)
        ensures
            out@ == self@,
    {
        Game {
            id: self.id,
            players: clone_names(&self.players),
            is_active: self.is_active,
            current_player_index: self.current_player_index,
            state_hash: self.state_hash.clone(),
            last_action_timestamp: self.last_action_timestamp,
            turn_count: self.turn_count,
            direction_clockwise: self.direction_clockwise,
            is_started: self.is_started,
        }
    }
}

impl Game {
    /// Opens a session for its creator.
    pub fn new(id: u64, creator: String, now: u64) -> (game: Game)
        ensures
            game@ == GameView::fresh(id, creator@, now),
            game@.state_hash.len() == FINGERPRINT_LEN,
    {
        let state_hash = hash_state(id, creator.as_str());
        let mut players: Vec<String> = Vec::new();
        players.push(creator);
        assert(texts(players@) =~= seq![creator@]);
        Game {
            id,
            players,
            is_active: true,
            current_player_index: 0,
            state_hash,
            last_action_timestamp: now,
            turn_count: 0,
            direction_clockwise: true,
            is_started: false,
        }
    }

    /// Whether the roster and the turn pointer are in bounds.
    pub fn is_well_formed(&self) -> (ok: bool)
        ensures
            ok == self@.wf(),
    {
        1 <= self.players.len() && self.players.len() <= MAX_PLAYERS && self.current_player_index
            < self.players.len()
    }

    /// Seats `joinee` last, unless the session has ended or is full.
    pub fn join(&mut self, joinee: String) -> (result: Result<(), GameError>)
        ensures
            match old(self)@.join_refusal() {
                Some(e) => result == Err::<(), GameError>(e) && final(self)@ == old(self)@,
                None => result is Ok && final(self)@ == old(self)@.after_join(joinee@),
            },
    {
        if !self.is_active {
            return Err(GameError::NotActive);
        }
        if self.players.len() >= MAX_PLAYERS {
            return Err(GameError::SessionFull);
        }
        self.players.push(joinee);
        assert(texts(self.players@) =~= texts(old(self).players@).push(joinee@));
        Ok(())
    }

    /// Begins play at `now`, unless the session has ended, play has begun
    /// already or fewer than two are seated.
    pub fn start(&mut self, now: u64) -> (result: Result<(), GameError>)
        ensures
            match old(self)@.start_refusal() {
                Some(e) => result == Err::<(), GameError>(e) && final(self)@ == old(self)@,
                None => result is Ok && final(self)@ == old(self)@.after_start(now)
                    && final(self)@.state_hash.len() == FINGERPRINT_LEN,
            },
    {
        if !self.is_active {
            return Err(GameError::NotActive);
        }
        if self.is_started {
            return Err(GameError::AlreadyStarted);
        }
        if self.players.len() < MIN_PLAYERS_TO_START {
            return Err(GameError::InsufficientPlayers);
        }
        self.is_started = true;
        let roster = join_names(&self.players);
        self.state_hash = hash_state(self.id, roster.as_str());
        self.last_action_timestamp = now;
        Ok(())
    }

    /// Tells whether `actor` may act now: the session is active and the turn is theirs.
    pub fn check_turn(&self, actor: &String) -> (result: Result<(), GameError>)
        requires
            self.current_player_index < self.players.len(),
        ensures
            match self@.turn_refusal(actor@) {
                Some(e) => result == Err::<(), GameError>(e),
                None => result is Ok,
            },
    {
        if !self.is_active {
            return Err(GameError::NotActive);
        }
        if !is_player_turn(self, actor) {
            return Err(GameError::NotYourTurn);
        }
        Ok(())
    }

    /// Folds a move into the chain and passes the turn on.
    pub fn apply_action(&mut self, action_hash: &str, now: u64)
        requires
            old(self)@.wf(),
            old(self).turn_count < u64::MAX,
        ensures
            final(self)@ == old(self)@.after_action(action_hash@, now),
            final(self)@.state_hash.len() == FINGERPRINT_LEN,
    {
        self.state_hash = extend_hash(self.state_hash.as_str(), action_hash);
        update_game_state(self, now);
    }

    /// Ends the session, if it is active and the turn is `actor`'s.
    pub fn end(&mut self, actor: &String) -> (result: Result<(), GameError>)
        requires
            old(self).current_player_index < old(self).players.len(),
        ensures
            match old(self)@.turn_refusal(actor@) {
                Some(e) => result == Err::<(), GameError>(e) && final(self)@ == old(self)@,
                None => result is Ok && final(self)@ == old(self)@.after_end(),
            },
    {
        if !self.is_active {
            return Err(GameError::NotActive);
        }
        if !is_player_turn(self, actor) {
            return Err(GameError::NotYourTurn);
        }
        self.is_active = false;
        Ok(())
    }
}

} // verus!
