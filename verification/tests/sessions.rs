use icpuno_backend::game::{Action, Game, GameError};
use icpuno_backend::store::Store;

fn name(s: &str) -> String {
    String::from(s)
}

fn table(players: &[&str]) -> Store {
    let mut store = Store::init();
    let id = store.create_game(name(players[0]), 100);
    for p in &players[1..] {
        assert_eq!(store.join_game(id, name(p)), Ok(()));
    }
    store
}

fn seen(store: &Store, id: u64) -> Game {
    store.get_game_state(id).unwrap()
}

fn log(store: &Store, id: u64) -> Vec<Action> {
    store.get_game_actions(id).unwrap()
}

#[test]
fn a_new_session_seats_its_creator_alone() {
    let mut store = Store::init();
    let id = store.create_game(name("alice"), 42);
    assert_eq!(id, 1);
    let game = seen(&store, id);
    assert_eq!(game.id, 1);
    assert_eq!(game.players, vec![name("alice")]);
    assert!(game.is_active);
    assert!(!game.is_started);
    assert_eq!(game.turn_count, 0);
    assert_eq!(game.current_player_index, 0);
    assert!(game.direction_clockwise);
    assert_eq!(game.last_action_timestamp, 42);
    assert_eq!(game.state_hash, "005a683cfe8a7e53a2f1a7b903dc2b0b");
}

#[test]
fn ids_count_up_from_one() {
    let mut store = Store::init();
    assert_eq!(store.session_count(), 0);
    assert_eq!(store.create_game(name("alice"), 1), 1);
    assert_eq!(store.create_game(name("bob"), 2), 2);
    assert_eq!(store.create_game(name("alice"), 3), 3);
    assert_eq!(store.session_count(), 3);
    assert_eq!(seen(&store, 2).players, vec![name("bob")]);
    assert_eq!(seen(&store, 3).id, 3);
}

#[test]
fn alice_and_bob_play_two_turns() {
    let mut store = Store::init();
    assert_eq!(store.create_game(name("alice"), 10), 1);
    assert_eq!(store.join_game(1, name("bob")), Ok(()));
    assert_eq!(store.start_game(1, 11), Ok(()));
    assert_eq!(store.submit_action(1, name("h1"), name("alice"), 12), Ok(()));
    assert_eq!(seen(&store, 1).current_player_index, 1);
    assert_eq!(
        store.submit_action(1, name("h2"), name("alice"), 13),
        Err(GameError::NotYourTurn)
    );
    assert_eq!(seen(&store, 1).turn_count, 1);
    assert_eq!(store.submit_action(1, name("h2"), name("bob"), 14), Ok(()));
    let game = seen(&store, 1);
    assert_eq!(game.turn_count, 2);
    assert_eq!(game.current_player_index, 0);
    assert_eq!(game.last_action_timestamp, 14);
    let moves = log(&store, 1);
    assert_eq!(moves.len(), 2);
    assert_eq!(moves[0].player, "alice");
    assert_eq!(moves[0].action_hash, "h1");
    assert_eq!(moves[0].timestamp, 12);
    assert_eq!(moves[1].player, "bob");
    assert_eq!(moves[1].action_hash, "h2");
    assert_eq!(moves[1].timestamp, 14);
}

#[test]
fn the_chain_restarts_from_the_roster_and_folds_each_move() {
    let mut store = table(&["alice", "bob"]);
    assert_eq!(seen(&store, 1).state_hash, "005a683cfe8a7e53a2f1a7b903dc2b0b");
    assert_eq!(store.start_game(1, 5), Ok(()));
    assert_eq!(seen(&store, 1).state_hash, "7106cf1134cdfeb327062d53c9b25619");
    assert_eq!(store.submit_action(1, name("h1"), name("alice"), 6), Ok(()));
    assert_eq!(seen(&store, 1).state_hash, "01ca39942a33cccf578c96cb695419d3");
    assert_eq!(store.submit_action(1, name("h2"), name("bob"), 7), Ok(()));
    assert_eq!(seen(&store, 1).state_hash, "4945032cecbde20d096ecf4d25ed7a5a");
}

#[test]
fn the_same_moves_give_the_same_chain() {
    let mut first = table(&["alice", "bob", "carol"]);
    let mut second = table(&["alice", "bob", "carol"]);
    assert_eq!(first.start_game(1, 1_000), Ok(()));
    assert_eq!(second.start_game(1, 9_999), Ok(()));
    let order = ["alice", "bob", "carol", "alice", "bob"];
    let hashes = ["m1", "m2", "m3", "m4", "m5"];
    for k in 0..order.len() {
        assert_eq!(
            first.submit_action(1, name(hashes[k]), name(order[k]), 2_000 + k as u64),
            Ok(())
        );
        assert_eq!(
            second.submit_action(1, name(hashes[k]), name(order[k]), 7 * k as u64),
            Ok(())
        );
    }
    assert_eq!(seen(&first, 1).state_hash, seen(&second, 1).state_hash);
    assert_eq!(seen(&first, 1).state_hash.len(), 32);
}

#[test]
fn a_different_order_of_moves_gives_a_different_chain() {
    let mut first = table(&["alice", "bob"]);
    let mut second = table(&["alice", "bob"]);
    assert_eq!(first.start_game(1, 1), Ok(()));
    assert_eq!(second.start_game(1, 1), Ok(()));
    assert_eq!(first.submit_action(1, name("x"), name("alice"), 2), Ok(()));
    assert_eq!(first.submit_action(1, name("y"), name("bob"), 3), Ok(()));
    assert_eq!(second.submit_action(1, name("y"), name("alice"), 2), Ok(()));
    assert_eq!(second.submit_action(1, name("x"), name("bob"), 3), Ok(()));
    assert_ne!(seen(&first, 1).state_hash, seen(&second, 1).state_hash);
}

#[test]
fn the_turn_pointer_follows_the_turn_count() {
    let mut store = table(&["alice", "bob", "carol"]);
    assert_eq!(store.start_game(1, 0), Ok(()));
    for turn in 0..7u64 {
        let before = seen(&store, 1);
        assert_eq!(before.current_player_index as u64, turn % 3);
        let actor = before.players[before.current_player_index].clone();
        assert_eq!(store.submit_action(1, format!("move{}", turn), actor.clone(), turn), Ok(()));
        let after = seen(&store, 1);
        assert_eq!(after.turn_count, turn + 1);
        assert_eq!(after.current_player_index as u64, (turn + 1) % 3);
        assert_eq!(log(&store, 1)[turn as usize].player, actor);
    }
}

#[test]
fn a_lone_player_keeps_the_turn() {
    let mut store = table(&["alice"]);
    assert_eq!(store.submit_action(1, name("solo"), name("alice"), 3), Ok(()));
    let game = seen(&store, 1);
    assert_eq!(game.current_player_index, 0);
    assert_eq!(game.turn_count, 1);
    assert!(!game.is_started);
}

#[test]
fn a_move_before_the_start_extends_the_creation_hash() {
    let mut store = table(&["alice"]);
    assert_eq!(store.submit_action(1, name("h0"), name("alice"), 3), Ok(()));
    assert_eq!(seen(&store, 1).state_hash, "e84dda68a24764086e1cf68a8f2df8ae");
}

#[test]
fn a_join_after_a_move_leaves_the_pointer_where_it_was() {
    let mut store = table(&["alice"]);
    assert_eq!(store.submit_action(1, name("h0"), name("alice"), 3), Ok(()));
    assert_eq!(store.join_game(1, name("bob")), Ok(()));
    let game = seen(&store, 1);
    assert_eq!(game.turn_count, 1);
    assert_eq!(game.current_player_index, 0);
    assert_eq!(store.submit_action(1, name("h1"), name("bob"), 4), Err(GameError::NotYourTurn));
    assert_eq!(store.submit_action(1, name("h1"), name("alice"), 4), Ok(()));
    assert_eq!(seen(&store, 1).current_player_index, 1);
}

#[test]
fn the_tenth_join_is_turned_down() {
    let mut store = Store::init();
    let id = store.create_game(name("p0"), 0);
    for k in 1..10 {
        assert_eq!(store.join_game(id, format!("p{}", k)), Ok(()));
        assert_eq!(seen(&store, id).players.len(), k + 1);
    }
    assert_eq!(store.join_game(id, name("late")), Err(GameError::SessionFull));
    assert_eq!(store.join_game(id, name("later")), Err(GameError::SessionFull));
    let game = seen(&store, id);
    assert_eq!(game.players.len(), 10);
    assert_eq!(game.players[9], "p9");
}

#[test]
fn a_join_changes_the_roster_only() {
    let mut store = table(&["alice"]);
    let before = seen(&store, 1);
    assert_eq!(store.join_game(1, name("bob")), Ok(()));
    let after = seen(&store, 1);
    assert_eq!(after.players, vec![name("alice"), name("bob")]);
    assert_eq!(after.state_hash, before.state_hash);
    assert_eq!(after.current_player_index, before.current_player_index);
    assert_eq!(after.is_started, before.is_started);
    assert_eq!(after.last_action_timestamp, before.last_action_timestamp);
    assert_eq!(after.turn_count, 0);
}

#[test]
fn the_same_player_may_sit_twice() {
    let mut store = table(&["alice"]);
    assert_eq!(store.join_game(1, name("alice")), Ok(()));
    assert_eq!(seen(&store, 1).players, vec![name("alice"), name("alice")]);
}

#[test]
fn a_start_needs_two_players() {
    let mut store = table(&["alice"]);
    assert_eq!(store.start_game(1, 5), Err(GameError::InsufficientPlayers));
    let game = seen(&store, 1);
    assert!(!game.is_started);
    assert_eq!(game.last_action_timestamp, 100);
}

#[test]
fn a_session_starts_once() {
    let mut store = table(&["alice", "bob"]);
    assert_eq!(store.start_game(1, 5), Ok(()));
    let started = seen(&store, 1);
    assert!(started.is_started);
    assert_eq!(started.last_action_timestamp, 5);
    assert_eq!(store.start_game(1, 6), Err(GameError::AlreadyStarted));
    assert_eq!(seen(&store, 1).last_action_timestamp, 5);
}

#[test]
fn an_unknown_id_is_not_found() {
    let mut store = table(&["alice"]);
    assert_eq!(store.join_game(2, name("bob")), Err(GameError::NotFound));
    assert_eq!(store.join_game(0, name("bob")), Err(GameError::NotFound));
    assert_eq!(store.start_game(2, 1), Err(GameError::NotFound));
    assert_eq!(store.submit_action(2, name("h"), name("alice"), 1), Err(GameError::NotFound));
    assert_eq!(store.end_game(2, name("alice")), Err(GameError::NotFound));
    assert!(matches!(store.get_game_state(2), Err(GameError::NotFound)));
    assert!(matches!(store.get_game_actions(2), Err(GameError::NotFound)));
    assert_eq!(store.session_count(), 1);
}

#[test]
fn a_session_without_moves_has_no_log() {
    let mut store = table(&["alice", "bob"]);
    assert!(matches!(store.get_game_actions(1), Err(GameError::NotFound)));
    assert_eq!(store.start_game(1, 1), Ok(()));
    assert!(matches!(store.get_game_actions(1), Err(GameError::NotFound)));
    assert_eq!(store.submit_action(1, name("h"), name("alice"), 2), Ok(()));
    assert_eq!(log(&store, 1).len(), 1);
}

#[test]
fn only_the_player_in_turn_ends_the_session() {
    let mut store = table(&["alice", "bob"]);
    assert_eq!(store.end_game(1, name("bob")), Err(GameError::NotYourTurn));
    assert!(seen(&store, 1).is_active);
    let before = seen(&store, 1);
    assert_eq!(store.end_game(1, name("alice")), Ok(()));
    let after = seen(&store, 1);
    assert!(!after.is_active);
    assert_eq!(after.state_hash, before.state_hash);
    assert_eq!(after.turn_count, before.turn_count);
    assert_eq!(after.players, before.players);
}

#[test]
fn an_ended_session_turns_joins_moves_and_ends_down() {
    let mut store = table(&["alice", "bob"]);
    assert_eq!(store.start_game(1, 1), Ok(()));
    assert_eq!(store.submit_action(1, name("h1"), name("alice"), 2), Ok(()));
    assert_eq!(store.end_game(1, name("bob")), Ok(()));
    let ended = seen(&store, 1);
    assert_eq!(store.join_game(1, name("carol")), Err(GameError::NotActive));
    assert_eq!(store.submit_action(1, name("h2"), name("bob"), 3), Err(GameError::NotActive));
    assert_eq!(store.submit_action(1, name("h2"), name("alice"), 3), Err(GameError::NotActive));
    assert_eq!(store.end_game(1, name("bob")), Err(GameError::NotActive));
    assert_eq!(store.end_game(1, name("alice")), Err(GameError::NotActive));
    assert_eq!(store.start_game(1, 4), Err(GameError::NotActive));
    let still = seen(&store, 1);
    assert!(!still.is_active);
    assert_eq!(still.players, ended.players);
    assert_eq!(still.state_hash, ended.state_hash);
    assert_eq!(still.turn_count, 1);
    assert_eq!(still.current_player_index, ended.current_player_index);
    assert_eq!(still.last_action_timestamp, ended.last_action_timestamp);
    assert!(still.is_started);
    assert_eq!(log(&store, 1).len(), 1);
}

#[test]
fn an_ended_session_cannot_be_started() {
    let mut store = table(&["alice", "bob"]);
    assert_eq!(store.end_game(1, name("alice")), Ok(()));
    let ended = seen(&store, 1);
    assert_eq!(store.start_game(1, 9), Err(GameError::NotActive));
    let game = seen(&store, 1);
    assert!(!game.is_started);
    assert!(!game.is_active);
    assert_eq!(game.state_hash, ended.state_hash);
    assert_eq!(game.state_hash, "005a683cfe8a7e53a2f1a7b903dc2b0b");
    assert_eq!(game.last_action_timestamp, 100);
    assert_eq!(game.players, ended.players);
    assert_eq!(store.submit_action(1, name("h"), name("alice"), 10), Err(GameError::NotActive));
}

#[test]
fn an_ended_session_with_one_player_is_not_active_rather_than_short() {
    let mut store = table(&["alice"]);
    assert_eq!(store.start_game(1, 1), Err(GameError::InsufficientPlayers));
    assert_eq!(store.end_game(1, name("alice")), Ok(()));
    assert_eq!(store.start_game(1, 2), Err(GameError::NotActive));
    assert_eq!(store.start_game(7, 2), Err(GameError::NotFound));
}

#[test]
fn a_refused_request_changes_nothing() {
    let mut store = table(&["alice", "bob"]);
    assert_eq!(store.start_game(1, 1), Ok(()));
    let before = seen(&store, 1);
    assert_eq!(store.submit_action(1, name("h"), name("bob"), 2), Err(GameError::NotYourTurn));
    assert_eq!(store.submit_action(1, name("h"), name("Alice"), 2), Err(GameError::NotYourTurn));
    let after = seen(&store, 1);
    assert_eq!(after.state_hash, before.state_hash);
    assert_eq!(after.turn_count, 0);
    assert_eq!(after.current_player_index, 0);
    assert_eq!(after.last_action_timestamp, 1);
    assert!(matches!(store.get_game_actions(1), Err(GameError::NotFound)));
}

#[test]
fn sessions_do_not_touch_each_other() {
    let mut store = Store::init();
    assert_eq!(store.create_game(name("alice"), 1), 1);
    assert_eq!(store.create_game(name("carol"), 2), 2);
    assert_eq!(store.join_game(2, name("dave")), Ok(()));
    assert_eq!(store.start_game(2, 3), Ok(()));
    assert_eq!(store.submit_action(2, name("h"), name("carol"), 4), Ok(()));
    let first = seen(&store, 1);
    assert_eq!(first.players, vec![name("alice")]);
    assert_eq!(first.turn_count, 0);
    assert_eq!(first.last_action_timestamp, 1);
    assert!(matches!(store.get_game_actions(1), Err(GameError::NotFound)));
    assert_eq!(log(&store, 2).len(), 1);
}

#[test]
fn each_error_has_its_wording() {
    assert_eq!(GameError::NotFound.message(), "Game not found");
    assert_eq!(GameError::NotActive.message(), "Game is not active");
    assert_eq!(GameError::NotYourTurn.message(), "Not your turn");
    assert_eq!(GameError::InsufficientPlayers.message(), "Not enough players");
    assert_eq!(GameError::AlreadyStarted.message(), "Game already started");
    assert_eq!(GameError::SessionFull.message(), "Game is full");
}
