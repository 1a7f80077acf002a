use poker_lobby::action::{Action, ActionErrorCode, ActionResult};
use poker_lobby::deck::Deck;
use poker_lobby::lobby::Lobby;
use poker_lobby::player::Player;

fn player(name: &str, client_id: u64, money: i32) -> Player {
    let mut p = Player::default();
    p.name = name.to_string();
    p.client_id = client_id;
    p.money = money;
    p
}

fn table(stacks: &[i32]) -> Lobby {
    let mut lobby = Lobby::new();
    for (i, money) in stacks.iter().enumerate() {
        let p = player(&format!("P{}", i), 100 + i as u64, *money);
        assert!(lobby.can_add_player(&p));
        lobby.add_player(p);
    }
    assert!(lobby.is_well_formed());
    lobby
}

fn chips(lobby: &Lobby) -> i64 {
    lobby.players.iter().map(|p| p.money as i64).sum::<i64>() + lobby.pot as i64
}

fn play(lobby: &mut Lobby, action: Action) -> ActionResult {
    assert!(lobby.is_well_formed());
    assert!(!lobby.players.is_empty());
    let before = chips(lobby);
    let result = lobby.play_turn(action);
    assert!(lobby.is_well_formed());
    assert_eq!(chips(lobby), before);
    result
}

fn code(result: &ActionResult) -> Option<ActionErrorCode> {
    result.error_code()
}

#[test]
fn new_table_is_empty() {
    let lobby = Lobby::new();
    assert!(lobby.players.is_empty());
    assert_eq!(lobby.turn, 0);
    assert_eq!(lobby.pot, 0);
    assert_eq!(lobby.current_bet, 0);
    assert_eq!(lobby.deck.remaining(), 0);
    assert!(lobby.is_well_formed());
    assert!(lobby.is_hand_over());
}

#[test]
fn new_from_deck_keeps_the_deck() {
    let deck = Deck::new((0..52).collect());
    let lobby = Lobby::new_from_deck(deck.clone());
    assert_eq!(lobby.deck, deck);
    assert!(lobby.players.is_empty());
    assert!(lobby.is_well_formed());
}

#[test]
fn add_deck_replaces_the_deck_only() {
    let mut lobby = table(&[100, 100]);
    let before_players = lobby.players.clone();
    lobby.add_deck(Deck::new((0..52).collect()));
    assert_eq!(lobby.deck.remaining(), 52);
    assert_eq!(lobby.players, before_players);
    assert_eq!(lobby.turn, 0);
    assert_eq!(lobby.pot, 0);
}

#[test]
fn default_player_has_starting_stack() {
    let p = Player::default();
    assert_eq!(p.name, "");
    assert!(p.hand.is_empty());
    assert_eq!(p.money, 5000);
    assert_eq!(p.position, 0);
    assert!(!p.is_all_in);
    assert!(!p.is_folded);
    assert_eq!(p.bet_this_turn, 0);
    assert_eq!(p.client_id, 0);
    let q = Player::new("Ann".to_string(), 9);
    assert_eq!(q.name, "Ann");
    assert_eq!(q.client_id, 9);
    assert_eq!(q.money, 5000);
    assert_eq!(p.clone(), p);
}

#[test]
fn scenario_check_raise_call() {
    let mut lobby = table(&[100, 100, 100]);
    assert_eq!(lobby.current_bet, 0);

    assert_eq!(play(&mut lobby, Action::Check), ActionResult::Success);
    assert_eq!(lobby.turn, 1);
    assert_eq!(lobby.pot, 0);

    assert_eq!(play(&mut lobby, Action::Raise(20)), ActionResult::Success);
    assert_eq!(lobby.players[1].money, 80);
    assert_eq!(lobby.players[1].bet_this_turn, 20);
    assert_eq!(lobby.current_bet, 20);
    assert_eq!(lobby.pot, 20);
    assert_eq!(lobby.turn, 2);

    assert_eq!(play(&mut lobby, Action::Call), ActionResult::Success);
    assert_eq!(lobby.players[2].money, 80);
    assert_eq!(lobby.players[2].bet_this_turn, 20);
    assert_eq!(lobby.pot, 40);
    assert_eq!(lobby.turn, 0);
    assert_eq!(lobby.players[0].money, 100);
    assert_eq!(chips(&lobby), 300);
}

#[test]
fn scenario_fold_then_fold_ends_the_hand() {
    let mut lobby = table(&[100, 100, 100]);
    assert_eq!(play(&mut lobby, Action::Check), ActionResult::Success);
    assert_eq!(lobby.turn, 1);

    assert_eq!(play(&mut lobby, Action::Fold), ActionResult::Success);
    assert!(lobby.players[1].is_folded);
    assert_eq!(lobby.turn, 2);
    assert!(!lobby.is_hand_over());

    assert_eq!(play(&mut lobby, Action::Fold), ActionResult::Success);
    assert!(lobby.players[2].is_folded);
    assert!(lobby.is_hand_over());
    assert_eq!(lobby.turn, 0);
    assert!(!lobby.players[0].is_folded);
    assert_eq!(chips(&lobby), 300);
}

#[test]
fn turn_passes_over_folded_seats_and_wraps() {
    let mut lobby = table(&[50, 50, 50, 50]);
    assert_eq!(play(&mut lobby, Action::Check), ActionResult::Success);
    assert_eq!(play(&mut lobby, Action::Fold), ActionResult::Success);
    assert_eq!(play(&mut lobby, Action::Fold), ActionResult::Success);
    assert_eq!(lobby.turn, 3);
    assert_eq!(play(&mut lobby, Action::Check), ActionResult::Success);
    assert_eq!(lobby.turn, 0);
    assert_eq!(play(&mut lobby, Action::Check), ActionResult::Success);
    assert_eq!(lobby.turn, 3);
    assert!(!lobby.is_hand_over());
}

#[test]
fn last_seat_folding_leaves_the_turn_where_it_is() {
    let mut lobby = table(&[10, 10]);
    assert_eq!(play(&mut lobby, Action::Fold), ActionResult::Success);
    assert_eq!(lobby.turn, 1);
    assert!(lobby.is_hand_over());
    assert_eq!(play(&mut lobby, Action::Fold), ActionResult::Success);
    assert_eq!(lobby.turn, 1);
    assert!(lobby.players.iter().all(|p| p.is_folded));
    assert!(lobby.is_hand_over());
    assert!(!lobby.is_client_turn(101));
}

#[test]
fn single_player_keeps_the_turn() {
    let mut lobby = table(&[10]);
    assert!(lobby.is_hand_over());
    assert_eq!(play(&mut lobby, Action::Check), ActionResult::Success);
    assert_eq!(lobby.turn, 0);
    assert_eq!(play(&mut lobby, Action::Raise(4)), ActionResult::Success);
    assert_eq!(lobby.turn, 0);
    assert_eq!(lobby.pot, 4);
    assert_eq!(lobby.players[0].money, 6);
}

#[test]
fn check_under_the_current_bet_is_refused() {
    let mut lobby = table(&[100, 100]);
    assert_eq!(play(&mut lobby, Action::Raise(30)), ActionResult::Success);
    let before = lobby.clone();
    let result = play(&mut lobby, Action::Check);
    assert_eq!(
        result,
        ActionResult::Error(
            "You must call the current bet".to_string(),
            ActionErrorCode::MustCallCurrentBet
        )
    );
    assert!(!result.is_success());
    assert_eq!(lobby, before);
}

#[test]
fn check_at_the_current_bet_changes_only_the_turn() {
    let mut lobby = table(&[100, 100]);
    assert_eq!(play(&mut lobby, Action::Raise(30)), ActionResult::Success);
    assert_eq!(play(&mut lobby, Action::Call), ActionResult::Success);
    assert_eq!(lobby.turn, 0);
    let result = play(&mut lobby, Action::Check);
    assert!(result.is_success());
    assert_eq!(result.error_code(), None);
    assert_eq!(lobby.turn, 1);
    assert_eq!(lobby.pot, 60);
    assert_eq!(lobby.players[0].money, 70);
}

#[test]
fn call_without_the_money_is_refused() {
    let mut lobby = table(&[100, 19]);
    assert_eq!(play(&mut lobby, Action::Raise(20)), ActionResult::Success);
    let before = lobby.clone();
    let result = play(&mut lobby, Action::Call);
    assert_eq!(
        result,
        ActionResult::Error(
            "You don't have enough money to call".to_string(),
            ActionErrorCode::NotEnoughMoney
        )
    );
    assert_eq!(lobby, before);
    assert_eq!(lobby.turn, 1);
}

#[test]
fn call_with_exactly_the_money_empties_the_stack() {
    let mut lobby = table(&[100, 20]);
    assert_eq!(play(&mut lobby, Action::Raise(20)), ActionResult::Success);
    assert_eq!(play(&mut lobby, Action::Call), ActionResult::Success);
    assert_eq!(lobby.players[1].money, 0);
    assert_eq!(lobby.players[1].bet_this_turn, 20);
    assert_eq!(lobby.pot, 40);
}

#[test]
fn call_pays_only_what_is_missing() {
    let mut lobby = table(&[100, 100]);
    assert_eq!(play(&mut lobby, Action::Raise(10)), ActionResult::Success);
    assert_eq!(play(&mut lobby, Action::Raise(25)), ActionResult::Success);
    assert_eq!(lobby.current_bet, 25);
    assert_eq!(play(&mut lobby, Action::Call), ActionResult::Success);
    assert_eq!(lobby.players[0].money, 75);
    assert_eq!(lobby.players[0].bet_this_turn, 25);
    assert_eq!(lobby.pot, 50);
    assert_eq!(play(&mut lobby, Action::Call), ActionResult::Success);
    assert_eq!(lobby.players[1].money, 75);
    assert_eq!(lobby.pot, 50);
}

#[test]
fn raise_under_the_current_bet_is_refused() {
    let mut lobby = table(&[100, 100]);
    assert_eq!(play(&mut lobby, Action::Raise(20)), ActionResult::Success);
    let before = lobby.clone();
    let result = play(&mut lobby, Action::Raise(19));
    assert_eq!(
        result,
        ActionResult::Error(
            "You must raise to the current bet".to_string(),
            ActionErrorCode::MustRaiseToCurrentBet
        )
    );
    assert_eq!(lobby, before);
    assert_eq!(play(&mut lobby, Action::Raise(20)), ActionResult::Success);
    assert_eq!(lobby.current_bet, 20);
}

#[test]
fn raise_counts_what_is_already_staked() {
    let mut lobby = table(&[100, 100]);
    assert_eq!(play(&mut lobby, Action::Raise(10)), ActionResult::Success);
    assert_eq!(play(&mut lobby, Action::Raise(30)), ActionResult::Success);
    assert_eq!(lobby.current_bet, 30);
    assert_eq!(code(&play(&mut lobby, Action::Raise(19))), Some(ActionErrorCode::MustRaiseToCurrentBet));
    assert_eq!(play(&mut lobby, Action::Raise(25)), ActionResult::Success);
    assert_eq!(lobby.players[0].bet_this_turn, 35);
    assert_eq!(lobby.players[0].money, 65);
    assert_eq!(lobby.current_bet, 35);
    assert_eq!(lobby.pot, 65);
}

#[test]
fn raise_beyond_the_stack_is_refused() {
    let mut lobby = table(&[100, 100]);
    let before = lobby.clone();
    let result = play(&mut lobby, Action::Raise(101));
    assert_eq!(
        result,
        ActionResult::Error(
            "You don't have enough money to raise".to_string(),
            ActionErrorCode::NotEnoughMoney
        )
    );
    assert_eq!(lobby, before);
    assert_eq!(play(&mut lobby, Action::Raise(100)), ActionResult::Success);
    assert_eq!(lobby.players[0].money, 0);
    assert_eq!(lobby.pot, 100);
}

#[test]
fn raise_short_of_money_and_of_the_bet_reports_the_money() {
    let mut lobby = table(&[100, 5]);
    assert_eq!(play(&mut lobby, Action::Raise(20)), ActionResult::Success);
    let before = lobby.clone();
    assert_eq!(code(&play(&mut lobby, Action::Raise(10))), Some(ActionErrorCode::NotEnoughMoney));
    assert_eq!(lobby, before);
}

#[test]
fn negative_raise_is_refused() {
    let mut lobby = table(&[100, 100]);
    let before = lobby.clone();
    assert_eq!(code(&play(&mut lobby, Action::Raise(-1))), Some(ActionErrorCode::MustRaiseToCurrentBet));
    assert_eq!(code(&play(&mut lobby, Action::Raise(i32::MIN))), Some(ActionErrorCode::MustRaiseToCurrentBet));
    assert_eq!(lobby, before);
    assert_eq!(code(&play(&mut lobby, Action::Raise(i32::MAX))), Some(ActionErrorCode::NotEnoughMoney));
    assert_eq!(lobby, before);
}

#[test]
fn raise_of_nothing_at_the_current_bet_is_a_check() {
    let mut lobby = table(&[100, 100]);
    assert_eq!(play(&mut lobby, Action::Raise(0)), ActionResult::Success);
    assert_eq!(lobby.pot, 0);
    assert_eq!(lobby.current_bet, 0);
    assert_eq!(lobby.turn, 1);
}

#[test]
fn all_in_marks_the_seat_and_moves_no_chips() {
    let mut lobby = table(&[100, 100]);
    assert_eq!(play(&mut lobby, Action::AllIn), ActionResult::Success);
    assert!(lobby.players[0].is_all_in);
    assert!(!lobby.players[0].is_folded);
    assert_eq!(lobby.players[0].money, 100);
    assert_eq!(lobby.pot, 0);
    assert_eq!(lobby.turn, 1);
}

#[test]
fn fold_moves_no_chips() {
    let mut lobby = table(&[100, 100, 100]);
    assert_eq!(play(&mut lobby, Action::Raise(40)), ActionResult::Success);
    assert_eq!(play(&mut lobby, Action::Fold), ActionResult::Success);
    assert!(lobby.players[1].is_folded);
    assert_eq!(lobby.players[1].money, 100);
    assert_eq!(lobby.pot, 40);
    assert_eq!(lobby.turn, 2);
}

#[test]
fn chips_are_conserved_over_a_long_game() {
    let mut lobby = table(&[500, 300, 200, 1000]);
    let total = chips(&lobby);
    assert_eq!(total, 2000);
    let actions = [
        Action::Raise(10),
        Action::Call,
        Action::Raise(5),
        Action::Raise(50),
        Action::Fold,
        Action::Check,
        Action::Call,
        Action::Call,
        Action::Raise(200),
        Action::AllIn,
        Action::Raise(1000),
        Action::Call,
        Action::Raise(-7),
        Action::Check,
        Action::Fold,
        Action::Call,
        Action::Raise(1),
    ];
    let mut pot = 0;
    let mut bet = 0;
    for action in actions {
        let _ = play(&mut lobby, action);
        assert_eq!(chips(&lobby), total);
        assert!(lobby.pot >= pot);
        assert!(lobby.current_bet >= bet);
        pot = lobby.pot;
        bet = lobby.current_bet;
        let active = lobby.players.iter().filter(|p| !p.is_folded).count();
        if active >= 2 {
            assert!(!lobby.players[lobby.turn as usize].is_folded);
        }
        assert_eq!(lobby.is_hand_over(), active <= 1);
        assert!(lobby.players.iter().all(|p| p.money >= 0 && p.bet_this_turn >= 0));
    }
    assert!(lobby.pot > 0);
}

#[test]
fn add_player_gives_the_next_position() {
    let mut lobby = Lobby::new();
    let mut a = player("A", 7, 10);
    a.position = 200;
    assert!(lobby.can_add_player(&a));
    lobby.add_player(a);
    let mut b = player("B", 8, 20);
    b.position = 0;
    assert!(lobby.can_add_player(&b));
    lobby.add_player(b);
    assert_eq!(lobby.players.len(), 2);
    assert_eq!(lobby.players[0].position, 0);
    assert_eq!(lobby.players[0].client_id, 7);
    assert_eq!(lobby.players[0].name, "A");
    assert_eq!(lobby.players[1].position, 1);
    assert_eq!(lobby.players[1].client_id, 8);
    assert_eq!(lobby.players[1].money, 20);
    assert_eq!(lobby.turn, 0);
    assert_eq!(chips(&lobby), 30);
    assert!(lobby.is_well_formed());
}

#[test]
fn can_add_player_says_who_cannot_sit() {
    let lobby = table(&[100, 100]);
    assert!(lobby.can_add_player(&player("new", 1, 0)));
    assert!(!lobby.can_add_player(&player("same client", 100, 10)));
    assert!(!lobby.can_add_player(&player("in debt", 1, -1)));
    let mut staked = player("staked", 1, 10);
    staked.bet_this_turn = 1;
    assert!(!lobby.can_add_player(&staked));
    assert!(lobby.can_add_player(&player("rich", 1, i32::MAX - 200)));
    assert!(!lobby.can_add_player(&player("too rich", 1, i32::MAX - 199)));
    let mut folded = player("folded", 1, 10);
    folded.is_folded = true;
    assert!(lobby.can_add_player(&folded));
}

#[test]
fn table_takes_256_players_and_no_more() {
    let mut lobby = Lobby::new();
    for i in 0..256u64 {
        let p = player("p", i, 1);
        assert!(lobby.can_add_player(&p));
        lobby.add_player(p);
    }
    assert_eq!(lobby.players.len(), 256);
    assert_eq!(lobby.players[255].position, 255);
    assert!(lobby.is_well_formed());
    assert!(!lobby.can_add_player(&player("late", 1000, 1)));
    lobby.turn = 255;
    assert!(lobby.is_well_formed());
    assert_eq!(play(&mut lobby, Action::Check), ActionResult::Success);
    assert_eq!(lobby.turn, 0);
}

#[test]
fn seating_leaves_the_turn_where_it_is() {
    let mut lobby = table(&[10, 10, 10]);
    assert_eq!(play(&mut lobby, Action::Check), ActionResult::Success);
    assert_eq!(lobby.turn, 1);
    let before = lobby.clone();
    let p = player("late", 5, 10);
    assert!(lobby.can_add_player(&p));
    lobby.add_player(p);
    assert_eq!(lobby.turn, 1);
    assert_eq!(lobby.pot, before.pot);
    assert_eq!(lobby.current_bet, before.current_bet);
    assert_eq!(lobby.deck, before.deck);
    assert_eq!(lobby.players[..3], before.players[..]);
    assert!(lobby.is_well_formed());
}

#[test]
fn seating_at_a_folded_table_leaves_the_turn_where_it_is() {
    let mut lobby = table(&[10]);
    assert_eq!(play(&mut lobby, Action::Fold), ActionResult::Success);
    assert_eq!(lobby.turn, 0);
    let p = player("late", 5, 10);
    assert!(lobby.can_add_player(&p));
    lobby.add_player(p);
    assert_eq!(lobby.turn, 0);
    assert!(lobby.players[0].is_folded);
    assert!(!lobby.is_client_turn(100));
    assert!(!lobby.is_client_turn(5));
    assert!(lobby.is_hand_over());
    assert!(lobby.is_well_formed());

    let mut lobby = table(&[10, 10]);
    assert_eq!(play(&mut lobby, Action::Fold), ActionResult::Success);
    assert_eq!(play(&mut lobby, Action::Fold), ActionResult::Success);
    assert_eq!(lobby.turn, 1);
    let mut gone = player("folded", 6, 10);
    gone.is_folded = true;
    assert!(lobby.can_add_player(&gone));
    lobby.add_player(gone);
    assert_eq!(lobby.turn, 1);
    let p = player("late", 5, 10);
    assert!(lobby.can_add_player(&p));
    lobby.add_player(p);
    assert_eq!(lobby.turn, 1);
    assert!(lobby.is_well_formed());
}

#[test]
fn second_player_who_can_play_takes_the_turn_off_a_folded_seat() {
    let mut lobby = table(&[10, 10]);
    assert_eq!(play(&mut lobby, Action::Fold), ActionResult::Success);
    assert_eq!(play(&mut lobby, Action::Fold), ActionResult::Success);
    assert_eq!(lobby.turn, 1);
    for id in [5, 6] {
        let p = player("late", id, 10);
        assert!(lobby.can_add_player(&p));
        lobby.add_player(p);
    }
    assert_eq!(lobby.turn, 2);
    assert!(lobby.is_client_turn(5));
    assert!(!lobby.is_hand_over());
    assert!(lobby.is_well_formed());

    let mut lobby = table(&[10, 10, 10]);
    assert_eq!(play(&mut lobby, Action::Check), ActionResult::Success);
    assert_eq!(play(&mut lobby, Action::Fold), ActionResult::Success);
    assert_eq!(play(&mut lobby, Action::Check), ActionResult::Success);
    assert_eq!(lobby.turn, 0);
    lobby.fold_player_by_id(102);
    assert_eq!(lobby.turn, 0);
    lobby.fold_player_by_id(100);
    assert_eq!(lobby.turn, 0);
    assert!(lobby.players.iter().all(|p| p.is_folded));
    let first = player("first", 5, 10);
    assert!(lobby.can_add_player(&first));
    lobby.add_player(first);
    assert_eq!(lobby.turn, 0);
    let second = player("second", 6, 10);
    assert!(lobby.can_add_player(&second));
    lobby.add_player(second);
    assert_eq!(lobby.turn, 3);
    assert!(lobby.is_well_formed());
}

#[test]
fn remove_player_moves_the_later_seats_down() {
    let mut lobby = table(&[10, 20, 30, 40]);
    assert_eq!(play(&mut lobby, Action::Check), ActionResult::Success);
    assert_eq!(play(&mut lobby, Action::Check), ActionResult::Success);
    assert_eq!(lobby.turn, 2);
    lobby.remove_player_by_id(101);
    assert_eq!(lobby.players.len(), 3);
    assert_eq!(
        lobby.players.iter().map(|p| (p.client_id, p.position, p.money)).collect::<Vec<_>>(),
        vec![(100, 0, 10), (102, 1, 30), (103, 2, 40)]
    );
    assert_eq!(lobby.turn, 1);
    assert!(lobby.is_client_turn(102));
    assert_eq!(lobby.find_seat(101), None);
    assert!(lobby.is_well_formed());
    assert_eq!(chips(&lobby), 80);
}

#[test]
fn remove_player_at_the_turn_passes_the_turn_on() {
    let mut lobby = table(&[10, 20, 30]);
    assert_eq!(play(&mut lobby, Action::Check), ActionResult::Success);
    assert_eq!(play(&mut lobby, Action::Check), ActionResult::Success);
    assert_eq!(lobby.turn, 2);
    lobby.remove_player_by_id(102);
    assert_eq!(lobby.players.len(), 2);
    assert_eq!(lobby.turn, 0);
    assert!(lobby.is_well_formed());

    let mut lobby = table(&[10, 20, 30]);
    assert_eq!(play(&mut lobby, Action::Check), ActionResult::Success);
    assert_eq!(play(&mut lobby, Action::Raise(5)), ActionResult::Success);
    assert_eq!(play(&mut lobby, Action::Fold), ActionResult::Success);
    assert_eq!(lobby.turn, 0);
    lobby.remove_player_by_id(100);
    assert_eq!(lobby.turn, 0);
    assert_eq!(lobby.players[0].client_id, 101);
    assert_eq!(lobby.pot, 5);
    assert!(lobby.is_well_formed());
}

#[test]
fn remove_player_skips_a_folded_successor() {
    let mut lobby = table(&[10, 20, 30]);
    assert_eq!(play(&mut lobby, Action::Check), ActionResult::Success);
    assert_eq!(play(&mut lobby, Action::Check), ActionResult::Success);
    assert_eq!(play(&mut lobby, Action::Fold), ActionResult::Success);
    assert_eq!(play(&mut lobby, Action::Check), ActionResult::Success);
    assert_eq!(lobby.turn, 1);
    lobby.remove_player_by_id(101);
    assert_eq!(lobby.players.len(), 2);
    assert!(lobby.players[1].is_folded);
    assert_eq!(lobby.turn, 0);
    assert!(lobby.is_well_formed());
}

#[test]
fn remove_unknown_player_changes_nothing() {
    let mut lobby = table(&[10, 20]);
    let before = lobby.clone();
    lobby.remove_player_by_id(999);
    assert_eq!(lobby, before);
    lobby.remove_player_by_id(100);
    lobby.remove_player_by_id(101);
    assert!(lobby.players.is_empty());
    assert_eq!(lobby.turn, 0);
    assert!(lobby.is_well_formed());
}

#[test]
fn fold_player_by_id_out_of_turn_keeps_the_turn() {
    let mut lobby = table(&[10, 20, 30]);
    lobby.fold_player_by_id(102);
    assert!(lobby.players[2].is_folded);
    assert_eq!(lobby.turn, 0);
    assert_eq!(play(&mut lobby, Action::Check), ActionResult::Success);
    assert_eq!(play(&mut lobby, Action::Check), ActionResult::Success);
    assert_eq!(lobby.turn, 0);
    lobby.fold_player_by_id(999);
    assert!(lobby.is_well_formed());
    assert_eq!(chips(&lobby), 60);
}

#[test]
fn fold_and_remove_leave_a_resting_turn_alone() {
    let mut lobby = table(&[10, 20, 30, 40]);
    lobby.fold_player_by_id(100);
    assert_eq!(lobby.turn, 1);
    lobby.fold_player_by_id(101);
    assert_eq!(lobby.turn, 2);
    lobby.fold_player_by_id(102);
    assert_eq!(lobby.turn, 3);
    lobby.turn = 1;
    assert!(lobby.is_well_formed());
    lobby.fold_player_by_id(103);
    assert_eq!(lobby.turn, 1);
    lobby.remove_player_by_id(102);
    assert_eq!(lobby.turn, 1);
    lobby.remove_player_by_id(100);
    assert_eq!(lobby.turn, 0);
    assert_eq!(lobby.players[0].client_id, 101);
    assert!(lobby.is_well_formed());
}

#[test]
fn fold_player_by_id_at_the_turn_passes_the_turn_on() {
    let mut lobby = table(&[10, 20, 30]);
    lobby.fold_player_by_id(100);
    assert!(lobby.players[0].is_folded);
    assert_eq!(lobby.turn, 1);
    lobby.fold_player_by_id(101);
    assert_eq!(lobby.turn, 2);
    assert!(lobby.is_hand_over());
    lobby.fold_player_by_id(102);
    assert_eq!(lobby.turn, 2);
    assert!(lobby.is_well_formed());
}

#[test]
fn is_client_turn_follows_the_turn() {
    let mut lobby = table(&[10, 20]);
    assert!(lobby.is_client_turn(100));
    assert!(!lobby.is_client_turn(101));
    assert!(!lobby.is_client_turn(5));
    assert_eq!(play(&mut lobby, Action::Check), ActionResult::Success);
    assert!(!lobby.is_client_turn(100));
    assert!(lobby.is_client_turn(101));
    assert!(!Lobby::new().is_client_turn(0));
}

#[test]
fn get_client_id_from_position_finds_the_seat() {
    let lobby = table(&[10, 20, 30]);
    assert_eq!(lobby.get_client_id_from_position(0), Some(100));
    assert_eq!(lobby.get_client_id_from_position(2), Some(102));
    assert_eq!(lobby.get_client_id_from_position(3), None);
    assert_eq!(Lobby::new().get_client_id_from_position(0), None);
    assert_eq!(lobby.find_seat(101), Some(1));
    assert_eq!(lobby.find_seat(7), None);
}

#[test]
fn is_well_formed_finds_each_fault() {
    assert!(table(&[10, 20, 30]).is_well_formed());

    let mut l = table(&[10, 20, 30]);
    l.players[1].position = 2;
    assert!(!l.is_well_formed());

    let mut l = table(&[10, 20, 30]);
    l.players[2].client_id = 100;
    assert!(!l.is_well_formed());

    let mut l = table(&[10, 20, 30]);
    l.players[0].money = -1;
    assert!(!l.is_well_formed());

    let mut l = table(&[10, 20, 30]);
    l.players[0].bet_this_turn = -1;
    assert!(!l.is_well_formed());

    let mut l = table(&[10, 20, 30]);
    l.players[0].bet_this_turn = 1;
    l.pot = 1;
    assert!(!l.is_well_formed());
    l.current_bet = 1;
    assert!(l.is_well_formed());
    l.pot = 0;
    assert!(!l.is_well_formed());

    let mut l = table(&[10, 20, 30]);
    l.pot = -1;
    assert!(!l.is_well_formed());

    let mut l = table(&[10, 20, 30]);
    l.current_bet = -1;
    assert!(!l.is_well_formed());

    let mut l = table(&[10, 20, 30]);
    l.pot = i32::MAX - 60;
    assert!(l.is_well_formed());
    l.pot = i32::MAX - 59;
    assert!(!l.is_well_formed());

    let mut l = table(&[10, 20, 30]);
    l.turn = 3;
    assert!(!l.is_well_formed());

    let mut l = table(&[10, 20, 30]);
    l.players[0].is_folded = true;
    assert!(!l.is_well_formed());
    l.turn = 1;
    assert!(l.is_well_formed());
    l.players[1].is_folded = true;
    assert!(l.is_well_formed());
    l.turn = 0;
    assert!(l.is_well_formed());
    l.players[2].is_folded = true;
    assert!(l.is_well_formed());

    let mut l = Lobby::new();
    l.turn = 1;
    assert!(!l.is_well_formed());
}
