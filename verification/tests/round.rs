use handpicked::config::Config;
use handpicked::machine::RoundMachine;
use handpicked::radius::Window;
use handpicked::selection::pick;
use handpicked::state::State;
use handpicked::TouchPoint;

fn standard_machine() -> RoundMachine {
    RoundMachine::new(Config::standard(100)).expect("the standard configuration is valid")
}

fn fields(point: &TouchPoint) -> (i32, i32, i32, String) {
    (point.id, point.x, point.y, point.color.clone())
}

fn ids(machine: &RoundMachine) -> Vec<i32> {
    machine.contacts().iter().map(|p| p.id).collect()
}

fn two_contacts() -> RoundMachine {
    let mut machine = standard_machine();
    machine.on_contact_down(1, 10, 20, "#3a86ff".to_string());
    machine.on_contact_down(2, 30, 40, "#ff006e".to_string());
    machine
}

fn selecting() -> RoundMachine {
    let mut machine = two_contacts();
    machine.advance(1000);
    assert_eq!(machine.phase(), State::Selecting);
    machine
}

fn revealing() -> RoundMachine {
    let mut machine = selecting();
    machine.advance(3000);
    assert_eq!(machine.phase(), State::Revealing);
    machine
}

#[test]
fn a_new_machine_is_idle() {
    let machine = standard_machine();
    assert_eq!(machine.phase(), State::Idle);
    assert!(machine.contacts().is_empty());
    assert_eq!(machine.radius(), 100);
    assert_eq!(machine.due(), None);
    assert_eq!(machine.countdown_ticks(), None);
    assert_eq!(machine.config(), Config::standard(100));
}

#[test]
fn an_idle_machine_ignores_time_and_unknown_ids() {
    let mut machine = standard_machine();
    machine.advance(1_000_000);
    machine.on_contact_move(1, 5, 5);
    machine.on_contact_up(1);
    assert_eq!(machine.phase(), State::Idle);
    assert!(machine.contacts().is_empty());
    assert_eq!(machine.due(), None);
}

#[test]
fn first_contact_starts_preparing() {
    let mut machine = standard_machine();
    machine.on_contact_down(1, 10, 20, "#3a86ff".to_string());
    assert_eq!(machine.phase(), State::Preparing);
    assert_eq!(ids(&machine), vec![1]);
    assert_eq!(machine.countdown_ticks(), None);
    assert_eq!(machine.due(), Some(1000));
    let only = &machine.contacts()[0];
    assert_eq!((only.x, only.y, only.color.as_str()), (10, 20, "#3a86ff"));
}

#[test]
fn one_contact_never_leaves_preparing() {
    let mut machine = standard_machine();
    machine.on_contact_down(1, 10, 20, "#3a86ff".to_string());
    machine.advance(999);
    assert_eq!(machine.phase(), State::Preparing);
    assert_eq!(machine.due(), Some(1));
    machine.advance(1);
    assert_eq!(machine.phase(), State::Preparing);
    assert_eq!(machine.due(), None);
    machine.advance(60_000);
    assert_eq!(machine.phase(), State::Preparing);
    assert_eq!(ids(&machine), vec![1]);
    assert_eq!(machine.countdown_ticks(), None);
}

#[test]
fn two_contacts_start_the_countdown_after_the_debounce() {
    let mut machine = two_contacts();
    assert_eq!(machine.phase(), State::Preparing);
    machine.advance(999);
    assert_eq!(machine.phase(), State::Preparing);
    machine.advance(1);
    assert_eq!(machine.phase(), State::Selecting);
    assert_eq!(machine.due(), Some(3000));
    assert_eq!(ids(&machine), vec![1, 2]);
}

#[test]
fn the_countdown_ends_in_the_draw() {
    let mut machine = selecting();
    let snapshot: Vec<TouchPoint> = machine.contacts().clone();
    let expected = snapshot[pick(&snapshot)].id;
    machine.advance(2999);
    assert_eq!(machine.phase(), State::Selecting);
    assert_eq!(ids(&machine), vec![1, 2]);
    machine.advance(1);
    assert_eq!(machine.phase(), State::Revealing);
    assert_eq!(ids(&machine), vec![expected]);
    assert_eq!(machine.countdown_ticks(), None);
    assert_eq!(machine.due(), Some(2000));
    let winner = &machine.contacts()[0];
    let drawn = snapshot.iter().find(|p| p.id == expected).expect("the winner was present");
    assert_eq!(fields(winner), fields(drawn));
}

#[test]
fn a_later_contact_restarts_the_debounce() {
    let mut machine = standard_machine();
    machine.on_contact_down(1, 0, 0, "#111111".to_string());
    machine.advance(600);
    machine.on_contact_down(2, 0, 0, "#222222".to_string());
    assert_eq!(machine.due(), Some(1000));
    machine.advance(999);
    assert_eq!(machine.phase(), State::Preparing);
    machine.advance(1);
    assert_eq!(machine.phase(), State::Selecting);
}

#[test]
fn a_second_contact_after_a_declined_debounce_arms_it_again() {
    let mut machine = standard_machine();
    machine.on_contact_down(1, 0, 0, "#111111".to_string());
    machine.advance(5000);
    assert_eq!(machine.due(), None);
    machine.on_contact_down(2, 0, 0, "#222222".to_string());
    assert_eq!(machine.due(), Some(1000));
    machine.advance(1000);
    assert_eq!(machine.phase(), State::Selecting);
}

#[test]
fn a_repeated_id_changes_nothing() {
    let mut machine = standard_machine();
    machine.on_contact_down(1, 0, 0, "#111111".to_string());
    machine.advance(400);
    machine.on_contact_down(1, 9, 9, "#999999".to_string());
    assert_eq!(machine.due(), Some(600));
    assert_eq!(ids(&machine), vec![1]);
    assert_eq!(machine.contacts()[0].x, 0);
    let mut counting = selecting();
    counting.advance(500);
    counting.on_contact_down(2, 9, 9, "#999999".to_string());
    assert_eq!(counting.phase(), State::Selecting);
    assert_eq!(counting.due(), Some(2500));
}

#[test]
fn a_move_while_preparing_leaves_the_debounce_alone() {
    let mut machine = two_contacts();
    machine.advance(400);
    machine.on_contact_move(2, 31, 41);
    assert_eq!(machine.phase(), State::Preparing);
    assert_eq!(machine.due(), Some(600));
    let second = &machine.contacts()[1];
    assert_eq!((second.x, second.y), (31, 41));
    machine.advance(600);
    assert_eq!(machine.phase(), State::Selecting);
}

#[test]
fn removing_the_last_contact_returns_to_idle() {
    let mut machine = two_contacts();
    machine.on_contact_up(1);
    assert_eq!(machine.phase(), State::Preparing);
    assert_eq!(ids(&machine), vec![2]);
    machine.on_contact_up(2);
    assert_eq!(machine.phase(), State::Idle);
    assert!(machine.contacts().is_empty());
    assert_eq!(machine.due(), None);
    machine.advance(10_000);
    assert_eq!(machine.phase(), State::Idle);
}

#[test]
fn removing_an_unknown_contact_changes_nothing() {
    let mut machine = two_contacts();
    machine.advance(400);
    machine.on_contact_up(77);
    assert_eq!(machine.due(), Some(600));
    assert_eq!(ids(&machine), vec![1, 2]);
    let mut counting = selecting();
    counting.advance(100);
    counting.on_contact_up(77);
    counting.on_contact_move(77, 1, 1);
    assert_eq!(counting.phase(), State::Selecting);
    assert_eq!(counting.due(), Some(2900));
}

#[test]
fn removal_while_selecting_aborts_the_countdown() {
    let mut machine = selecting();
    machine.advance(1500);
    machine.on_contact_up(2);
    assert_eq!(machine.phase(), State::Preparing);
    assert_eq!(machine.countdown_ticks(), None);
    assert_eq!(ids(&machine), vec![1]);
    machine.advance(1500);
    assert_eq!(machine.phase(), State::Preparing);
    assert_eq!(ids(&machine), vec![1]);
    machine.advance(100_000);
    assert_eq!(machine.phase(), State::Preparing);
    assert_eq!(ids(&machine), vec![1]);
    assert_eq!(machine.radius(), 100);
}

#[test]
fn an_aborted_countdown_starts_over_in_full() {
    let mut machine = two_contacts();
    machine.on_contact_down(3, 50, 60, "#8338ec".to_string());
    machine.advance(1000);
    assert_eq!(machine.phase(), State::Selecting);
    machine.advance(2900);
    machine.on_contact_up(3);
    assert_eq!(machine.phase(), State::Preparing);
    assert_eq!(machine.due(), Some(1000));
    machine.advance(100);
    assert_eq!(machine.phase(), State::Preparing);
    machine.advance(900);
    assert_eq!(machine.phase(), State::Selecting);
    assert_eq!(machine.due(), Some(3000));
    machine.advance(2999);
    assert_eq!(machine.phase(), State::Selecting);
    assert_eq!(ids(&machine), vec![1, 2]);
    machine.advance(1);
    assert_eq!(machine.phase(), State::Revealing);
    assert_eq!(machine.contacts().len(), 1);
}

#[test]
fn a_new_contact_while_selecting_aborts_the_countdown() {
    let mut machine = selecting();
    machine.advance(2000);
    machine.on_contact_down(3, 0, 0, "#8338ec".to_string());
    assert_eq!(machine.phase(), State::Preparing);
    assert_eq!(machine.due(), Some(1000));
    assert_eq!(ids(&machine), vec![1, 2, 3]);
    machine.advance(1000);
    assert_eq!(machine.phase(), State::Selecting);
}

#[test]
fn a_move_while_selecting_aborts_the_countdown() {
    let mut machine = selecting();
    machine.advance(2000);
    machine.on_contact_move(1, 10, 20);
    assert_eq!(machine.phase(), State::Selecting);
    assert_eq!(machine.due(), Some(1000));
    machine.on_contact_move(1, 11, 20);
    assert_eq!(machine.phase(), State::Preparing);
    assert_eq!(machine.due(), Some(1000));
    assert_eq!(machine.countdown_ticks(), None);
    assert_eq!(machine.contacts()[0].x, 11);
}

#[test]
fn input_is_ignored_while_the_winner_is_shown() {
    let mut machine = revealing();
    machine.advance(500);
    let before: Vec<TouchPoint> = machine.contacts().clone();
    let winner = before[0].id;
    machine.on_contact_down(50, 1, 1, "#000000".to_string());
    machine.on_contact_down_random_color(51, 1, 1);
    machine.on_contact_move(winner, 500, 500);
    machine.on_contact_up(winner);
    machine.on_contact_up(50);
    assert_eq!(machine.phase(), State::Revealing);
    assert_eq!(machine.contacts().len(), 1);
    assert_eq!(fields(&machine.contacts()[0]), fields(&before[0]));
    assert_eq!(machine.due(), Some(1500));
    assert_eq!(machine.radius(), 350);
}

#[test]
fn input_is_ignored_while_the_round_resets() {
    let mut machine = revealing();
    machine.advance(2000);
    assert_eq!(machine.phase(), State::Resetting);
    let before: Vec<TouchPoint> = machine.contacts().clone();
    let winner = before[0].id;
    machine.on_contact_down(50, 1, 1, "#000000".to_string());
    machine.on_contact_move(winner, 500, 500);
    machine.on_contact_up(winner);
    assert_eq!(machine.phase(), State::Resetting);
    assert_eq!(machine.contacts().len(), 1);
    assert_eq!(fields(&machine.contacts()[0]), fields(&before[0]));
    assert_eq!(machine.due(), Some(2000));
}

#[test]
fn full_round_end_to_end() {
    let mut machine = standard_machine();
    machine.on_contact_down(1, 10, 20, "#3a86ff".to_string());
    machine.on_contact_down(2, 30, 40, "#ff006e".to_string());
    let snapshot: Vec<TouchPoint> = machine.contacts().clone();
    let winner = snapshot[pick(&snapshot)].id;
    // t = 1000
    machine.advance(1000);
    assert_eq!(machine.phase(), State::Selecting);
    // t = 4000
    machine.advance(3000);
    assert_eq!(machine.phase(), State::Revealing);
    assert_eq!(ids(&machine), vec![winner]);
    // t = 6000
    machine.advance(2000);
    assert_eq!(machine.phase(), State::Resetting);
    assert_eq!(ids(&machine), vec![winner]);
    assert_eq!(machine.radius(), 1100);
    // t = 8000
    machine.advance(2000);
    assert_eq!(machine.phase(), State::Idle);
    assert!(machine.contacts().is_empty());
    assert_eq!(machine.radius(), 100);
    assert_eq!(machine.due(), None);
}

#[test]
fn a_whole_round_in_one_step() {
    let mut machine = two_contacts();
    machine.advance(8000);
    assert_eq!(machine.phase(), State::Idle);
    assert!(machine.contacts().is_empty());
    assert_eq!(machine.radius(), 100);
    let mut early = two_contacts();
    early.advance(7999);
    assert_eq!(early.phase(), State::Resetting);
    assert_eq!(early.due(), Some(1));
}

#[test]
fn slicing_the_time_makes_no_difference() {
    let mut whole = two_contacts();
    let mut sliced = two_contacts();
    let mut t = 0;
    for step in [1u64, 998, 1, 1, 2998, 1, 7, 13, 1980, 1, 999, 1000, 1, 5] {
        t += step;
        sliced.advance(step);
        let mut at_once = two_contacts();
        at_once.advance(t);
        assert_eq!(sliced.phase(), at_once.phase());
        assert_eq!(sliced.radius(), at_once.radius());
        assert_eq!(sliced.due(), at_once.due());
        assert_eq!(ids(&sliced), ids(&at_once));
        assert_eq!(sliced.countdown_ticks(), at_once.countdown_ticks());
    }
    whole.advance(t);
    assert_eq!(whole.phase(), sliced.phase());
}

#[test]
fn the_radius_grows_then_shrinks_then_returns() {
    let mut machine = revealing();
    assert_eq!(machine.radius(), 100);
    machine.advance(19);
    assert_eq!(machine.radius(), 100);
    machine.advance(1);
    assert_eq!(machine.radius(), 110);
    machine.advance(480);
    assert_eq!(machine.radius(), 350);
    machine.advance(1500);
    assert_eq!(machine.phase(), State::Resetting);
    assert_eq!(machine.radius(), 1100);
    machine.advance(16);
    assert_eq!(machine.radius(), 1090);
    machine.advance(1983);
    assert_eq!(machine.phase(), State::Resetting);
    assert_eq!(machine.radius(), 1100 - 124 * 10);
    machine.advance(1);
    assert_eq!(machine.phase(), State::Idle);
    assert_eq!(machine.radius(), 100);
}

#[test]
fn the_radius_returns_whatever_the_steps_are() {
    for (grow_tick, grow_step, shrink_tick, shrink_step) in
        [(20, 10, 16, 10), (7, 3, 1000, 1), (1, 1, 1, 500), (2500, 9, 3, 0), (33, -4, 9, -2)]
    {
        let config = Config {
            growth: Window { tick_ms: grow_tick, step: grow_step, duration_ms: 2000 },
            shrink: Window { tick_ms: shrink_tick, step: shrink_step, duration_ms: 2000 },
            ..Config::standard(640)
        };
        let mut machine = RoundMachine::new(config).expect("the configuration is valid");
        machine.on_contact_down(1, 0, 0, "#111111".to_string());
        machine.on_contact_down(2, 0, 0, "#222222".to_string());
        machine.advance(4000);
        assert_eq!(machine.phase(), State::Revealing);
        assert_eq!(machine.radius(), 640);
        machine.advance(4000);
        assert_eq!(machine.phase(), State::Idle);
        assert_eq!(machine.radius(), 640);
    }
}

#[test]
fn the_countdown_is_shown_in_begun_ticks() {
    let mut machine = selecting();
    assert_eq!(machine.countdown_ticks(), Some(3));
    machine.advance(1);
    assert_eq!(machine.countdown_ticks(), Some(3));
    machine.advance(998);
    assert_eq!(machine.countdown_ticks(), Some(3));
    machine.advance(1);
    assert_eq!(machine.countdown_ticks(), Some(2));
    machine.advance(1000);
    assert_eq!(machine.countdown_ticks(), Some(1));
    machine.advance(999);
    assert_eq!(machine.countdown_ticks(), Some(1));
    machine.advance(1);
    assert_eq!(machine.countdown_ticks(), None);
}

#[test]
fn a_threshold_of_one_lets_a_single_contact_win() {
    let config = Config { min_contacts: 1, ..Config::standard(100) };
    let mut machine = RoundMachine::new(config).expect("the configuration is valid");
    machine.on_contact_down(5, 1, 2, "#abcdef".to_string());
    machine.advance(1000);
    assert_eq!(machine.phase(), State::Selecting);
    machine.advance(3000);
    assert_eq!(machine.phase(), State::Revealing);
    assert_eq!(ids(&machine), vec![5]);
}

#[test]
fn a_threshold_of_one_and_the_only_contact_lifting() {
    let config = Config { min_contacts: 1, ..Config::standard(100) };
    let mut machine = RoundMachine::new(config).expect("the configuration is valid");
    machine.on_contact_down(5, 1, 2, "#abcdef".to_string());
    machine.advance(1500);
    assert_eq!(machine.phase(), State::Selecting);
    machine.on_contact_up(5);
    assert_eq!(machine.phase(), State::Idle);
    assert_eq!(machine.due(), None);
    machine.advance(10_000);
    assert_eq!(machine.phase(), State::Idle);
}

#[test]
fn a_threshold_of_three_keeps_two_contacts_waiting() {
    let config = Config { min_contacts: 3, ..Config::standard(100) };
    let mut machine = RoundMachine::new(config).expect("the configuration is valid");
    machine.on_contact_down(1, 0, 0, "#111111".to_string());
    machine.on_contact_down(2, 0, 0, "#222222".to_string());
    machine.advance(5000);
    assert_eq!(machine.phase(), State::Preparing);
    machine.on_contact_down(3, 0, 0, "#333333".to_string());
    machine.advance(1000);
    assert_eq!(machine.phase(), State::Selecting);
}

#[test]
fn timers_of_no_length_fire_at_the_next_advance() {
    let config = Config {
        debounce_ms: 0,
        countdown_ms: 0,
        growth: Window { tick_ms: 1, step: 1, duration_ms: 0 },
        shrink: Window { tick_ms: 1, step: 1, duration_ms: 0 },
        ..Config::standard(100)
    };
    let mut machine = RoundMachine::new(config).expect("the configuration is valid");
    machine.on_contact_down(1, 0, 0, "#111111".to_string());
    machine.on_contact_down(2, 0, 0, "#222222".to_string());
    assert_eq!(machine.phase(), State::Preparing);
    assert_eq!(machine.due(), Some(0));
    machine.advance(0);
    assert_eq!(machine.phase(), State::Idle);
    assert!(machine.contacts().is_empty());
    assert_eq!(machine.radius(), 100);
}

#[test]
fn the_next_round_starts_from_scratch() {
    let mut machine = two_contacts();
    machine.advance(8000);
    machine.on_contact_down(1, 0, 0, "#111111".to_string());
    machine.on_contact_down(7, 0, 0, "#777777".to_string());
    assert_eq!(machine.phase(), State::Preparing);
    machine.advance(4000);
    assert_eq!(machine.phase(), State::Revealing);
    assert_eq!(machine.contacts().len(), 1);
    machine.advance(4000);
    assert_eq!(machine.phase(), State::Idle);
    assert_eq!(machine.radius(), 100);
}

#[test]
fn a_contact_without_a_color_is_given_one() {
    let mut machine = standard_machine();
    machine.on_contact_down_random_color(4, 11, 12);
    assert_eq!(machine.phase(), State::Preparing);
    let only = &machine.contacts()[0];
    assert_eq!((only.id, only.x, only.y), (4, 11, 12));
    let color: Vec<char> = only.color.chars().collect();
    assert_eq!(color.len(), 7);
    assert_eq!(color[0], '#');
    for c in &color[1..] {
        assert!(matches!(c, '0'..='9' | 'a'..='f'));
    }
}

#[test]
fn random_colors_vary() {
    let mut machine = standard_machine();
    for id in 0..40 {
        machine.on_contact_down_random_color(id, 0, 0);
    }
    let first = machine.contacts()[0].color.clone();
    assert!(machine.contacts().iter().any(|p| p.color != first));
}

#[test]
fn any_amount_of_time_is_accepted() {
    let mut machine = two_contacts();
    machine.advance(u64::MAX);
    assert_eq!(machine.phase(), State::Idle);
    assert_eq!(machine.radius(), 100);
    machine.on_contact_down(1, 0, 0, "#111111".to_string());
    machine.advance(u64::MAX);
    assert_eq!(machine.phase(), State::Preparing);
    machine.advance(u64::MAX);
    assert_eq!(machine.phase(), State::Preparing);
    assert_eq!(machine.due(), None);
}

#[test]
fn each_phase_listens_to_its_own_timer() {
    let mut machine = two_contacts();
    machine.advance(250);
    assert_eq!((machine.phase(), machine.due()), (State::Preparing, Some(750)));
    machine.advance(1000);
    assert_eq!((machine.phase(), machine.due()), (State::Selecting, Some(2750)));
    machine.advance(3000);
    assert_eq!((machine.phase(), machine.due()), (State::Revealing, Some(1750)));
    machine.advance(2000);
    assert_eq!((machine.phase(), machine.due()), (State::Resetting, Some(1750)));
    machine.advance(2000);
    assert_eq!((machine.phase(), machine.due()), (State::Idle, None));
    assert_eq!(machine.radius(), 100);
}
