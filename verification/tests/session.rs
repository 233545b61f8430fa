use typing_trainer::data::{lookup_hint, HintMap, Task};
use typing_trainer::queue::TaskQueue;
use typing_trainer::state::State;
use typing_trainer::user::{classify_input, Key, UserInput, UserRequest};

#[test]
fn new_session_starts_idle() {
    let state = State::new();
    assert_eq!(state.counter(), 0);
    assert_eq!(state.in_row(), 0);
    assert!(!state.print_hint());
    assert!(!state.last_guess_err());
    assert!(!state.task_in_progress());
    assert_eq!(state.current_task().get_task(), "");
    assert!(state.current_task().get_mdata().is_none());
}

#[test]
fn right_guess_advances_task() {
    let mut state = State::new();
    state.set_current_task(Task::new(String::from("slovo"), None));
    state.process_right_guess();
    assert_eq!(state.current_task().get_task(), "lovo");
    assert_eq!(state.counter(), 1);
    assert_eq!(state.in_row(), 1);
    assert!(!state.last_guess_err());
}

#[test]
fn incorrect_guess_keeps_text_and_resets_streak() {
    let mut state = State::new();
    state.set_current_task(Task::new(String::from("slovo"), None));
    state.process_right_guess();
    state.process_right_guess();
    assert_eq!(state.in_row(), 2);
    state.process_incorrect_guess();
    assert_eq!(state.current_task().get_task(), "ovo");
    assert_eq!(state.in_row(), 0);
    assert_eq!(state.counter(), 2);
    assert!(state.last_guess_err());
}

#[test]
fn completion_after_exactly_len_correct_guesses() {
    let mut state = State::new();
    state.set_current_task(Task::new(String::from("abc"), None));
    state.process_right_guess();
    state.process_incorrect_guess();
    state.process_incorrect_guess();
    assert!(state.task_in_progress());
    state.process_right_guess();
    state.process_incorrect_guess();
    assert!(state.task_in_progress());
    state.process_right_guess();
    assert!(!state.task_in_progress());
    assert_eq!(state.counter(), 3);
}

#[test]
fn expected_char_is_first_of_text() {
    let mut state = State::new();
    state.set_current_task(Task::new(String::from("ab"), None));
    assert_eq!(state.get_expected_char(), 'a');
    state.process_right_guess();
    assert_eq!(state.get_expected_char(), 'b');
}

#[test]
fn hint_gate_toggles_and_is_idempotent() {
    let mut state = State::new();
    state.enable_hint();
    assert!(state.print_hint());
    state.enable_hint();
    assert!(state.print_hint());
    state.disable_hint();
    assert!(!state.print_hint());
    state.disable_hint();
    assert!(!state.print_hint());
}

#[test]
fn counters_persist_across_task_boundaries() {
    let mut state = State::new();
    state.set_current_task(Task::new(String::from("xy"), None));
    state.process_right_guess();
    state.process_right_guess();
    state.set_current_task(Task::new(String::from("z"), None));
    assert_eq!(state.counter(), 2);
    assert_eq!(state.in_row(), 2);
    assert_eq!(state.current_task().get_task(), "z");
}

#[test]
fn classify_escape_and_backspace() {
    assert!(matches!(
        classify_input(Key::Esc, 'a'),
        UserInput::Request(UserRequest::Exit)
    ));
    assert!(matches!(
        classify_input(Key::Backspace, 'a'),
        UserInput::Request(UserRequest::Hint)
    ));
}

#[test]
fn classify_guess_is_case_insensitive() {
    assert!(matches!(
        classify_input(Key::Char('Д'), 'д'),
        UserInput::Guess { correct: true }
    ));
    assert!(matches!(
        classify_input(Key::Char('д'), 'д'),
        UserInput::Guess { correct: true }
    ));
    assert!(matches!(
        classify_input(Key::Char('x'), 'д'),
        UserInput::Guess { correct: false }
    ));
    assert!(matches!(
        classify_input(Key::Other, 'д'),
        UserInput::Guess { correct: false }
    ));
}

#[test]
fn full_session_scenario() {
    let dataset = vec![Task::new(String::from("да"), None)];
    let hints = HintMap::new()
        .insert('д', String::from("letter d"))
        .insert('а', String::from("letter a"));

    let mut queue = TaskQueue::new(&dataset);
    let mut state = State::new();

    assert!(!queue.is_empty());
    let task = queue.draw_random();
    assert!(queue.is_empty());
    state.set_current_task(task);
    assert!(state.task_in_progress());

    // Backspace: hint request for the expected character.
    let input = classify_input(Key::Backspace, state.get_expected_char());
    assert!(state.apply_input(input));
    assert!(state.print_hint());
    assert_eq!(lookup_hint(&hints, state.get_expected_char()), "letter d");

    // A wrong key: an incorrect guess, clearing the hint gate.
    let input = classify_input(Key::Char('x'), state.get_expected_char());
    assert!(matches!(input, UserInput::Guess { correct: false }));
    assert!(state.apply_input(input));
    assert!(!state.print_hint());
    assert!(state.last_guess_err());
    assert_eq!(state.in_row(), 0);
    assert_eq!(state.counter(), 0);

    // The right character.
    let input = classify_input(Key::Char('д'), state.get_expected_char());
    assert!(matches!(input, UserInput::Guess { correct: true }));
    assert!(state.apply_input(input));
    assert_eq!(state.counter(), 1);
    assert_eq!(state.in_row(), 1);
    assert!(state.task_in_progress());

    // Another hint, then the last character.
    let input = classify_input(Key::Backspace, state.get_expected_char());
    assert!(state.apply_input(input));
    assert_eq!(lookup_hint(&hints, state.get_expected_char()), "letter a");
    let input = classify_input(Key::Char('а'), state.get_expected_char());
    assert!(state.apply_input(input));

    assert_eq!(state.counter(), 2);
    assert_eq!(state.in_row(), 2);
    assert!(!state.task_in_progress());
}

#[test]
fn exit_request_ends_session_without_changes() {
    let mut state = State::new();
    state.set_current_task(Task::new(String::from("ab"), None));
    let input = classify_input(Key::Esc, state.get_expected_char());
    assert!(!state.apply_input(input));
    assert_eq!(state.counter(), 0);
    assert_eq!(state.current_task().get_task(), "ab");
}
