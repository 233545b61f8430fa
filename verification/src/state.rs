//! The session state machine: score and streak bookkeeping, the hint
//! visibility gate, and the per-task character-matching transitions.

use vstd::prelude::*;
use crate::data::{Task, TaskView};
use crate::user::{UserInput, UserRequest};

verus! {

/// Mathematical model of a [`State`]: the session-wide counters and flags
/// together with the model of the task under test.
#[verifier::ext_equal]
pub struct StateView {
    /// Total correct guesses across the whole session.
    pub counter: nat,
    /// Consecutive correct guesses since the last incorrect guess.
    pub in_row: nat,
    /// Whether the hint for the current expected character is shown.
    pub print_hint: bool,
    /// The task under test.
    pub current_task: TaskView,
    /// Whether the last guess was incorrect (drives presentation only).
    pub last_guess_err: bool,
}

/// The effect of one correct guess: score and streak advance by one, the
/// error flag clears, and the task loses its first character.
pub open spec fn right_guess_step(s: StateView) -> StateView {
    StateView {
        counter: s.counter + 1,
        in_row: s.in_row + 1,
        last_guess_err: false,
        current_task: TaskView { text: s.current_task.text.drop_first(), ..s.current_task },
        ..s
    }
}

/// The effect of one incorrect guess: the streak resets to zero and the
/// error flag is set; the score and the task are untouched.
pub open spec fn wrong_guess_step(s: StateView) -> StateView {
    StateView { in_row: 0, last_guess_err: true, ..s }
}

/// The effect of one guess: the correct-guess transition when `correct`
/// holds, the incorrect-guess transition otherwise.
pub open spec fn guess_step(s: StateView, correct: bool) -> StateView {
    if correct {
        right_guess_step(s)
    } else {
        wrong_guess_step(s)
    }
}

/// The state after feeding a whole sequence of guesses, each entry telling
/// whether that guess was correct, in order.
pub open spec fn replay_guesses(s: StateView, guesses: Seq<bool>) -> StateView
    decreases guesses.len(),
{
    if guesses.len() == 0 {
        s
    } else {
        replay_guesses(guess_step(s, guesses[0]), guesses.drop_first())
    }
}

/// Whether a sequence of guesses is admissible from the given state: every
/// guess, correct or not, is made while the task is still in progress.
pub open spec fn valid_guess_seq(s: StateView, guesses: Seq<bool>) -> bool
    decreases guesses.len(),
{
    if guesses.len() == 0 {
        true
    } else {
        &&& s.current_task.text.len() > 0
        &&& valid_guess_seq(guess_step(s, guesses[0]), guesses.drop_first())
    }
}

/// How many guesses of a sequence are correct.
pub open spec fn count_correct(guesses: Seq<bool>) -> nat
    decreases guesses.len(),
{
    if guesses.len() == 0 {
        0
    } else {
        (if guesses[0] {
            1nat
        } else {
            0nat
        }) + count_correct(guesses.drop_first())
    }
}

/// The convergence law: however correct and incorrect guesses interleave,
/// each correct guess advances the task by exactly one character and each
/// incorrect one leaves it alone, so the text left after a run of guesses
/// is the original text minus one character per correct guess, the score
/// grows by exactly the number of correct guesses, and the task reaches
/// completion precisely when the correct guesses number the length of its
/// text.
pub proof fn lemma_task_completion(s: StateView, guesses: Seq<bool>)
    requires
        valid_guess_seq(s, guesses),
    ensures
        count_correct(guesses) <= s.current_task.text.len(),
        replay_guesses(s, guesses).current_task.text == s.current_task.text.skip(
            count_correct(guesses) as int,
        ),
        replay_guesses(s, guesses).counter == s.counter + count_correct(guesses),
        replay_guesses(s, guesses).current_task.text.len() == 0 <==> count_correct(guesses)
            == s.current_task.text.len(),
    decreases guesses.len(),
{
    if guesses.len() == 0 {
        assert(s.current_task.text.skip(0) =~= s.current_task.text);
    } else {
        let s2 = guess_step(s, guesses[0]);
        let rest = guesses.drop_first();
        lemma_task_completion(s2, rest);
        if guesses[0] {
            assert(s2.current_task.text == s.current_task.text.drop_first());
            assert(s2.current_task.text.skip(count_correct(rest) as int) =~= s.current_task.text
                .skip(count_correct(guesses) as int));
        }
    }
}

/// The session state, mutated exclusively by the transition operations
/// below; there is one per run and it is never shared.
pub struct State {
    counter: u32,
    in_row: u32,
    print_hint: bool,
    current_task: Task,
    last_guess_err: bool,
}

impl View for State {
    type V = StateView;

    closed spec fn view(&self) -> StateView {
        StateView {
            counter: self.counter as nat,
            in_row: self.in_row as nat,
            print_hint: self.print_hint,
            current_task: self.current_task@,
            last_guess_err: self.last_guess_err,
        }
    }
}

impl State {
    /// A fresh session: all counters at zero, no hint, no error, and an
    /// empty placeholder task, so no task is in progress yet.
    pub fn new() -> (s: Self)
        ensures
            s@.counter == 0,
            s@.in_row == 0,
            !s@.print_hint,
            s@.current_task.text.len() == 0,
            s@.current_task.metadata is None,
            !s@.last_guess_err,
    {
        State {
            counter: 0,
            in_row: 0,
            print_hint: false,
            current_task: Task::default(),
            last_guess_err: false,
        }
    }

    /// Replaces the task under test wholesale; counters, the hint gate and
    /// the error flag all persist across task boundaries.
    pub fn set_current_task(&mut self, next: Task)
        ensures
            final(self)@ == (StateView { current_task: next@, ..old(self)@ }),
    {
        self.current_task = next;
    }

    /// True iff the current task still has text to type. This is the sole
    /// completion signal: a task is complete when its text becomes empty.
    pub fn task_in_progress(&self) -> (r: bool)
        ensures
            r == (self@.current_task.text.len() != 0),
    {
        !self.current_task.get_task().is_empty()
    }

    /// Turns the hint gate on; idempotent.
    pub fn enable_hint(&mut self)
        ensures
            final(self)@ == (StateView { print_hint: true, ..old(self)@ }),
    {
        self.print_hint = true;
    }

    /// Turns the hint gate off; idempotent.
    pub fn disable_hint(&mut self)
        ensures
            final(self)@ == (StateView { print_hint: false, ..old(self)@ }),
    {
        self.print_hint = false;
    }

    /// One correct guess: the score and the streak each advance by one, the
    /// error flag clears, and the task advances exactly one character.
    pub fn process_right_guess(&mut self)
        requires
            old(self)@.current_task.text.len() > 0,
            old(self)@.counter < u32::MAX,
            old(self)@.in_row < u32::MAX,
        ensures
            final(self)@ == right_guess_step(old(self)@),
    {
        self.counter = self.counter + 1;
        self.in_row = self.in_row + 1;
        self.last_guess_err = false;
        self.current_task.cut_first_in_task();
        proof {
            assert(self@ =~= right_guess_step(old(self)@));
        }
    }

    /// One incorrect guess: the streak resets to zero whatever its prior
    /// value and the error flag is set; the score and the task's text are
    /// unchanged, so the same character remains expected next.
    pub fn process_incorrect_guess(&mut self)
        requires
            old(self)@.current_task.text.len() > 0,
        ensures
            final(self)@ == wrong_guess_step(old(self)@),
    {
        self.last_guess_err = true;
        self.in_row = 0;
        proof {
            assert(self@ =~= wrong_guess_step(old(self)@));
        }
    }

    /// Total correct guesses so far.
    pub fn counter(&self) -> (r: u32)
        ensures
            r as nat == self@.counter,
    {
        self.counter
    }

    /// The current streak of consecutive correct guesses.
    pub fn in_row(&self) -> (r: u32)
        ensures
            r as nat == self@.in_row,
    {
        self.in_row
    }

    /// Whether the hint for the current expected character should be shown.
    pub fn print_hint(&self) -> (r: bool)
        ensures
            r == self@.print_hint,
    {
        self.print_hint
    }

    /// The task under test.
    pub fn current_task(&self) -> (r: &Task)
        ensures
            r@ == self@.current_task,
    {
        &self.current_task
    }

    /// Whether the last guess was incorrect.
    pub fn last_guess_err(&self) -> (r: bool)
        ensures
            r == self@.last_guess_err,
    {
        self.last_guess_err
    }

    /// The first character of the current task's text: the comparison
    /// target for the next guess. Only meaningful while a task is in
    /// progress.
    pub fn get_expected_char(&self) -> (c: char)
        requires
            self@.current_task.text.len() > 0,
        ensures
            c == self@.current_task.text[0],
    {
        self.current_task.get_task().get_char(0)
    }

    /// Feeds one classified input to the session, as the outer loop does:
    /// an exit request leaves the state alone and ends the session, a hint
    /// request opens the hint gate, and a guess takes the matching
    /// transition and then closes the hint gate — a hint, once viewed, does
    /// not persist into the next keystroke. Returns whether the session
    /// goes on.
    pub fn apply_input(&mut self, input: UserInput) -> (cont: bool)
        requires
            input is Guess ==> old(self)@.current_task.text.len() > 0,
            input is Guess ==> old(self)@.counter < u32::MAX,
            input is Guess ==> old(self)@.in_row < u32::MAX,
        ensures
            (match input {
                UserInput::Request(UserRequest::Exit) => !cont && final(self)@ == old(self)@,
                UserInput::Request(UserRequest::Hint) => cont && final(self)@ == (StateView {
                    print_hint: true,
                    ..old(self)@
                }),
                UserInput::Guess { correct } => cont && final(self)@ == (StateView {
                    print_hint: false,
                    ..(if correct {
                        right_guess_step(old(self)@)
                    } else {
                        wrong_guess_step(old(self)@)
                    })
                }),
            }),
    {
        match input {
            UserInput::Request(UserRequest::Exit) => false,
            UserInput::Request(UserRequest::Hint) => {
                self.enable_hint();
                true
            }
            UserInput::Guess { correct } => {
                if correct {
                    self.process_right_guess();
                } else {
                    self.process_incorrect_guess();
                }
                self.disable_hint();
                true
            }
        }
    }
}

} // verus!
