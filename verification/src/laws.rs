//! What holds of every match, whatever is typed.

use vstd::prelude::*;
use crate::config::Config;
use crate::engine::{record_of, GameModel, SEED};
use crate::input::{key_of, turned, Key, Poll, ESC};
use crate::outcome::{Action, Ending};

verus! {

/// The state after the polls `events` were taken in one after the other, and
/// what the last of them asked for. Once a poll has finished the match, the
/// polls after it change nothing.
pub open spec fn played(start: GameModel, events: Seq<Poll>) -> (GameModel, Action)
    decreases events.len(),
{
    if events.len() == 0 {
        (start, Action::Poll)
    } else {
        let (state, action) = played(start, events.drop_last());
        if action is Finish {
            (state, action)
        } else {
            state.advanced(events.last())
        }
    }
}

/// The two states hold the same match: they differ at most in the colour
/// that the snake is painted in.
pub open spec fn same_match(a: GameModel, b: GameModel) -> bool {
    a == GameModel { colour: a.colour, ..b }
}

/// What holds of a state while the match is played holds again after every
/// move that does not finish the match; and after every move, finishing or
/// not, the snake is no longer than the length it may grow to and the pellet
/// lies off the snake.
pub proof fn step_keeps_invariant(state: GameModel)
    requires
        state.wf(),
    ensures
        !(state.stepped().1 is Finish) ==> state.stepped().0.wf(),
        state.stepped().0.snake.len() <= state.stepped().0.snake_length,
        !state.stepped().0.snake.contains(state.stepped().0.pellet),
{
    state.lemma_step_keeps_wf();
}

/// The same holds of every poll of the input, whatever it brings.
pub proof fn advance_keeps_invariant(state: GameModel, event: Poll)
    requires
        state.wf(),
    ensures
        !(state.advanced(event).1 is Finish) ==> state.advanced(event).0.wf(),
        state.advanced(event).0.snake.len() <= state.advanced(event).0.snake_length,
        !state.advanced(event).0.snake.contains(state.advanced(event).0.pellet),
{
    let record = record_of(event);
    let key = key_of(record[0], record[1], record[2]);
    step_keeps_invariant(GameModel { paused: false, ..state });
    step_keeps_invariant(GameModel { dir: turned(state.dir, key), ..state.stirred(record) });
}

/// In every state that a match can reach from a well-formed start, the snake
/// is no longer than the length it may grow to and the pellet lies off the
/// snake; and as long as the match is not finished, the state is well-formed.
pub proof fn reachable_states_are_sound(start: GameModel, events: Seq<Poll>)
    requires
        start.wf(),
    ensures
        played(start, events).0.snake.len() <= played(start, events).0.snake_length,
        !played(start, events).0.snake.contains(played(start, events).0.pellet),
        !(played(start, events).1 is Finish) ==> played(start, events).0.wf(),
    decreases events.len(),
{
    if events.len() > 0 {
        reachable_states_are_sound(start, events.drop_last());
        let (state, action) = played(start, events.drop_last());
        if !(action is Finish) {
            advance_keeps_invariant(state, events.last());
        }
    }
}

/// A match starts in a state from which all of the above holds.
pub proof fn initial_state_is_sound(config: Config, events: Seq<Poll>)
    requires
        config.playable(),
    ensures
        GameModel::initial(config).wf(),
        played(GameModel::initial(config), events).0.snake.len() <= played(
            GameModel::initial(config),
            events,
        ).0.snake_length,
        !played(GameModel::initial(config), events).0.snake.contains(
            played(GameModel::initial(config), events).0.pellet,
        ),
{
    let start = GameModel::initial(config);
    let first = crate::prng::mix(SEED);
    let second = crate::prng::mix(first);
    let across = (config.width - 1) as u32;
    let down = (config.height - 1) as u32;
    assert(config.width <= config.width * config.height) by (nonlinear_arith)
        requires
            1 <= config.height,
    ;
    assert(config.height <= config.width * config.height) by (nonlinear_arith)
        requires
            1 <= config.width,
    ;
    assert(first & across <= across) by (bit_vector);
    assert(second & down <= down) by (bit_vector);
    reachable_states_are_sound(start, events);
}

/// The score counts the pellets eaten: score and length grow together, by one
/// with each pellet taken and not at all otherwise.
pub proof fn score_counts_growth(state: GameModel, event: Poll)
    requires
        state.wf(),
    ensures
        state.advanced(event).0.snake_length - state.advanced(event).0.score == state.snake_length
            - state.score,
        state.score <= state.advanced(event).0.score <= state.score + 1,
{
}

/// One move of two states that hold the same match gives two states that
/// hold the same match, and asks for the same action.
pub proof fn step_is_deterministic(a: GameModel, b: GameModel)
    requires
        same_match(a, b),
    ensures
        same_match(a.stepped().0, b.stepped().0),
        a.stepped().1 == b.stepped().1,
{
}

/// Two runs that start from the same seed, snake and pellet and are fed the
/// same keypress records pass through the same snake positions and pellet
/// placements, poll after poll, in whatever colour each is painted.
pub proof fn runs_are_deterministic(a: GameModel, b: GameModel, events: Seq<Poll>)
    requires
        same_match(a, b),
    ensures
        same_match(played(a, events).0, played(b, events).0),
        played(a, events).1 == played(b, events).1,
        forall|n: int|
            0 <= n <= events.len() ==> same_match(
                #[trigger] played(a, events.take(n)).0,
                played(b, events.take(n)).0,
            ),
    decreases events.len(),
{
    if events.len() > 0 {
        runs_are_deterministic(a, b, events.drop_last());
        let (before_a, action_a) = played(a, events.drop_last());
        let (before_b, action_b) = played(b, events.drop_last());
        if !(action_a is Finish) {
            advance_is_deterministic(before_a, before_b, events.last());
        }
        assert forall|n: int| 0 <= n <= events.len() implies same_match(
            #[trigger] played(a, events.take(n)).0,
            played(b, events.take(n)).0,
        ) by {
            if n == events.len() {
                assert(events.take(n) =~= events);
            } else {
                assert(events.take(n) =~= events.drop_last().take(n));
            }
        }
    } else {
        assert forall|n: int| 0 <= n <= events.len() implies same_match(
            #[trigger] played(a, events.take(n)).0,
            played(b, events.take(n)).0,
        ) by {
            assert(events.take(n) =~= events);
        }
    }
}

/// One poll taken in by two states that hold the same match gives two states
/// that hold the same match, and asks for the same action.
pub proof fn advance_is_deterministic(a: GameModel, b: GameModel, event: Poll)
    requires
        same_match(a, b),
    ensures
        same_match(a.advanced(event).0, b.advanced(event).0),
        a.advanced(event).1 == b.advanced(event).1,
{
    let record = record_of(event);
    let key = key_of(record[0], record[1], record[2]);
    step_is_deterministic(GameModel { paused: false, ..a }, GameModel { paused: false, ..b });
    step_is_deterministic(
        GameModel { dir: turned(a.dir, key), ..a.stirred(record) },
        GameModel { dir: turned(b.dir, key), ..b.stirred(record) },
    );
}

/// A move is won exactly when the head takes the pellet without running into
/// the snake and the snake's length thereby reaches the number of cells. A
/// won move neither moves the snake nor looks for a cell for a new pellet:
/// snake, pellet and seed stay as they were. A move that goes on leaves the
/// length below the number of cells, so that a free cell exists.
pub proof fn winning_comes_before_respawn(state: GameModel)
    requires
        state.wf(),
    ensures
        state.stepped().1 == Action::Finish(Ending::Won) <==> (!state.collides() && state.captures()
            && state.snake_length + 1 == state.cells()),
        state.stepped().1 == Action::Finish(Ending::Won) ==> {
            &&& state.stepped().0.snake_length == state.cells()
            &&& state.stepped().0.snake == state.snake
            &&& state.stepped().0.pellet == state.pellet
            &&& state.stepped().0.seed == state.seed
            &&& state.stepped().0.score == state.score + 1
        },
        state.stepped().1 == Action::Sleep ==> {
            &&& state.stepped().0.snake_length < state.cells()
            &&& state.stepped().0.snake.len() < state.cells()
        },
        state.stepped().1 == Action::Finish(Ending::Lost) <==> state.collides(),
        state.stepped().1 != Action::Poll,
        state.stepped().1 != Action::Finish(Ending::Quit),
        state.stepped().1 != Action::Finish(Ending::InputLost),
{
    state.lemma_step_keeps_wf();
}

/// A tick heads where the key says: the direction after a tick is the old one
/// turned by the key, so an arrow that points straight back changes nothing
/// and any other arrow is obeyed.
pub proof fn tick_turns_by_the_key(state: GameModel, record: [u8; 3])
    requires
        !state.paused,
        key_of(record@[0], record@[1], record@[2]) is Arrow,
    ensures
        state.advanced(Poll::Record(record)).0.dir == turned(
            state.dir,
            key_of(record@[0], record@[1], record@[2]),
        ),
        key_of(record@[0], record@[1], record@[2]) == Key::Arrow(state.dir.reversed())
            ==> state.advanced(Poll::Record(record)).0.dir == state.dir,
        key_of(record@[0], record@[1], record@[2]) != Key::Arrow(state.dir.reversed())
            ==> Key::Arrow(state.advanced(Poll::Record(record)).0.dir) == key_of(
            record@[0],
            record@[1],
            record@[2],
        ),
{
}

/// Two ticks on the same arrow head where one tick on it does.
pub proof fn same_key_twice_keeps_direction(state: GameModel, record: [u8; 3])
    requires
        !state.paused,
        key_of(record@[0], record@[1], record@[2]) is Arrow,
    ensures
        state.advanced(Poll::Record(record)).0.advanced(Poll::Record(record)).0.dir
            == state.advanced(Poll::Record(record)).0.dir,
{
    let key = key_of(record@[0], record@[1], record@[2]);
    crate::input::turning_is_idempotent(state.dir, key);
}

/// After a move that goes on, the cell behind the head, seen against the
/// direction of travel, is the snake's second cell: the head has just come
/// from there.
pub proof fn neck_lies_behind_the_head(state: GameModel)
    requires
        state.wf(),
        state.stepped().1 == Action::Sleep,
        state.stepped().0.snake.len() >= 2,
    ensures
        state.stepped().0.snake[1] == state.stepped().0.dir.reversed().stepped(
            state.stepped().0.pos,
            state.width,
            state.height,
        ),
{
    state.lemma_step_keeps_wf();
    state.lemma_pushed();
    let next = state.stepped().0;
    assert(next.snake[1] == state.pushed()[1]);
    assert(state.pushed()[1] == state.snake[0]);
    crate::grid::stepping_back_returns(state.dir, state.pos, state.width, state.height);
}

/// Rejecting reversals keeps the snake off its own neck: on a board at least
/// three cells wide and high, whatever key is pressed, the next head is not
/// the cell that the head has just come from.
pub proof fn turning_never_hits_the_neck(state: GameModel, key: Key)
    requires
        state.pos.within(state.width, state.height),
        state.width >= 3,
        state.height >= 3,
    ensures
        turned(state.dir, key).stepped(state.pos, state.width, state.height)
            != state.dir.reversed().stepped(state.pos, state.width, state.height),
{
}

/// Escape alone quits at any tick, paused or not, whatever the record's
/// third byte, and the process then leaves with status zero.
pub proof fn escape_quits(state: GameModel, record: [u8; 3])
    requires
        record@[0] == ESC,
        record@[1] == 0,
    ensures
        key_of(record@[0], record@[1], record@[2]) == Key::Quit,
        state.advanced(Poll::Record(record)).1 == Action::Finish(Ending::Quit),
        Ending::Quit.status() == 0,
{
}

/// A lost reader ends the match at any tick and changes nothing.
pub proof fn disconnection_is_fatal(state: GameModel)
    ensures
        state.advanced(Poll::Disconnected) == (state, Action::Finish(Ending::InputLost)),
{
}

/// While the match is paused nothing moves: whatever is polled, the snake,
/// the pellet, the score and the seed stay as they were unless the key
/// resumes the match.
pub proof fn pause_holds_the_snake(state: GameModel, event: Poll)
    requires
        state.paused,
    ensures
        ({
            let record = record_of(event);
            let key = key_of(record[0], record[1], record[2]);
            event == Poll::Disconnected || key == Key::Idle || key == Key::Quit || key
                == Key::Redraw
        }) ==> state.advanced(event).0 == state,
        event == Poll::Empty ==> state.advanced(event) == (state, Action::Poll),
{
    if event == Poll::Empty {
        let record = record_of(event);
        assert(record[0] == 0 && record[1] == 0 && record[2] == 0);
    }
}

/// A key that resumes a paused match is not taken as a turn: the move that
/// follows goes in the direction held before.
pub proof fn resuming_key_is_discarded(state: GameModel, record: [u8; 3])
    requires
        state.paused,
        key_of(record@[0], record@[1], record@[2]) != Key::Idle,
        key_of(record@[0], record@[1], record@[2]) != Key::Quit,
        key_of(record@[0], record@[1], record@[2]) != Key::Redraw,
    ensures
        state.advanced(Poll::Record(record)).0.dir == state.dir,
        state.advanced(Poll::Record(record)).0.pos == state.dir.stepped(
            state.pos,
            state.width,
            state.height,
        ),
        !state.advanced(Poll::Record(record)).0.paused,
{
}

} // verus!
