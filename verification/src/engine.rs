//! The tick-driven state machine of the game.

use vstd::prelude::*;
use std::collections::VecDeque;
use crate::config::Config;
use crate::display::{advance_shows_the_state, redraw_shows_the_state, step_shows_the_state};
use crate::grid::{Cell, Direction};
use crate::input::{key_of, turned, Key, Poll};
use crate::outcome::{Action, Ending};
use crate::pellet::{find_free_cell, free_cell_from, occupies, search_finds_the_first_free_cell};
use crate::prng::{fold_entropy, folded, mix, rand};
use crate::surface::{cleared, painted, painted_each, Renderer, BLANK};

verus! {

/// The seed that every match starts from.
pub const SEED: u32 = 0xDEAD_BEEF;

/// The pellet's colour for a snake of colour `colour`: its complement, kept
/// from being too dark.
pub open spec fn pellet_tint(colour: u32) -> u32 {
    !colour | 0x3F_3F_3F
}

/// Computes the pellet's colour for a snake of colour `colour`.
pub fn pellet_colour(colour: u32) -> (c: u32)
    ensures
        c == pellet_tint(colour),
{
    !colour | 0x3F_3F_3F
}

/// The record that a poll stands for: an empty poll counts as three zero
/// bytes.
pub open spec fn record_of(event: Poll) -> Seq<u8> {
    match event {
        Poll::Record(r) => r@,
        _ => seq![0u8, 0u8, 0u8],
    }
}

/// The state of a match as plain values.
pub struct GameModel {
    pub colour: u32,
    pub width: usize,
    pub height: usize,
    pub dir: Direction,
    pub pos: Cell,
    pub snake: Seq<Cell>,
    pub snake_length: nat,
    pub pellet: Cell,
    pub score: nat,
    pub seed: u32,
    pub paused: bool,
}

impl GameModel {
    /// The number of cells on the board.
    pub open spec fn cells(self) -> int {
        self.width * self.height
    }

    /// What holds of the state while a match is being played.
    pub open spec fn wf(self) -> bool {
        &&& self.cells() <= u32::MAX
        &&& self.pos.within(self.width, self.height)
        &&& self.pellet.within(self.width, self.height)
        &&& forall|j: int|
            0 <= j < self.snake.len() ==> (#[trigger] self.snake[j]).within(self.width, self.height)
        &&& self.snake.no_duplicates()
        &&& self.snake.len() > 0 ==> self.snake[0] == self.pos
        &&& self.snake.len() <= self.snake_length
        &&& self.snake_length < self.cells()
        &&& !self.snake.contains(self.pellet)
        &&& self.score <= self.snake_length
    }

    /// The state that a match with parameters `config` starts in.
    pub open spec fn initial(config: Config) -> GameModel {
        let first = mix(SEED);
        let second = mix(first);
        GameModel {
            colour: config.colour,
            width: config.width,
            height: config.height,
            dir: Direction::Right,
            pos: Cell { x: config.width / 2, y: config.height / 2 },
            snake: Seq::empty(),
            snake_length: config.length as nat,
            pellet: Cell {
                x: (first & ((config.width - 1) as u32)) as usize,
                y: (second & ((config.height - 1) as u32)) as usize,
            },
            score: 0,
            seed: second,
            paused: false,
        }
    }

    /// The cell that the head moves to next.
    pub open spec fn next_head(self) -> Cell {
        self.dir.stepped(self.pos, self.width, self.height)
    }

    /// The next move runs into the snake.
    pub open spec fn collides(self) -> bool {
        self.snake.contains(self.next_head())
    }

    /// The next move takes the pellet.
    pub open spec fn captures(self) -> bool {
        self.next_head() == self.pellet
    }

    /// The length that the snake may have after the next move.
    pub open spec fn grown_length(self) -> nat {
        if self.captures() {
            self.snake_length + 1
        } else {
            self.snake_length
        }
    }

    /// The score after the next move.
    pub open spec fn grown_score(self) -> nat {
        if self.captures() {
            self.score + 1
        } else {
            self.score
        }
    }

    /// The snake with its new head, before the tail is trimmed.
    pub open spec fn pushed(self) -> Seq<Cell> {
        seq![self.next_head()] + self.snake
    }

    /// The next move drops the tail cell.
    pub open spec fn trims(self) -> bool {
        self.pushed().len() > self.grown_length()
    }

    /// The snake after the next move.
    pub open spec fn moved_snake(self) -> Seq<Cell> {
        if self.trims() {
            self.pushed().drop_last()
        } else {
            self.pushed()
        }
    }

    /// Where the search for a new pellet cell starts after a capture.
    pub open spec fn respawn_start(self) -> int {
        (mix(self.seed) & ((self.cells() - self.grown_length()) as u32)) as int
    }

    /// The pellet's cell after a capture.
    pub open spec fn respawned(self) -> Cell {
        free_cell_from(self.moved_snake(), self.width, self.height, self.respawn_start())
    }

    /// One move of the snake: the new state and what to do next. The move is
    /// lost where the head runs into the snake, won where the snake has
    /// grown to fill the board, and otherwise goes on.
    pub open spec fn stepped(self) -> (GameModel, Action) {
        if self.collides() {
            (GameModel { pos: self.next_head(), ..self }, Action::Finish(Ending::Lost))
        } else if self.grown_length() == self.cells() {
            (
                GameModel {
                    pos: self.next_head(),
                    snake_length: self.grown_length(),
                    score: self.grown_score(),
                    ..self
                },
                Action::Finish(Ending::Won),
            )
        } else if self.captures() {
            (
                GameModel {
                    pos: self.next_head(),
                    snake: self.moved_snake(),
                    snake_length: self.grown_length(),
                    score: self.grown_score(),
                    pellet: self.respawned(),
                    seed: mix(self.seed),
                    ..self
                },
                Action::Sleep,
            )
        } else {
            (GameModel { pos: self.next_head(), snake: self.moved_snake(), ..self }, Action::Sleep)
        }
    }

    /// The surface after one move: the new head painted, then the dropped
    /// tail erased, then a new pellet painted.
    pub open spec fn stepped_pixels(self, pixels: Seq<u32>, xres: usize, scale: usize) -> Seq<u32> {
        let head = painted(pixels, xres, scale, self.next_head(), self.colour);
        if self.collides() || self.grown_length() == self.cells() {
            head
        } else {
            let trimmed = if self.trims() {
                painted(head, xres, scale, self.pushed().last(), BLANK)
            } else {
                head
            };
            if self.captures() {
                painted(trimmed, xres, scale, self.respawned(), pellet_tint(self.colour))
            } else {
                trimmed
            }
        }
    }

    /// The surface after a repaint: the play area cleared, then the snake,
    /// then the pellet.
    pub open spec fn redrawn_pixels(self, pixels: Seq<u32>, xres: usize, scale: usize) -> Seq<u32> {
        painted(
            painted_each(
                cleared(pixels, xres, scale, self.width, self.height),
                xres,
                scale,
                self.snake,
                self.colour,
            ),
            xres,
            scale,
            self.pellet,
            pellet_tint(self.colour),
        )
    }

    /// The state with the first byte of `record` mixed into the seed.
    pub open spec fn stirred(self, record: Seq<u8>) -> GameModel {
        GameModel { seed: folded(self.seed, record[0]), ..self }
    }

    /// One poll of the input taken in: the new state and what to do next.
    pub open spec fn advanced(self, event: Poll) -> (GameModel, Action) {
        let record = record_of(event);
        let key = key_of(record[0], record[1], record[2]);
        if event == Poll::Disconnected {
            (self, Action::Finish(Ending::InputLost))
        } else if self.paused {
            match key {
                Key::Idle => (self, Action::Poll),
                Key::Quit => (self, Action::Finish(Ending::Quit)),
                Key::Redraw => (self, Action::Poll),
                _ => GameModel { paused: false, ..self }.stepped(),
            }
        } else {
            match key {
                Key::Quit => (self.stirred(record), Action::Finish(Ending::Quit)),
                Key::Pause => (GameModel { paused: true, ..self.stirred(record) }, Action::Poll),
                _ => GameModel { dir: turned(self.dir, key), ..self.stirred(record) }.stepped(),
            }
        }
    }

    /// The surface after one poll of the input was taken in.
    pub open spec fn advanced_pixels(self, event: Poll, pixels: Seq<u32>, xres: usize, scale: usize) -> Seq<
        u32,
    > {
        let record = record_of(event);
        let key = key_of(record[0], record[1], record[2]);
        if event == Poll::Disconnected {
            pixels
        } else if self.paused {
            match key {
                Key::Idle => pixels,
                Key::Quit => pixels,
                Key::Redraw => self.redrawn_pixels(pixels, xres, scale),
                _ => GameModel { paused: false, ..self }.stepped_pixels(pixels, xres, scale),
            }
        } else {
            match key {
                Key::Quit => pixels,
                Key::Pause => pixels,
                _ => GameModel { dir: turned(self.dir, key), ..self.stirred(record) }.stepped_pixels(
                    pixels,
                    xres,
                    scale,
                ),
            }
        }
    }
}

impl GameModel {
    /// In a well-formed state the snake with its new head has no cell twice
    /// and lies on the board, unless the move is lost.
    pub proof fn lemma_pushed(self)
        requires
            self.wf(),
            !self.collides(),
        ensures
            self.pushed().no_duplicates(),
            self.moved_snake().no_duplicates(),
            forall|j: int|
                0 <= j < self.pushed().len() ==> (#[trigger] self.pushed()[j]).within(
                    self.width,
                    self.height,
                ),
            forall|j: int|
                0 <= j < self.moved_snake().len() ==> #[trigger] self.moved_snake()[j]
                    == self.pushed()[j],
            forall|c: Cell|
                self.pushed().contains(c) <==> (c == self.next_head() || self.snake.contains(c)),
            forall|c: Cell| self.moved_snake().contains(c) ==> self.pushed().contains(c),
            self.moved_snake().len() <= self.grown_length(),
    {
        let pushed = self.pushed();
        assert forall|j: int| 0 <= j < pushed.len() implies (#[trigger] pushed[j]).within(
            self.width,
            self.height,
        ) by {
            if j > 0 {
                assert(pushed[j] == self.snake[j - 1]);
            }
        }
        assert forall|i: int, j: int| 0 <= i < pushed.len() && 0 <= j < pushed.len() && i != j implies pushed[i]
            != pushed[j] by {
            if i > 0 {
                assert(pushed[i] == self.snake[i - 1]);
            }
            if j > 0 {
                assert(pushed[j] == self.snake[j - 1]);
            }
        }
        assert forall|c: Cell| pushed.contains(c) implies c == self.next_head()
            || self.snake.contains(c) by {
            let j = choose|j: int| 0 <= j < pushed.len() && pushed[j] == c;
            if j > 0 {
                assert(self.snake[j - 1] == c);
            }
        }
        assert forall|c: Cell| c == self.next_head() || self.snake.contains(c) implies pushed.contains(
            c,
        ) by {
            if c == self.next_head() {
                assert(pushed[0] == c);
            } else {
                let j = choose|j: int| 0 <= j < self.snake.len() && self.snake[j] == c;
                assert(pushed[j + 1] == c);
            }
        }
        assert forall|c: Cell| self.moved_snake().contains(c) implies pushed.contains(c) by {
            let j = choose|j: int| 0 <= j < self.moved_snake().len() && self.moved_snake()[j] == c;
            assert(pushed[j] == c);
        }
    }

    /// After a capture that does not end the match, the new pellet lies on a
    /// free cell of the board.
    pub proof fn lemma_respawn(self)
        requires
            self.wf(),
            !self.collides(),
            self.captures(),
            self.grown_length() < self.cells(),
        ensures
            0 <= self.respawn_start() < self.cells(),
            self.respawned().within(self.width, self.height),
            !self.moved_snake().contains(self.respawned()),
    {
        self.lemma_pushed();
        let mask = (self.cells() - self.grown_length()) as u32;
        let seed = mix(self.seed);
        assert(seed & mask <= mask) by (bit_vector);
        search_finds_the_first_free_cell(
            self.moved_snake(),
            self.width,
            self.height,
            self.respawn_start(),
        );
    }

    /// A move keeps what holds of the state, unless it ends the match.
    pub proof fn lemma_step_keeps_wf(self)
        requires
            self.wf(),
        ensures
            !(self.stepped().1 is Finish) ==> self.stepped().0.wf(),
            self.next_head().within(self.width, self.height),
            !self.collides() ==> self.grown_length() <= self.cells(),
            !self.collides() && self.captures() && self.grown_length() < self.cells() ==> 0
                <= self.respawn_start() < self.cells(),
    {
        if !self.collides() {
            self.lemma_pushed();
            if self.grown_length() < self.cells() {
                let next = self.stepped().0;
                if self.captures() {
                    self.lemma_respawn();
                } else {
                    assert(!self.pushed().contains(self.pellet));
                }
                assert(next.snake.len() > 0 ==> next.snake[0] == self.pushed()[0]);
            }
        }
    }
}

/// The state of a match.
#[derive(Debug, PartialEq, Eq)]
pub struct GameState {
    /// The snake's colour.
    pub colour: u32,
    /// Board width in cells.
    pub width: usize,
    /// Board height in cells.
    pub height: usize,
    /// The direction of travel.
    pub dir: Direction,
    /// The head's cell.
    pub pos: Cell,
    /// The cells of the snake, head first.
    pub snake: VecDeque<Cell>,
    /// The length that the snake may grow to.
    pub snake_length: usize,
    /// The pellet's cell.
    pub pellet: Cell,
    /// Pellets eaten.
    pub score: usize,
    /// The state of the random number generator.
    pub seed: u32,
    /// The match is paused.
    pub paused: bool,
}

impl View for GameState {
    type V = GameModel;

    open spec fn view(&self) -> GameModel {
        GameModel {
            colour: self.colour,
            width: self.width,
            height: self.height,
            dir: self.dir,
            pos: self.pos,
            snake: self.snake@,
            snake_length: self.snake_length as nat,
            pellet: self.pellet,
            score: self.score as nat,
            seed: self.seed,
            paused: self.paused,
        }
    }
}

impl Clone for GameState {
    fn clone(&self) -> (copy: Self)
        ensures
            copy@ == self@,
    {
        let snake = self.snake.clone();
        assert(snake@ =~= self.snake@);
        GameState {
            colour: self.colour,
            width: self.width,
            height: self.height,
            dir: self.dir,
            pos: self.pos,
            snake,
            snake_length: self.snake_length,
            pellet: self.pellet,
            score: self.score,
            seed: self.seed,
            paused: self.paused,
        }
    }
}

impl GameState {
    /// Starts a match: the snake has no cells yet, its head is due at the
    /// middle of the board heading right, and the pellet lies where the
    /// first two random numbers put it.
    pub fn new(config: &Config) -> (game: GameState)
        requires
            config.playable(),
        ensures
            game@ == GameModel::initial(*config),
            game@.wf(),
    {
        let mut seed: u32 = SEED;
        let x: u32 = rand((config.width - 1) as u32, &mut seed);
        let y: u32 = rand((config.height - 1) as u32, &mut seed);
        proof {
            assert(config.width <= config.width * config.height) by (nonlinear_arith)
                requires
                    1 <= config.height,
            ;
            assert(config.height <= config.width * config.height) by (nonlinear_arith)
                requires
                    1 <= config.width,
            ;
        }
        GameState {
            colour: config.colour,
            width: config.width,
            height: config.height,
            dir: Direction::Right,
            pos: Cell { x: config.width / 2, y: config.height / 2 },
            snake: VecDeque::new(),
            snake_length: config.length,
            pellet: Cell { x: x as usize, y: y as usize },
            score: 0,
            seed,
            paused: false,
        }
    }

    /// Repaints the board: clears the play area, then paints the snake and
    /// the pellet.
    pub fn redraw(&self, screen: &mut Renderer)
        requires
            self@.wf(),
            old(screen).wf(),
            old(screen).fits(self.width, self.height),
        ensures
            final(screen).pixels@ == self@.redrawn_pixels(
                old(screen).pixels@,
                old(screen).xres,
                old(screen).scale,
            ),
            final(screen).same_geometry(old(screen)),
            final(screen).wf(),
            self@.shown_on(final(screen).pixels@, final(screen).xres, final(screen).scale),
    {
        proof {
            redraw_shows_the_state(self@, screen.pixels@, screen.xres, screen.scale);
        }
        screen.clear(self.width, self.height);
        proof {
            assert forall|j: int| 0 <= j < self.snake@.len() implies screen.holds(
                #[trigger] self.snake@[j],
            ) by {
                screen.lemma_fits_holds(self.width, self.height, self.snake@[j]);
            }
            screen.lemma_fits_holds(self.width, self.height, self.pellet);
        }
        screen.fill_cells(&self.snake, self.colour);
        screen.fill_cell(self.pellet, pellet_colour(self.colour));
    }

    /// Moves the snake one cell in its direction of travel and paints what
    /// changed.
    pub fn step(&mut self, screen: &mut Renderer) -> (action: Action)
        requires
            old(self)@.wf(),
            old(screen).wf(),
            old(screen).fits(old(self).width, old(self).height),
        ensures
            (final(self)@, action) == old(self)@.stepped(),
            final(screen).pixels@ == old(self)@.stepped_pixels(
                old(screen).pixels@,
                old(screen).xres,
                old(screen).scale,
            ),
            final(screen).same_geometry(old(screen)),
            final(screen).wf(),
            !(action is Finish) ==> final(self)@.wf(),
            !(action is Finish) && old(self)@.shown_on(
                old(screen).pixels@,
                old(screen).xres,
                old(screen).scale,
            ) ==> final(self)@.shown_on(final(screen).pixels@, final(screen).xres, final(screen).scale),
    {
        let ghost before = self@;
        proof {
            before.lemma_step_keeps_wf();
            if before.stepped().1 == Action::Sleep && before.shown_on(
                screen.pixels@,
                screen.xres,
                screen.scale,
            ) {
                step_shows_the_state(before, screen.pixels@, screen.xres, screen.scale);
            }
        }
        let dir = self.dir;
        dir.step(&mut self.pos, self.width, self.height);
        let head = self.pos;
        proof {
            screen.lemma_fits_holds(self.width, self.height, head);
        }
        screen.fill_cell(head, self.colour);
        if occupies(&self.snake, head) {
            return Action::Finish(Ending::Lost);
        }
        let captured = head == self.pellet;
        if captured {
            self.snake_length += 1;
            self.score += 1;
        }
        if self.snake_length == self.width * self.height {
            return Action::Finish(Ending::Won);
        }
        self.snake.push_front(head);
        assert(self.snake@ =~= before.pushed());
        if self.snake.len() > self.snake_length {
            let dropped = self.snake.pop_back();
            if let Some(tail) = dropped {
                proof {
                    screen.lemma_fits_holds(self.width, self.height, tail);
                }
                screen.fill_cell(tail, BLANK);
            }
        }
        assert(self.snake@ =~= before.moved_snake());
        if captured {
            let cells: usize = self.width * self.height;
            let start: u32 = rand((cells - self.snake_length) as u32, &mut self.seed);
            self.pellet = find_free_cell(&self.snake, self.width, self.height, start as usize);
            proof {
                screen.lemma_fits_holds(self.width, self.height, self.pellet);
            }
            screen.fill_cell(self.pellet, pellet_colour(self.colour));
        }
        Action::Sleep
    }

    /// Takes in one poll of the input. While the match runs this is one
    /// tick: the keypress is mixed into the seed, then it quits, pauses, or
    /// turns and moves the snake. While the match is paused nothing moves: an
    /// idle poll waits on, escape quits, `r` repaints the board, and any other
    /// key resumes the move that the pause held up.
    pub fn advance(&mut self, screen: &mut Renderer, event: Poll) -> (action: Action)
        requires
            old(self)@.wf(),
            old(screen).wf(),
            old(screen).fits(old(self).width, old(self).height),
        ensures
            (final(self)@, action) == old(self)@.advanced(event),
            final(screen).pixels@ == old(self)@.advanced_pixels(
                event,
                old(screen).pixels@,
                old(screen).xres,
                old(screen).scale,
            ),
            final(screen).same_geometry(old(screen)),
            final(screen).wf(),
            !(action is Finish) ==> final(self)@.wf(),
            !(action is Finish) && old(self)@.shown_on(
                old(screen).pixels@,
                old(screen).xres,
                old(screen).scale,
            ) ==> final(self)@.shown_on(final(screen).pixels@, final(screen).xres, final(screen).scale),
    {
        proof {
            if self@.shown_on(screen.pixels@, screen.xres, screen.scale) {
                advance_shows_the_state(self@, event, screen.pixels@, screen.xres, screen.scale);
            }
        }
        let record: [u8; 3] = match event {
            Poll::Disconnected => {
                return Action::Finish(Ending::InputLost);
            },
            Poll::Empty => [0u8, 0u8, 0u8],
            Poll::Record(r) => r,
        };
        assert(record@ =~= record_of(event));
        let key = Key::decode(&record);
        if self.paused {
            match key {
                Key::Idle => Action::Poll,
                Key::Quit => Action::Finish(Ending::Quit),
                Key::Redraw => {
                    self.redraw(screen);
                    Action::Poll
                },
                _ => {
                    self.paused = false;
                    self.step(screen)
                },
            }
        } else {
            self.seed = fold_entropy(self.seed, record[0]);
            match key {
                Key::Quit => Action::Finish(Ending::Quit),
                Key::Pause => {
                    self.paused = true;
                    Action::Poll
                },
                _ => {
                    self.dir = self.dir.turn(key);
                    self.step(screen)
                },
            }
        }
    }
}

} // verus!
