//! The daily puzzle of the game core, with the games played on it.
use vstd::prelude::*;

use crate::clock::now_millis;
use crate::ids::UserId;
use crate::text::{join, push_char};
use crate::wordle::classic::{hours_between, StartTime, Word, PUZZLE_ACTIVE_HOURS};
use crate::wordle::emoji::{guess_squares, push_row};
use crate::wordle::guess::Guess;

verus! {

/// One player's game of a daily puzzle.
#[derive(Debug)]
pub struct GameRecord {
    pub user: UserId,
    pub guesses: Vec<Guess>,
    pub finished: bool,
}

/// The emoji rows of some guesses, one line each.
pub open spec fn record_rows(gs: Seq<Guess>) -> Seq<char> {
    join(Seq::new(gs.len(), |i: int| guess_squares(gs[i]@)), seq!['\n'])
}

impl GameRecord {
    /// The game of `user`, with `guesses` so far.
    pub fn new(user: UserId, guesses: Vec<Guess>, finished: bool) -> (r: GameRecord)
        ensures
            r.user == user,
            r.guesses@ == guesses@,
            r.finished == finished,
    {
        GameRecord { user, guesses, finished }
    }

    /// How many guesses were made.
    pub fn num_guesses(&self) -> (r: usize)
        ensures
            r == self.guesses@.len(),
    {
        self.guesses.len()
    }

    /// Whether the game was finished (solved or given up).
    pub fn is_finished(&self) -> (r: bool)
        ensures
            r == self.finished,
    {
        self.finished
    }

    /// Whether the game was started and not finished.
    pub fn in_progress(&self) -> (r: bool)
        ensures
            r == !self.finished,
    {
        !self.finished
    }

    /// The colored squares of each guess, one guess per line.
    pub fn as_emoji(&self) -> (r: String)
        ensures
            r@ == record_rows(self.guesses@),
    {
        let n = self.guesses.len();
        let ghost rows = Seq::new(n as nat, |i: int| guess_squares(self.guesses@[i]@));
        let mut s = String::new();
        for i in 0..n
            invariant
                n == self.guesses@.len(),
                rows == Seq::new(n as nat, |i: int| guess_squares(self.guesses@[i]@)),
                s@ == join(rows.take(i as int), seq!['\n']),
        {
            assert(rows.take(i + 1).drop_last() =~= rows.take(i as int));
            if i > 0 {
                push_char(&mut s, '\n');
            } else {
                assert(rows.take(0) =~= Seq::<Seq<char>>::empty());
            }
            push_row(&mut s, &self.guesses[i], false, false);
        }
        assert(rows.take(n as int) =~= rows);
        s
    }
}

/// A numbered daily puzzle and the moment it started.
#[derive(Debug)]
pub struct DailyPuzzle {
    pub number: u32,
    pub answer: Word,
    /// Milliseconds since the Unix epoch.
    pub started: i64,
}

impl DailyPuzzle {
    /// Puzzle `number` with `answer`, starting now.
    pub fn new(number: u32, answer: Word) -> (r: DailyPuzzle)
        ensures
            r.number == number,
            r.answer@ == answer@,
    {
        DailyPuzzle { number, answer, started: now_millis() }
    }
}

/// A daily puzzle with the games played on it.
#[derive(Debug)]
pub struct DailyWordle {
    pub puzzle: DailyPuzzle,
    games: Vec<GameRecord>,
}

/// The index of the first game of `user` in `games`, if any.
pub open spec fn first_game_of(games: Seq<GameRecord>, user: UserId) -> Option<int> {
    if exists|i: int| 0 <= i < games.len() && games[i].user == user {
        let i = choose|i: int|
            0 <= i < games.len() && games[i].user == user && forall|j: int|
                0 <= j < i ==> games[j].user != user;
        Some(i)
    } else {
        None
    }
}

/// Daily puzzles stay recent for a day from their start.
pub open spec fn recent_age(age: int) -> bool {
    age < PUZZLE_ACTIVE_HOURS
}

/// In their second day, daily puzzles are old but still playable.
pub open spec fn old_age(age: int) -> bool {
    age < 2 * PUZZLE_ACTIVE_HOURS && !recent_age(age)
}

/// After two days, daily puzzles expire.
pub open spec fn expired_age(age: int) -> bool {
    age >= 2 * PUZZLE_ACTIVE_HOURS
}

impl DailyWordle {
    /// A puzzle nobody has played yet.
    pub fn new(puzzle: DailyPuzzle) -> (r: DailyWordle)
        ensures
            r.puzzle_view() == puzzle,
            r.games_view().len() == 0,
    {
        DailyWordle { puzzle, games: Vec::new() }
    }

    /// A puzzle with the games already played on it.
    pub fn with_games(puzzle: DailyPuzzle, games: Vec<GameRecord>) -> (r: DailyWordle)
        ensures
            r.puzzle_view() == puzzle,
            r.games_view() == games@,
    {
        DailyWordle { puzzle, games }
    }

    /// The puzzle.
    pub closed spec fn puzzle_view(&self) -> DailyPuzzle {
        self.puzzle
    }

    /// The games played on the puzzle.
    pub closed spec fn games_view(&self) -> Seq<GameRecord> {
        self.games@
    }

    /// Whole hours from the start of the puzzle to `now` (both in milliseconds).
    pub fn age_hours_at(&self, now: i64) -> (r: i64)
        ensures
            r == hours_between(self.puzzle_view().started, now),
    {
        let start = StartTime::new(self.puzzle.started);
        match start.age_hours_at(now) {
            Some(h) => h,
            None => 0,
        }
    }

    /// Whole hours since the puzzle started, by the clock.
    pub fn age_hours(&self) -> (r: i64)
        ensures
            exists|now: i64| r == hours_between(self.puzzle_view().started, now),
    {
        let now = now_millis();
        self.age_hours_at(now)
    }

    /// At `now`, whether the puzzle started less than a day ago.
    pub fn is_recent_at(&self, now: i64) -> (r: bool)
        ensures
            r == recent_age(hours_between(self.puzzle_view().started, now)),
    {
        self.age_hours_at(now) < PUZZLE_ACTIVE_HOURS
    }

    /// Whether the puzzle started less than a day ago, by the clock.
    pub fn is_recent(&self) -> (r: bool)
        ensures
            exists|now: i64| r == recent_age(hours_between(self.puzzle_view().started, now)),
    {
        let now = now_millis();
        self.is_recent_at(now)
    }

    /// At `now`, whether the puzzle is in its second day.
    pub fn is_old_at(&self, now: i64) -> (r: bool)
        ensures
            r == old_age(hours_between(self.puzzle_view().started, now)),
    {
        self.age_hours_at(now) < 2 * PUZZLE_ACTIVE_HOURS && !self.is_recent_at(now)
    }

    /// Whether the puzzle is in its second day, by the clock.
    pub fn is_old(&self) -> (r: bool)
        ensures
            exists|now: i64| r == old_age(hours_between(self.puzzle_view().started, now)),
    {
        let now = now_millis();
        self.is_old_at(now)
    }

    /// At `now`, whether two days have passed since the puzzle started.
    pub fn is_expired_at(&self, now: i64) -> (r: bool)
        ensures
            r == expired_age(hours_between(self.puzzle_view().started, now)),
    {
        self.age_hours_at(now) >= 2 * PUZZLE_ACTIVE_HOURS
    }

    /// Whether two days have passed since the puzzle started, by the clock.
    pub fn is_expired(&self) -> (r: bool)
        ensures
            exists|now: i64| r == expired_age(hours_between(self.puzzle_view().started, now)),
    {
        let now = now_millis();
        self.is_expired_at(now)
    }

    /// The first game of `user` on this puzzle, if any.
    pub fn user_game(&self, user: UserId) -> (r: Option<&GameRecord>)
        ensures
            match first_game_of(self.games_view(), user) {
                Some(i) => r == Some(&self.games_view()[i]),
                None => r is None,
            },
    {
        let n = self.games.len();
        for i in 0..n
            invariant
                n == self.games@.len(),
                forall|j: int| 0 <= j < i ==> self.games@[j].user != user,
        {
            if self.games[i].user == user {
                let ghost games = self.games@;
                assert(games[i as int].user == user);
                assert(first_game_of(games, user) == Some(i as int)) by {
                    let k = choose|k: int|
                        0 <= k < games.len() && games[k].user == user && forall|j: int|
                            0 <= j < k ==> games[j].user != user;
                    assert(0 <= k < games.len() && games[k].user == user && forall|j: int|
                        0 <= j < k ==> games[j].user != user);
                    if k < i {
                    } else if k > i {
                        assert(games[i as int].user != user);
                    }
                }
                return Some(&self.games[i]);
            }
        }
        None
    }

    /// Records `game`: it replaces the first game of the same player, or is added after
    /// the others if the player had none.
    pub fn update_game(&mut self, game: GameRecord)
        ensures
            final(self).puzzle_view() == old(self).puzzle_view(),
            match first_game_of(old(self).games_view(), game.user) {
                Some(i) => final(self).games_view() == old(self).games_view().update(i, game),
                None => final(self).games_view() == old(self).games_view().push(game),
            },
    {
        let n = self.games.len();
        let mut i: usize = 0;
        while i < n
            invariant
                n == self.games@.len(),
                self.games@ == old(self).games@,
                self.puzzle == old(self).puzzle,
                forall|j: int| 0 <= j < i ==> self.games@[j].user != game.user,
            decreases n - i,
        {
            if self.games[i].user == game.user {
                let ghost games = self.games@;
                assert(first_game_of(games, game.user) == Some(i as int)) by {
                    let k = choose|k: int|
                        0 <= k < games.len() && games[k].user == game.user && forall|j: int|
                            0 <= j < k ==> games[j].user != game.user;
                    if k > i {
                        assert(games[i as int].user != game.user);
                    }
                }
                self.games.set(i, game);
                return;
            }
            i = i + 1;
        }
        self.games.push(game);
    }

    /// Whether `user` has a game on this puzzle.
    pub fn played_by(&self, user: UserId) -> (r: bool)
        ensures
            r == first_game_of(self.games_view(), user) is Some,
    {
        self.user_game(user).is_some()
    }

    /// Whether the first game of `user` on this puzzle is finished.
    pub fn finished_by(&self, user: UserId) -> (r: bool)
        ensures
            r == match first_game_of(self.games_view(), user) {
                Some(i) => self.games_view()[i].finished,
                None => false,
            },
    {
        match self.user_game(user) {
            Some(game) => game.is_finished(),
            None => false,
        }
    }

    /// At `now`, whether `user` may still play: the puzzle has not expired and their
    /// game is not finished.
    pub fn is_playable_for_at(&self, user: UserId, now: i64) -> (r: bool)
        ensures
            r == (!expired_age(hours_between(self.puzzle_view().started, now)) && !match first_game_of(
                self.games_view(),
                user,
            ) {
                Some(i) => self.games_view()[i].finished,
                None => false,
            }),
    {
        !self.is_expired_at(now) && !self.finished_by(user)
    }

    /// Whether `user` may still play this puzzle, by the clock.
    pub fn is_playable_for(&self, user: UserId) -> (r: bool)
        ensures
            exists|now: i64|
                r == (!expired_age(hours_between(self.puzzle_view().started, now)) && !match first_game_of(
                    self.games_view(),
                    user,
                ) {
                    Some(i) => self.games_view()[i].finished,
                    None => false,
                }),
    {
        let now = now_millis();
        self.is_playable_for_at(user, now)
    }

    /// Whether `user` started a game on this puzzle and has not finished it.
    pub fn in_progress_for(&self, user: UserId) -> (r: bool)
        ensures
            r == match first_game_of(self.games_view(), user) {
                Some(i) => !self.games_view()[i].finished,
                None => false,
            },
    {
        match self.user_game(user) {
            Some(game) => game.in_progress(),
            None => false,
        }
    }
}

/// At `now`, whether a new daily puzzle is due: the latest one that has not expired is
/// in its second day, or there is none.
pub fn needs_new_daily_at(latest: Option<&DailyWordle>, now: i64) -> (r: bool)
    ensures
        r == match latest {
            Some(d) => {
                let age = hours_between(d.puzzle_view().started, now);
                expired_age(age) || old_age(age)
            },
            None => true,
        },
{
    match latest {
        Some(d) => d.is_expired_at(now) || d.is_old_at(now),
        None => true,
    }
}

/// The number of the next daily puzzle: one after the latest, or one.
pub fn next_number(latest: Option<u32>) -> (r: u32)
    requires
        latest matches Some(n) ==> n < u32::MAX,
    ensures
        r == match latest {
            Some(n) => n + 1,
            None => 1,
        },
{
    match latest {
        Some(n) => n + 1,
        None => 1,
    }
}

/// After a game is recorded, it is the game found for its player.
pub proof fn lemma_update_then_find(before: Seq<GameRecord>, game: GameRecord)
    ensures
        ({
            let after = match first_game_of(before, game.user) {
                Some(i) => before.update(i, game),
                None => before.push(game),
            };
            first_game_of(after, game.user) matches Some(k) && after[k] == game
        }),
{
    let after = match first_game_of(before, game.user) {
        Some(i) => before.update(i, game),
        None => before.push(game),
    };
    match first_game_of(before, game.user) {
        Some(i) => {
            assert(0 <= i < before.len() && before[i].user == game.user && forall|j: int|
                0 <= j < i ==> before[j].user != game.user) by {
                let w = choose|w: int| 0 <= w < before.len() && before[w].user == game.user;
                lemma_first_exists(before, game.user, w);
            }
            assert(after[i] == game);
            assert(first_game_of(after, game.user) == Some(i)) by {
                let k = choose|k: int|
                    0 <= k < after.len() && after[k].user == game.user && forall|j: int|
                        0 <= j < k ==> after[j].user != game.user;
                if k < i {
                    assert(after[k] == before[k]);
                } else if k > i {
                    assert(after[i].user == game.user);
                }
            }
        },
        None => {
            let n = before.len() as int;
            assert(after[n] == game);
            assert forall|j: int| 0 <= j < n implies after[j].user != game.user by {
                assert(after[j] == before[j]);
            }
            assert(first_game_of(after, game.user) == Some(n)) by {
                let k = choose|k: int|
                    0 <= k < after.len() && after[k].user == game.user && forall|j: int|
                        0 <= j < k ==> after[j].user != game.user;
                if k < n {
                    assert(after[k] == before[k]);
                }
            }
        },
    }
}

/// When some game of `user` exists, there is a first one.
proof fn lemma_first_exists(games: Seq<GameRecord>, user: UserId, w: int)
    requires
        0 <= w < games.len(),
        games[w].user == user,
    ensures
        exists|i: int|
            0 <= i < games.len() && games[i].user == user && forall|j: int|
                0 <= j < i ==> games[j].user != user,
    decreases w,
{
    if exists|j: int| 0 <= j < w && games[j].user == user {
        let j = choose|j: int| 0 <= j < w && games[j].user == user;
        lemma_first_exists(games, user, j);
    } else {
        assert(forall|j: int| 0 <= j < w ==> games[j].user != user);
    }
}

/// At any moment a daily puzzle is exactly one of recent, old or expired.
pub proof fn lemma_age_partition(age: int)
    ensures
        recent_age(age) || old_age(age) || expired_age(age),
        !(recent_age(age) && old_age(age)),
        !(recent_age(age) && expired_age(age)),
        !(old_age(age) && expired_age(age)),
{
}

} // verus!
