//! A game of the wordle core: the puzzle, how a guess is scored, the game's message,
//! and what the game does on each thing that happens while it runs.
use vstd::prelude::*;

use crate::ids::{ChannelId, MessageId, UserId};
use crate::text::{ascii_lower_seq, decimal, join, push_char, push_str, push_u64};
use crate::wordle::classic::{
    correct_in, count_in, count_of, lemma_marks_within_answer, marked_count, scored, scored_state,
    Word,
};
use crate::wordle::classic::LetterState as ScoredState;
use crate::wordle::daily::{DailyPuzzle, GameRecord};
use crate::wordle::emoji::{is_lower_letter, styled, AsEmoji};
use crate::wordle::guess::{Guess, LetterState, PartialGuess, PartialGuessError};
use crate::wordle::guesses::{flat_pairs, Guesses};
use crate::wordle::letters::{char_cells, has_key, strictly_sorted};
use crate::wordle::options::{GameOptions, GameStyle};
use crate::wordle::users::{User, Users};

verus! {

/// A letter's state as the game core names it.
pub open spec fn core_state(s: ScoredState) -> LetterState {
    match s {
        ScoredState::Correct => LetterState::Correct,
        ScoredState::WrongPlace => LetterState::WrongPlace,
        ScoredState::NotPresent => LetterState::NotPresent,
    }
}

/// Guess `g` scored against answer `w`, by the rule of the classic game.
pub open spec fn core_scored(w: Seq<char>, g: Seq<char>) -> Seq<(char, LetterState)> {
    Seq::new(g.len(), |i: int| (g[i], core_state(scored_state(w, g, i))))
}

/// How many entries of a scored guess hold letter `c` and are scored `WrongPlace` or
/// `Correct`.
pub open spec fn core_marked_count(s: Seq<(char, LetterState)>, c: char) -> nat
    decreases s.len(),
{
    if s.len() == 0 {
        0
    } else {
        core_marked_count(s.drop_last(), c) + if s.last().0 == c && (s.last().1
            == LetterState::WrongPlace || s.last().1 == LetterState::Correct) {
            1nat
        } else {
            0nat
        }
    }
}

proof fn lemma_core_marks_match(w: Seq<char>, g: Seq<char>, c: char, n: int)
    requires
        0 <= n <= g.len(),
    ensures
        core_marked_count(core_scored(w, g).take(n), c) == marked_count(scored(w, g).take(n), c),
    decreases n,
{
    if n > 0 {
        lemma_core_marks_match(w, g, c, n - 1);
        assert(core_scored(w, g).take(n).drop_last() =~= core_scored(w, g).take(n - 1));
        assert(scored(w, g).take(n).drop_last() =~= scored(w, g).take(n - 1));
    }
}

/// However a guess is scored, no letter is marked (`WrongPlace` or `Correct`) more
/// often than the answer holds it.
pub proof fn lemma_core_marks_within_answer(w: Seq<char>, g: Seq<char>, c: char)
    ensures
        core_marked_count(core_scored(w, g), c) <= count_of(w, c),
{
    lemma_core_marks_match(w, g, c, g.len() as int);
    assert(core_scored(w, g).take(g.len() as int) =~= core_scored(w, g));
    assert(scored(w, g).take(g.len() as int) =~= scored(w, g));
    lemma_marks_within_answer(w, g, c);
}

/// Scores `partial` (lowercased, ASCII) against `answer`: exact hits are `Correct`;
/// then, left to right, a letter is `WrongPlace` while the answer has copies of it left
/// over; the rest are `NotPresent`.
pub fn score(answer: &Word, partial: PartialGuess) -> (r: Guess)
    requires
        answer.wf(),
    ensures
        r@ == core_scored(answer@, ascii_lower_seq(partial@)),
{
    let mut guess = Guess::new(partial);
    proof {
        guess.lemma_len();
    }
    let pairs = guess.iter();
    let mut g: Vec<char> = Vec::new();
    for i in 0..5
        invariant
            pairs@ == guess@,
            pairs@.len() == 5,
            g@ == Seq::new(i as nat, |k: int| pairs@[k].0),
    {
        g.push(pairs[i].0);
        assert(g@ =~= Seq::new((i + 1) as nat, |k: int| pairs@[k].0));
    }
    let ghost gs = g@;
    assert(gs =~= ascii_lower_seq(partial@));
    let w = answer.iter();
    assert(w@.len() == 5) by {
        answer.lemma_wf_len();
    }
    let ghost ws = w@;
    assert(guess@ =~= Seq::new(5, |k: int| (gs[k], LetterState::NotPresent)));
    for i in 0..5
        invariant
            g@ == gs,
            w@ == ws,
            gs.len() == 5,
            ws.len() == 5,
            guess@ == Seq::new(
                5,
                |k: int|
                    if k < i {
                        (gs[k], core_state(scored_state(ws, gs, k)))
                    } else {
                        (gs[k], LetterState::NotPresent)
                    },
            ),
    {
        let c = g[i];
        let before = count_in(&g, i, c);
        let hits = correct_in(&w, &g, c);
        let total = count_in(&w, 5, c);
        assert(ws.take(5) =~= ws);
        let ghost old_guess = guess@;
        if before + hits < total {
            guess.mark_wrong_place(i);
        } else if c == w[i] {
            guess.mark_correct(i);
        }
        assert(guess@ =~= Seq::new(
            5,
            |k: int|
                if k < i + 1 {
                    (gs[k], core_state(scored_state(ws, gs, k)))
                } else {
                    (gs[k], LetterState::NotPresent)
                },
        ));
    }
    assert(guess@ =~= core_scored(ws, gs));
    guess
}

/// Guessing the answer itself scores every letter `Correct`.
pub proof fn lemma_answer_solves(w: Seq<char>)
    ensures
        forall|i: int| 0 <= i < w.len() ==> (#[trigger] core_scored(w, w)[i]).1 == LetterState::Correct,
{
    crate::wordle::classic::lemma_answer_scores_all_correct(w);
    assert forall|i: int| 0 <= i < w.len() implies (#[trigger] core_scored(w, w)[i]).1
        == LetterState::Correct by {
        assert(crate::wordle::classic::scored(w, w)[i].1 == ScoredState::Correct);
    }
}

/// A guess is all `Correct` exactly when it is the answer.
pub proof fn lemma_solved_iff_answer(w: Seq<char>, g: Seq<char>)
    requires
        g.len() == w.len(),
    ensures
        (forall|i: int| 0 <= i < g.len() ==> (#[trigger] core_scored(w, g)[i]).1 == LetterState::Correct)
            <==> g == w,
{
    crate::wordle::classic::lemma_all_correct_iff_answer(w, g);
    if forall|i: int| 0 <= i < g.len() ==> (#[trigger] core_scored(w, g)[i]).1 == LetterState::Correct {
        assert forall|i: int| 0 <= i < g.len() implies crate::wordle::classic::scored(w, g)[i].1
            == ScoredState::Correct by {
            assert(core_scored(w, g)[i].1 == LetterState::Correct);
        }
    }
    if g == w {
        lemma_answer_solves(w);
    }
}

/// What is being guessed: a random word, or a daily puzzle.
#[derive(Debug)]
pub enum Puzzle {
    Random(Word),
    Daily(DailyPuzzle),
}

impl Puzzle {
    /// The answer.
    pub open spec fn answer_view(&self) -> Seq<char> {
        match self {
            Puzzle::Random(w) => w@,
            Puzzle::Daily(d) => d.answer@,
        }
    }

    /// Whether the answer is a word of five letters.
    pub open spec fn answer_wf(&self) -> bool {
        match self {
            Puzzle::Random(w) => w.wf(),
            Puzzle::Daily(d) => d.answer.wf(),
        }
    }

    /// The daily puzzle's number.
    pub open spec fn number_view(&self) -> Option<u32> {
        match self {
            Puzzle::Random(_) => None,
            Puzzle::Daily(d) => Some(d.number),
        }
    }

    /// Whether this is a daily puzzle.
    pub fn is_daily(&self) -> (r: bool)
        ensures
            r == self is Daily,
    {
        match self {
            Puzzle::Daily(..) => true,
            Puzzle::Random(..) => false,
        }
    }

    /// Whether this is a random puzzle.
    pub fn is_random(&self) -> (r: bool)
        ensures
            r == self is Random,
    {
        match self {
            Puzzle::Random(..) => true,
            Puzzle::Daily(..) => false,
        }
    }

    /// The answer.
    pub fn answer(&self) -> (r: &Word)
        ensures
            r@ == self.answer_view(),
            self.answer_wf() ==> r.wf(),
    {
        match self {
            Puzzle::Random(w) => w,
            Puzzle::Daily(d) => &d.answer,
        }
    }

    /// The daily puzzle's number; random puzzles have none.
    pub fn number(&self) -> (r: Option<u32>)
        ensures
            r == self.number_view(),
    {
        match self {
            Puzzle::Random(_) => None,
            Puzzle::Daily(d) => Some(d.number),
        }
    }

    /// The puzzle's title: `random wordle`, or `daily wordle` and its number.
    pub fn title(&self) -> (r: String)
        ensures
            r@ == match self.number_view() {
                Some(n) => "daily wordle "@ + decimal(n as nat),
                None => "random wordle"@,
            },
    {
        let mut s = String::new();
        match self {
            Puzzle::Random(_) => push_str(&mut s, "random wordle"),
            Puzzle::Daily(d) => {
                push_str(&mut s, "daily wordle ");
                push_u64(&mut s, d.number as u64);
            },
        }
        s
    }

    /// Scores `partial` against the answer; see [`score`].
    pub fn guess(&self, partial: PartialGuess) -> (r: Guess)
        requires
            self.answer_wf(),
        ensures
            r@ == core_scored(self.answer_view(), ascii_lower_seq(partial@)),
    {
        score(self.answer(), partial)
    }
}

/// A button under the game's message.
#[derive(Clone, Copy, Debug, PartialEq, Eq, Structural)]
pub enum Button {
    Unused,
    Pause,
    Cancel,
    GiveUp,
}

/// How a button is drawn.
#[derive(Clone, Copy, Debug, PartialEq, Eq, Structural)]
pub enum ButtonStyle {
    Primary,
    Secondary,
    Danger,
}

/// A button: its id, emoji, label and style.
#[derive(Debug)]
pub struct ButtonSpec {
    pub custom_id: String,
    pub emoji: String,
    pub label: String,
    pub style: ButtonStyle,
}

/// A button with these parts.
fn button(custom_id: &str, emoji: &str, label: &str, style: ButtonStyle) -> (r: ButtonSpec)
    ensures
        r.custom_id@ == custom_id@,
        r.emoji@ == emoji@,
        r.label@ == label@,
        r.style == style,
{
    let mut a = String::new();
    push_str(&mut a, custom_id);
    let mut b = String::new();
    push_str(&mut b, emoji);
    let mut c = String::new();
    push_str(&mut c, label);
    ButtonSpec { custom_id: a, emoji: b, label: c, style }
}

/// The text of a game's message: its title, how many guesses out of how many (`∞`
/// without a limit), and the guesses drawn in the game's style.
pub open spec fn board_text(title: Seq<char>, guesses: Guesses, style: GameStyle) -> Seq<char> {
    title + seq![' '] + decimal(guesses@.len()) + seq!['/'] + match guesses.limit_view() {
        Some(l) => decimal(l@ as nat),
        None => seq!['\u{221E}'],
    } + seq!['\n'] + styled(style, guesses.emoji_view(), guesses.letters_view(), guesses.spaced_view())
}

/// The message a game is played in.
#[derive(Debug)]
pub struct GameMessage {
    channel_id: ChannelId,
    message_id: MessageId,
    style: GameStyle,
}

impl GameMessage {
    /// The message `message_id` in channel `channel_id`, drawn in `style`.
    pub fn new(channel_id: ChannelId, message_id: MessageId, style: GameStyle) -> (r: GameMessage)
        ensures
            r.channel_view() == channel_id,
            r.message_view() == message_id,
            r.style_view() == style,
    {
        GameMessage { channel_id, message_id, style }
    }

    pub closed spec fn channel_view(&self) -> ChannelId {
        self.channel_id
    }

    pub closed spec fn message_view(&self) -> MessageId {
        self.message_id
    }

    pub closed spec fn style_view(&self) -> GameStyle {
        self.style
    }

    /// The channel of the message.
    pub fn channel_id(&self) -> (r: &ChannelId)
        ensures
            *r == self.channel_view(),
    {
        &self.channel_id
    }

    /// The message's id.
    pub fn message_id(&self) -> (r: &MessageId)
        ensures
            *r == self.message_view(),
    {
        &self.message_id
    }

    /// The text of the message; see [`board_text`].
    pub fn content(title: &str, guesses: &Guesses, style: GameStyle) -> (r: String)
        requires
            guesses.showable(),
        ensures
            r@ == board_text(title@, *guesses, style),
    {
        let mut s = String::new();
        push_str(&mut s, title);
        push_char(&mut s, ' ');
        let ghost head = s@;
        let count = guesses.count();
        push_u64(&mut s, count as u64);
        push_char(&mut s, '/');
        match guesses.max() {
            Some(l) => push_u64(&mut s, l as u64),
            None => push_char(&mut s, '\u{221E}'),
        }
        push_char(&mut s, '\n');
        assert(s@ =~= head + decimal(guesses@.len()) + seq!['/'] + match guesses.limit_view() {
            Some(l) => decimal(l@ as nat),
            None => seq!['\u{221E}'],
        } + seq!['\n']);
        let e = guesses.emoji_with_style(style);
        push_str(&mut s, e.as_str());
        assert(s@ =~= board_text(title@, *guesses, style));
        s
    }

    /// The stop buttons: pause for a daily puzzle, cancel for a random one; and give up.
    pub fn stop_buttons(is_daily: bool) -> (r: Vec<ButtonSpec>)
        ensures
            r@.len() == 2,
            is_daily ==> r@[0].custom_id@ == "pause"@ && r@[0].emoji@ == "\u{23F8}\u{FE0F}"@
                && r@[0].label@ == "pause"@ && r@[0].style == ButtonStyle::Primary,
            !is_daily ==> r@[0].custom_id@ == "cancel"@ && r@[0].emoji@ == "\u{1F6AB}"@
                && r@[0].label@ == "cancel"@ && r@[0].style == ButtonStyle::Secondary,
            r@[1].custom_id@ == "give_up"@ && r@[1].emoji@ == "\u{1F3F3}\u{FE0F}"@ && r@[1].label@
                == "give up"@ && r@[1].style == ButtonStyle::Danger,
    {
        let first = if is_daily {
            button("pause", "\u{23F8}\u{FE0F}", "pause", ButtonStyle::Primary)
        } else {
            button("cancel", "\u{1F6AB}", "cancel", ButtonStyle::Secondary)
        };
        let mut v = Vec::new();
        v.push(first);
        v.push(button("give_up", "\u{1F3F3}\u{FE0F}", "give up", ButtonStyle::Danger));
        v
    }

    /// The information buttons: the unused letters.
    pub fn info_buttons() -> (r: Vec<ButtonSpec>)
        ensures
            r@.len() == 1,
            r@[0].custom_id@ == "unused"@ && r@[0].emoji@ == "\u{1F50E}"@ && r@[0].label@
                == "unused letters"@ && r@[0].style == ButtonStyle::Primary,
    {
        let mut v = Vec::new();
        v.push(button("unused", "\u{1F50E}", "unused letters", ButtonStyle::Primary));
        v
    }
}

/// Something that happens while a game runs.
pub enum GameEvent {
    /// Someone replied in the game's channel; `read` is their message read as a guess.
    Reply { author: User, read: Result<PartialGuess, PartialGuessError> },
    /// Someone pressed a button.
    Press { button: Button, by: UserId },
    /// The game's owner answered whether they really meant a stop button.
    Confirm { button: Button, yes: bool },
}

/// Something the game asks to be done.
#[derive(Debug, PartialEq, Eq)]
pub enum GameAction {
    /// React to the reply with this emoji.
    React(char),
    /// Redraw the game's message.
    EditBoard,
    /// Save the player's record of daily puzzle `number`.
    Save { number: u32, finished: bool },
    /// Answer the reply that was a guess.
    AnswerGuess(String),
    /// Answer under the game's message.
    AnswerBoard(String),
    /// Answer the button press, seen only by whoever pressed it.
    AnswerPress(String),
    /// Ask whoever pressed a stop button whether they meant it.
    AskConfirm(String),
    /// Add this line to the game's message.
    Finish(String),
}

/// What one event led to: the actions, in order, and whether the game is over.
#[derive(Debug)]
pub struct Step {
    pub actions: Vec<GameAction>,
    pub stop: bool,
}

/// The word of a stop button, as asked back: `cancel`, `give up` or `pause`.
pub open spec fn stop_word(b: Button) -> Seq<char> {
    match b {
        Button::Cancel => "cancel"@,
        Button::GiveUp => "give up"@,
        _ => "pause"@,
    }
}

/// A game being played.
pub struct Game<'a> {
    puzzle: Puzzle,
    guesses: Guesses,
    users: Users<'a>,
    style: GameStyle,
}

impl<'a> Game<'a> {
    pub closed spec fn puzzle_view(&self) -> Puzzle {
        self.puzzle
    }

    pub closed spec fn guesses_view(&self) -> Guesses {
        self.guesses
    }

    pub closed spec fn users_view(&self) -> Users<'a> {
        self.users
    }

    pub closed spec fn style_view(&self) -> GameStyle {
        self.style
    }

    /// A new game of `puzzle` started by `owner`; in a server (`in_guild`), others who
    /// guess join it.
    pub fn new(puzzle: Puzzle, options: GameOptions, owner: &'a User, in_guild: bool) -> (r: Game<'a>)
        ensures
            r.puzzle_view() == puzzle,
            r.guesses_view()@.len() == 0,
            r.guesses_view().limit_view() == Some(options.guesses_limit),
            r.users_view().owner_view() == *owner,
            r.users_view().open_view() == in_guild,
            r.users_view().others_view() == Map::<u64, User>::empty(),
            r.style_view() == options.style,
    {
        let users = if in_guild {
            Users::more(owner)
        } else {
            Users::one(owner)
        };
        Game {
            puzzle,
            guesses: Guesses::new(Some(options.guesses_limit)),
            users,
            style: options.style,
        }
    }

    /// The id of the one who started the game.
    pub fn author_id(&self) -> (r: UserId)
        ensures
            r == self.users_view().owner_view().id,
    {
        self.users.owner().id
    }

    /// Scores `partial` and records it; gives the latest recorded guess.
    pub fn guess(&mut self, partial: PartialGuess) -> (r: Guess)
        requires
            old(self).puzzle_view().answer_wf(),
        ensures
            final(self).puzzle_view() == old(self).puzzle_view(),
            final(self).users_view() == old(self).users_view(),
            final(self).style_view() == old(self).style_view(),
            final(self).guesses_view().limit_view() == old(self).guesses_view().limit_view(),
            guess_views(final(self).guesses_view()@) == pushed(
                old(self).guesses_view(),
                core_scored(old(self).puzzle_view().answer_view(), ascii_lower_seq(partial@)),
            ),
            r == final(self).guesses_view()@.last(),
    {
        let new = self.puzzle.guess(partial);
        self.guesses.push(new);
        match self.guesses.last() {
            Some(g) => g,
            None => new,
        }
    }

    /// Whether the latest guess is all correct.
    pub fn is_solved(&self) -> (r: bool)
        ensures
            r == solved(self.guesses_view()@),
    {
        self.guesses.last_is_solved()
    }

    /// The owner's record of this game.
    pub fn state(&self, finished: bool) -> (r: GameRecord)
        ensures
            r.user == self.users_view().owner_view().id,
            r.guesses@ == self.guesses_view()@,
            r.finished == finished,
    {
        GameRecord::new(self.author_id(), self.guesses.iter(), finished)
    }

    /// The text of the game's message; see [`board_text`].
    pub fn content(&self) -> (r: String)
        requires
            self.guesses_view().showable(),
        ensures
            r@ == board_text(
                match self.puzzle_view().number_view() {
                    Some(n) => "daily wordle "@ + decimal(n as nat),
                    None => "random wordle"@,
                },
                self.guesses_view(),
                self.style_view(),
            ),
    {
        let title = self.puzzle.title();
        GameMessage::content(title.as_str(), &self.guesses, self.style)
    }

    /// What the game does on `event`:
    /// - a reply that reads as a guess is marked with a check, scored and recorded; the
    ///   board is redrawn and a daily puzzle's record saved; a solved game answers
    ///   `you win!` and ends; otherwise whoever guessed joins the game;
    /// - a reply with a word not in the list is marked with a question mark, and other
    ///   replies are ignored;
    /// - the unused-letters button answers with the letters not guessed yet;
    /// - a stop button pressed by anyone but the owner is refused, and the owner is asked
    ///   to confirm it;
    /// - once confirmed, pause saves an unfinished record and ends, cancel ends, and
    ///   giving up saves a finished record of a daily puzzle, tells the answer, marks the
    ///   game over and ends.
    pub fn step(&mut self, event: GameEvent) -> (r: Step)
        requires
            old(self).puzzle_view().answer_wf(),
            event matches GameEvent::Confirm { button, yes } ==> button != Button::Unused && (
            button == Button::Pause && yes ==> old(self).puzzle_view() is Daily),
        ensures
            final(self).puzzle_view() == old(self).puzzle_view(),
            final(self).style_view() == old(self).style_view(),
            final(self).guesses_view().limit_view() == old(self).guesses_view().limit_view(),
            final(self).users_view().owner_view() == old(self).users_view().owner_view(),
            final(self).users_view().open_view() == old(self).users_view().open_view(),
            step_spec(*old(self), event, *final(self), r),
    {
        match event {
            GameEvent::Reply { author, read } => match read {
                Ok(partial) => {
                    let mut actions = Vec::new();
                    actions.push(GameAction::React('\u{2705}'));
                    self.guess(partial);
                    actions.push(GameAction::EditBoard);
                    let done = self.is_solved();
                    if let Some(n) = self.puzzle.number() {
                        actions.push(GameAction::Save { number: n, finished: done });
                    }
                    if done {
                        let mut t = String::new();
                        push_str(&mut t, "you win!");
                        actions.push(GameAction::AnswerGuess(t));
                        return Step { actions, stop: true };
                    }
                    if !self.users.contains(author.id) {
                        self.users.add(author);
                    }
                    Step { actions, stop: false }
                },
                Err(PartialGuessError::NotInList(_)) => {
                    let mut actions = Vec::new();
                    actions.push(GameAction::React('\u{2753}'));
                    Step { actions, stop: false }
                },
                Err(_) => Step { actions: Vec::new(), stop: false },
            },
            GameEvent::Press { button, by } => {
                let mut actions = Vec::new();
                let mut t = String::new();
                match button {
                    Button::Unused => {
                        let unused = self.guesses.unused_letters();
                        push_str(&mut t, "unused letters: ");
                        assert forall|i: int| 0 <= i < unused@.len() implies is_lower_letter(
                            #[trigger] unused@[i],
                        ) by {
                            assert(unused@.contains(unused@[i]));
                        }
                        let e = unused.as_emoji();
                        push_str(&mut t, e.as_str());
                        actions.push(GameAction::AnswerPress(t));
                    },
                    _ => {
                        if by != self.author_id() {
                            push_str(&mut t, "you can only manage a game you started!");
                            actions.push(GameAction::AnswerPress(t));
                        } else {
                            push_str(&mut t, "really ");
                            match button {
                                Button::Cancel => push_str(&mut t, "cancel"),
                                Button::GiveUp => push_str(&mut t, "give up"),
                                _ => push_str(&mut t, "pause"),
                            }
                            push_str(&mut t, "?");
                            actions.push(GameAction::AskConfirm(t));
                        }
                    },
                }
                Step { actions, stop: false }
            },
            GameEvent::Confirm { button, yes } => {
                let mut actions = Vec::new();
                if !yes {
                    return Step { actions, stop: false };
                }
                match button {
                    Button::Pause => {
                        if let Some(n) = self.puzzle.number() {
                            actions.push(GameAction::Save { number: n, finished: false });
                        }
                        Step { actions, stop: true }
                    },
                    Button::Cancel => Step { actions, stop: true },
                    _ => {
                        if let Some(n) = self.puzzle.number() {
                            actions.push(GameAction::Save { number: n, finished: true });
                        }
                        let mut t = String::new();
                        push_str(&mut t, "the word was: ");
                        let w = self.puzzle.answer().to_string();
                        push_str(&mut t, w.as_str());
                        actions.push(GameAction::AnswerBoard(t));
                        let mut f = String::new();
                        push_str(&mut f, "game over!");
                        actions.push(GameAction::Finish(f));
                        Step { actions, stop: true }
                    },
                }
            },
        }
    }
}

/// The scored letters of each guess.
pub open spec fn guess_views(gs: Seq<Guess>) -> Seq<Seq<(char, LetterState)>> {
    Seq::new(gs.len(), |i: int| gs[i]@)
}

/// The guesses of `gs` after recording `g`: unchanged once the limit is reached.
pub open spec fn pushed(gs: Guesses, g: Seq<(char, LetterState)>) -> Seq<Seq<(char, LetterState)>> {
    if gs.limit_view() matches Some(l) && l@ == gs@.len() {
        guess_views(gs@)
    } else {
        guess_views(gs@).push(g)
    }
}

/// Whether the latest of `gs` is all correct.
pub open spec fn solved(gs: Seq<Guess>) -> bool {
    gs.len() > 0 && forall|i: int| 0 <= i < 5 ==> #[trigger] gs.last()@[i].1 == LetterState::Correct
}

/// Whether `a` answers the guess with `text`.
pub open spec fn answers_guess(a: GameAction, text: Seq<char>) -> bool {
    a matches GameAction::AnswerGuess(s) && s@ == text
}

/// Whether `a` answers under the board with `text`.
pub open spec fn answers_board(a: GameAction, text: Seq<char>) -> bool {
    a matches GameAction::AnswerBoard(s) && s@ == text
}

/// Whether `a` answers a button press with `text`.
pub open spec fn answers_press(a: GameAction, text: Seq<char>) -> bool {
    a matches GameAction::AnswerPress(s) && s@ == text
}

/// Whether `a` asks to confirm with `text`.
pub open spec fn asks(a: GameAction, text: Seq<char>) -> bool {
    a matches GameAction::AskConfirm(s) && s@ == text
}

/// Whether `a` ends the board with `text`.
pub open spec fn finishes(a: GameAction, text: Seq<char>) -> bool {
    a matches GameAction::Finish(s) && s@ == text
}

/// The players after `author` guessed without solving: they join if they did not take
/// part yet.
pub open spec fn joined(before: Users, author: User) -> Map<u64, User> {
    if !before.has(author.id.0) && before.open_view() {
        before.others_view().insert(author.id.0, author)
    } else {
        before.others_view()
    }
}

/// What [`Game::step`] does; see there.
pub open spec fn step_spec(g0: Game, event: GameEvent, g1: Game, r: Step) -> bool {
    let number = g0.puzzle_view().number_view();
    let acts = r.actions@;
    match event {
        GameEvent::Reply { author, read } => match read {
            Ok(p) => {
                let done = solved(g1.guesses_view()@);
                let saves: int = if number is Some { 1 } else { 0 };
                &&& guess_views(g1.guesses_view()@) == pushed(
                    g0.guesses_view(),
                    core_scored(g0.puzzle_view().answer_view(), ascii_lower_seq(p@)),
                )
                &&& r.stop == done
                &&& acts.len() == 2 + saves + if done { 1int } else { 0 }
                &&& acts[0] == GameAction::React('\u{2705}')
                &&& acts[1] == GameAction::EditBoard
                &&& (number matches Some(n) ==> acts[2] == GameAction::Save { number: n, finished: done })
                &&& (done ==> answers_guess(acts[2 + saves], "you win!"@))
                &&& g1.users_view().others_view() == if done {
                    g0.users_view().others_view()
                } else {
                    joined(g0.users_view(), author)
                }
            },
            Err(e) => {
                &&& g1.guesses_view()@ == g0.guesses_view()@
                &&& g1.users_view().others_view() == g0.users_view().others_view()
                &&& !r.stop
                &&& (e is NotInList ==> acts == seq![GameAction::React('\u{2753}')])
                &&& (!(e is NotInList) ==> acts.len() == 0)
            },
        },
        GameEvent::Press { button, by } => {
            &&& g1.guesses_view()@ == g0.guesses_view()@
            &&& g1.users_view().others_view() == g0.users_view().others_view()
            &&& !r.stop
            &&& acts.len() == 1
            &&& (button == Button::Unused ==> exists|u: Seq<char>|
                strictly_sorted(u) && (forall|x: char| #[trigger] u.contains(x) <==> (is_lower_letter(x) && !has_key(
                    flat_pairs(g0.guesses_view()@),
                    x,
                ))) && answers_press(acts[0], "unused letters: "@ + join(char_cells(u), seq![',', ' '])))
            &&& (button != Button::Unused && by != g0.users_view().owner_view().id ==> answers_press(
                acts[0],
                "you can only manage a game you started!"@,
            ))
            &&& (button != Button::Unused && by == g0.users_view().owner_view().id ==> asks(
                acts[0],
                "really "@ + stop_word(button) + "?"@,
            ))
        },
        GameEvent::Confirm { button, yes } => {
            &&& g1.guesses_view()@ == g0.guesses_view()@
            &&& g1.users_view().others_view() == g0.users_view().others_view()
            &&& r.stop == yes
            &&& (!yes ==> acts.len() == 0)
            &&& (yes && button == Button::Cancel ==> acts.len() == 0)
            &&& (yes && button == Button::Pause ==> (number matches Some(n) && acts == seq![
                GameAction::Save { number: n, finished: false },
            ]))
            &&& (yes && button == Button::GiveUp ==> {
                let saves: int = if number is Some { 1 } else { 0 };
                &&& acts.len() == 2 + saves
                &&& (number matches Some(n) ==> acts[0] == GameAction::Save { number: n, finished: true })
                &&& answers_board(acts[saves], "the word was: "@ + g0.puzzle_view().answer_view())
                &&& finishes(acts[saves + 1], "game over!"@)
            })
        },
    }
}

} // verus!
