use slimebot::wordle::guess::ToPartialGuess;
use slimebot::ids::{ChannelId, MessageId, UserId};
use slimebot::wordle::classic::{Word, WordsList};
use slimebot::wordle::daily::{DailyPuzzle, DailyWordle, GameRecord};
use slimebot::wordle::emoji::AsEmoji;
use slimebot::wordle::game::{
    score, Button, Game, GameAction, GameEvent, GameMessage, Puzzle, ButtonStyle,
};
use slimebot::wordle::guess::{
    read_partial_guess, Guess, GuessesLimit, LetterState, PartialGuess, PartialGuessError,
};
use slimebot::wordle::guesses::Guesses;
use slimebot::wordle::options::{GameOptions, GameOptionsBuilder, GameStyle};
use slimebot::wordle::users::{User, UserMap, Users};

#[test]
fn win() {
    let word = Word::new("amber");
    assert!(word.guess("amber").all_correct())
}

#[test]
fn display() {
    let word = Word::new("amber");
    let guess = word.guess("amber");
    assert_eq!(guess.to_string(), "OOOOO");

    let guess = word.guess("arbor");
    assert_eq!(guess.to_string(), "O.O.O");

    let guess = word.guess("handy");
    assert_eq!(guess.to_string(), ".o...");

    let word = Word::new("addra");
    let guess = word.guess("opals");
    assert_eq!(guess.to_string(), "..o..")
}

fn words() -> WordsList {
    WordsList::from_words(vec![
        "amber".to_string(),
        "arbor".to_string(),
        "handy".to_string(),
        "opals".to_string(),
    ])
}

fn partial(s: &str) -> PartialGuess {
    read_partial_guess(s, &words()).expect("word in list")
}

fn states(g: &Guess) -> Vec<LetterState> {
    g.iter().into_iter().map(|(_, s)| s).collect()
}

#[test]
fn core_scoring_matches_classic() {
    let answer = Word::new("amber");
    let g = score(&answer, partial("arbor"));
    assert_eq!(
        states(&g),
        vec![
            LetterState::Correct,
            LetterState::NotPresent,
            LetterState::Correct,
            LetterState::NotPresent,
            LetterState::Correct
        ]
    );
    let g = score(&answer, partial("AMBER"));
    assert!(g.is_correct());
    let g = score(&Word::new("amber"), partial("handy"));
    assert_eq!(
        states(&g),
        vec![
            LetterState::NotPresent,
            LetterState::WrongPlace,
            LetterState::NotPresent,
            LetterState::NotPresent,
            LetterState::NotPresent
        ]
    );
}

#[test]
fn partial_guess_errors() {
    let list = words();
    assert_eq!(read_partial_guess("abc", &list), Err(PartialGuessError::WrongLength(3)));
    assert_eq!(read_partial_guess("ab3de", &list), Err(PartialGuessError::HasSymbols));
    assert!(matches!(read_partial_guess("zzzzz", &list), Err(PartialGuessError::NotInList(_))));
    assert!(read_partial_guess("Amber", &list).is_ok());
}

#[test]
fn guesses_limit_and_push() {
    let mut gs = Guesses::new(Some(GuessesLimit::new(2)));
    let g = Guess::from_str("amber");
    gs.push(g);
    gs.push(g);
    assert!(gs.limit_reached());
    gs.push(g);
    assert_eq!(gs.count(), 2);
    assert_eq!(gs.max(), Some(2));
    assert_eq!(Guesses::unlimited().max(), None);
    assert_eq!(Guesses::default_limit().max(), Some(6));
}

#[test]
fn unused_letters_after_a_guess() {
    let mut gs = Guesses::unlimited();
    gs.push(Guess::from_str("amber"));
    let unused = gs.unused_letters();
    assert!(!unused.contains('a'));
    assert!(!unused.contains('r'));
    assert!(unused.contains('z'));
    assert!(unused.contains('c'));
}

#[test]
fn guesses_emoji_rows() {
    let answer = Word::new("amber");
    let mut gs = Guesses::unlimited();
    gs.push(score(&answer, partial("arbor")));
    gs.push(score(&answer, partial("amber")));
    assert_eq!(gs.as_emoji(), "🟩⬛🟩⬛🟩\n🟩🟩🟩🟩🟩");
}

fn user(id: u64, name: &str) -> User {
    User { id: UserId(id), name: name.to_string() }
}

#[test]
fn users_join_only_in_servers() {
    let owner = user(1, "owner");
    let mut more = Users::more(&owner);
    assert_eq!(more.count(), 1);
    more.add(user(2, "two"));
    more.add(user(1, "owner again"));
    assert_eq!(more.count(), 2);
    assert!(more.contains(UserId(2)));
    assert!(more.contains(UserId(1)));
    assert!(!more.contains(UserId(3)));
    assert_eq!(more.user_map().len(), 1);

    let mut one = Users::one(&owner);
    one.add(user(2, "two"));
    assert_eq!(one.count(), 1);
    assert!(!one.contains(UserId(2)));
    assert_eq!(one.owner().name, "owner");
}

#[test]
fn user_map_replaces_same_id() {
    let mut m = UserMap::new();
    m.insert(user(5, "a"));
    m.insert(user(5, "b"));
    assert_eq!(m.len(), 1);
    assert_eq!(m.get(UserId(5)).map(|u| u.name.clone()), Some("b".to_string()));
}

fn puzzle_started(started: i64) -> DailyPuzzle {
    DailyPuzzle { number: 7, answer: Word::new("amber"), started }
}

#[test]
fn daily_wordle_ages() {
    let hour = 3_600_000i64;
    let w = DailyWordle::new(puzzle_started(0));
    assert!(w.is_recent_at(23 * hour));
    assert!(!w.is_old_at(23 * hour));
    assert!(w.is_old_at(24 * hour));
    assert!(!w.is_expired_at(47 * hour));
    assert!(w.is_expired_at(48 * hour));
    assert_eq!(w.age_hours_at(30 * hour + 5), 30);
    assert_eq!(w.age_hours_at(-hour - 1), -1);
}

#[test]
fn daily_wordle_players() {
    let games = vec![
        GameRecord::new(UserId(1), vec![], true),
        GameRecord::new(UserId(2), vec![Guess::from_str("arbor")], false),
        GameRecord::new(UserId(1), vec![], false),
    ];
    let w = DailyWordle::with_games(puzzle_started(0), games);
    assert!(w.played_by(UserId(1)));
    assert!(w.finished_by(UserId(1)));
    assert!(!w.in_progress_for(UserId(1)));
    assert!(w.in_progress_for(UserId(2)));
    assert!(!w.played_by(UserId(3)));
    assert!(w.is_playable_for_at(UserId(2), 0));
    assert!(!w.is_playable_for_at(UserId(1), 0));
    assert!(!w.is_playable_for_at(UserId(2), 48 * 3_600_000));
    assert_eq!(w.user_game(UserId(2)).map(|g| g.num_guesses()), Some(1));
}

#[test]
fn game_record_emoji() {
    let answer = Word::new("amber");
    let r = GameRecord::new(UserId(1), vec![score(&answer, partial("handy")), score(&answer, partial("amber"))], true);
    assert_eq!(r.as_emoji(), "⬛🟨⬛⬛⬛\n🟩🟩🟩🟩🟩");
}

#[test]
fn puzzle_titles() {
    assert_eq!(Puzzle::Random(Word::new("amber")).title(), "random wordle");
    assert_eq!(Puzzle::Daily(puzzle_started(0)).title(), "daily wordle 7");
    assert_eq!(Puzzle::Daily(puzzle_started(0)).number(), Some(7));
    assert_eq!(Puzzle::Random(Word::new("amber")).number(), None);
}

#[test]
fn game_message_content_and_buttons() {
    let mut gs = Guesses::new(Some(GuessesLimit::new(6)));
    gs.push(score(&Word::new("amber"), partial("arbor")));
    let text = GameMessage::content("random wordle", &gs, GameStyle::Colors);
    assert_eq!(text, "random wordle 1/6\n🟩⬛🟩⬛🟩");
    let text = GameMessage::content("random wordle", &Guesses::unlimited(), GameStyle::Colors);
    assert_eq!(text, "random wordle 0/∞\n");
    let stop = GameMessage::stop_buttons(true);
    assert_eq!(stop[0].custom_id, "pause");
    assert_eq!(stop[0].style, ButtonStyle::Primary);
    assert_eq!(stop[1].label, "give up");
    let stop = GameMessage::stop_buttons(false);
    assert_eq!(stop[0].custom_id, "cancel");
    assert_eq!(GameMessage::info_buttons()[0].label, "unused letters");
    let m = GameMessage::new(ChannelId(3), MessageId(4), GameStyle::Letters);
    assert_eq!(*m.channel_id(), ChannelId(3));
    assert_eq!(*m.message_id(), MessageId(4));
}

fn options() -> GameOptions {
    GameOptionsBuilder::default().style(Some(GameStyle::Colors)).build()
}

#[test]
fn game_steps_to_a_win() {
    let owner = user(1, "owner");
    let mut game = Game::new(Puzzle::Daily(puzzle_started(0)), options(), &owner, true);
    let step = game.step(GameEvent::Reply { author: user(2, "two"), read: Ok(partial("arbor")) });
    assert!(!step.stop);
    assert_eq!(
        step.actions,
        vec![
            GameAction::React('✅'),
            GameAction::EditBoard,
            GameAction::Save { number: 7, finished: false }
        ]
    );
    let step = game.step(GameEvent::Reply {
        author: user(2, "two"),
        read: Err(PartialGuessError::NotInList("zzzzz".to_string())),
    });
    assert_eq!(step.actions, vec![GameAction::React('❓')]);
    let step = game.step(GameEvent::Reply { author: user(1, "owner"), read: Ok(partial("amber")) });
    assert!(step.stop);
    assert_eq!(
        step.actions,
        vec![
            GameAction::React('✅'),
            GameAction::EditBoard,
            GameAction::Save { number: 7, finished: true },
            GameAction::AnswerGuess("you win!".to_string())
        ]
    );
    assert!(game.is_solved());
    let record = game.state(true);
    assert_eq!(record.user, UserId(1));
    assert_eq!(record.num_guesses(), 2);
}

#[test]
fn game_buttons() {
    let owner = user(1, "owner");
    let mut game = Game::new(Puzzle::Random(Word::new("amber")), options(), &owner, false);
    let step = game.step(GameEvent::Press { button: Button::Cancel, by: UserId(9) });
    assert_eq!(
        step.actions,
        vec![GameAction::AnswerPress("you can only manage a game you started!".to_string())]
    );
    let step = game.step(GameEvent::Press { button: Button::GiveUp, by: UserId(1) });
    assert_eq!(step.actions, vec![GameAction::AskConfirm("really give up?".to_string())]);
    let step = game.step(GameEvent::Confirm { button: Button::GiveUp, yes: false });
    assert!(!step.stop);
    assert!(step.actions.is_empty());
    let step = game.step(GameEvent::Press { button: Button::Unused, by: UserId(5) });
    assert_eq!(
        step.actions,
        vec![GameAction::AnswerPress(
            "unused letters: 🇦, 🇧, 🇨, 🇩, 🇪, 🇫, 🇬, 🇭, 🇮, 🇯, 🇰, 🇱, 🇲, 🇳, 🇴, 🇵, 🇶, 🇷, 🇸, 🇹, 🇺, 🇻, 🇼, 🇽, 🇾, 🇿"
                .to_string()
        )]
    );
    let step = game.step(GameEvent::Confirm { button: Button::GiveUp, yes: true });
    assert!(step.stop);
    assert_eq!(
        step.actions,
        vec![
            GameAction::AnswerBoard("the word was: amber".to_string()),
            GameAction::Finish("game over!".to_string())
        ]
    );
}

#[test]
fn pausing_a_daily_saves_it_unfinished() {
    let owner = user(1, "owner");
    let mut game = Game::new(Puzzle::Daily(puzzle_started(0)), options(), &owner, false);
    let step = game.step(GameEvent::Confirm { button: Button::Pause, yes: true });
    assert!(step.stop);
    assert_eq!(step.actions, vec![GameAction::Save { number: 7, finished: false }]);
    let step = game.step(GameEvent::Confirm { button: Button::Cancel, yes: true });
    assert!(step.stop);
    assert!(step.actions.is_empty());
}

#[test]
fn daily_updates_and_refresh() {
    let mut w = DailyWordle::new(puzzle_started(0));
    w.update_game(GameRecord::new(UserId(1), vec![], false));
    w.update_game(GameRecord::new(UserId(2), vec![], false));
    w.update_game(GameRecord::new(UserId(1), vec![Guess::from_str("amber")], true));
    assert!(w.finished_by(UserId(1)));
    assert_eq!(w.user_game(UserId(1)).map(|g| g.num_guesses()), Some(1));
    assert!(w.in_progress_for(UserId(2)));
    let hour = 3_600_000i64;
    assert!(slimebot::wordle::daily::needs_new_daily_at(None, 0));
    assert!(!slimebot::wordle::daily::needs_new_daily_at(Some(&w), 3 * hour));
    assert!(slimebot::wordle::daily::needs_new_daily_at(Some(&w), 25 * hour));
    assert!(slimebot::wordle::daily::needs_new_daily_at(Some(&w), 49 * hour));
    assert_eq!(slimebot::wordle::daily::next_number(None), 1);
    assert_eq!(slimebot::wordle::daily::next_number(Some(7)), 8);
}

#[test]
fn classic_checked_constructors() {
    assert!(Word::try_new("amber").is_some());
    assert!(Word::try_new("amb").is_none());
    let w = Word::try_new("AMBER").expect("five letters");
    assert_eq!(w.to_string(), "amber");
    assert!(w.try_guess("toolong").is_none());
    assert!(w.try_guess("amber").map(|g| g.all_correct()).unwrap_or(false));
}

#[test]
fn guess_helpers() {
    let g = score(&Word::new("amber"), partial("arbor"));
    assert!(g.eq_str("O.O.O"));
    assert!(!g.eq_str("OOOOO"));
    assert_eq!(g.get(0), ('a', LetterState::Correct));
    assert_eq!(GuessesLimit::new(6).to_string(), "6");
    let v = vec![g, score(&Word::new("amber"), partial("amber"))];
    assert_eq!(v.as_emoji(), "🟩⬛🟩⬛🟩\n🟩🟩🟩🟩🟩");
    use_to_partial_guess();
}

fn use_to_partial_guess() {
    let text: &str = "amber";
    assert!(text.to_partial_guess(&words()).is_ok());
    assert!("zzzzz".to_string().to_partial_guess(&words()).is_err());
}

#[test]
fn users_count_distinct_joiners() {
    let owner = user(7, "owner");
    let mut more = Users::more(&owner);
    for id in [3, 4, 3, 7, 5, 4, 3] {
        more.add(user(id, "someone"));
    }
    // 3, 4 and 5 joined, each once; the owner is never counted twice
    assert_eq!(more.count(), 4);
    assert_eq!(more.owner().id, UserId(7));
    assert!(more.contains(UserId(7)));
    assert!(more.contains(UserId(5)));
    assert!(!more.contains(UserId(6)));

    let mut one = Users::one(&owner);
    for id in [3, 4, 5] {
        one.add(user(id, "someone"));
    }
    assert_eq!(one.count(), 1);
    assert_eq!(one.owner().id, UserId(7));
}

#[test]
fn words_list_ignores_case() {
    let list = words();
    assert!(list.contains("amber"));
    assert!(list.contains("AMBER"));
    assert!(list.contains("OpAlS"));
    assert!(!list.contains("ambers"));
    assert!(!list.contains("crane"));
}
