use slimebot::watchers::haiku::{check_haiku, syllables};

fn lines(v: &[&str]) -> Option<Vec<String>> {
    Some(v.iter().map(|s| s.to_string()).collect())
}

#[test]
fn haiku_five() {
    assert_eq!(
        check_haiku("five five five five five seven seven seven one five five five five five"),
        lines(&["five five five five five", "seven seven seven one", "five five five five five"])
    );
}

#[test]
fn haiku_olive() {
    assert_eq!(
        check_haiku("a haze of olive encompassing points of white vibrantly muted"),
        lines(&["a haze of olive", "encompassing points of white", "vibrantly muted"])
    );
}

#[test]
fn haiku_honey() {
    assert_eq!(
        check_haiku("i am warm honey i am sweet cream and cherries lick me like candy"),
        lines(&["i am warm honey", "i am sweet cream and cherries", "lick me like candy"])
    );
}

#[test]
fn haiku_stew() {
    assert_eq!(
        check_haiku("all the days blending together into a stew but not a good stew"),
        lines(&["all the days blending", "together into a stew", "but not a good stew"])
    );
}

#[test]
fn haiku_tumblr() {
    assert_eq!(
        check_haiku("anything that one haiku bot on tumblr posts turns out pretty good"),
        lines(&["anything that one", "haiku bot on tumblr posts", "turns out pretty good"])
    );
}

#[test]
fn haiku_bigfoot() {
    assert_eq!(
        check_haiku("i got a picture with bigfoot and the ancient aliens dude slay"),
        lines(&["i got a picture", "with bigfoot and the ancient", "aliens dude slay"])
    );
}

#[test]
fn haiku_cool() {
    assert_eq!(
        check_haiku("look at all the cool things that you find when you are trying to help people"),
        lines(&["look at all the cool", "things that you find when you are", "trying to help people"])
    );
}

#[test]
fn haiku_a() {
    assert_eq!(
        check_haiku("a a a a a a a a a a a a a a a a a"),
        lines(&["a a a a a", "a a a a a a a", "a a a a a"])
    );
}

#[test]
fn not_haiku_what() {
    assert!(check_haiku("what").is_none());
}

#[test]
fn haiku_running_totals() {
    // a word of no syllables after the first line opens the second; words past the
    // seventeenth syllable are left out
    assert_eq!(
        check_haiku("five five five five five hmm seven seven seven one five five five five five and more"),
        lines(&["five five five five five", "hmm seven seven seven one", "five five five five five"])
    );
    // the running totals pass 5 without reaching it
    assert!(check_haiku("seven seven seven five five five five five five five five five five").is_none());
    // the words run out before 17
    assert!(check_haiku("five five five five five seven seven seven one").is_none());
    assert!(check_haiku("").is_none());
}

#[test]
fn syllables_listed_counts() {
    assert_eq!(syllables("five"), 1);
    assert_eq!(syllables("seven"), 2);
    assert_eq!(syllables("vibrantly"), 3);
    assert_eq!(syllables("cherries"), 2);
    assert_eq!(syllables("blending"), 2);
    assert_eq!(syllables("together"), 3);
    assert_eq!(syllables("the"), 1);
    assert_eq!(syllables("tumblr"), 2);
}

#[test]
fn syllables_rules() {
    assert_eq!(syllables("muted"), 2);
    assert_eq!(syllables("needed"), 2);
    assert_eq!(syllables("played"), 1);
    assert_eq!(syllables("trying"), 2);
    assert_eq!(syllables("being"), 2);
    assert_eq!(syllables("blending"), 2);
    assert_eq!(syllables("whole"), 1);
    assert_eq!(syllables("cringe"), 1);
    assert_eq!(syllables("aliens"), 3);
    assert_eq!(syllables("hmm"), 0);
    assert_eq!(syllables("cringes"), 1);
    assert_eq!(syllables("Eat"), 1);
}
