//! The guessing game: a secret number fixed at the start, and one turn per
//! line of input until a guess hits the secret.

use vstd::prelude::*;

use crate::input::{guess_of, parse_guess};

verus! {

/// How a guess compares with the secret.
#[derive(Clone, Copy, Debug, PartialEq, Eq, Structural)]
pub enum Verdict {
    TooSmall,
    TooBig,
    Win,
}

/// The verdict that `guess` earns against `secret`.
pub open spec fn verdict_of(guess: u32, secret: u32) -> Verdict {
    if guess < secret {
        Verdict::TooSmall
    } else if guess > secret {
        Verdict::TooBig
    } else {
        Verdict::Win
    }
}

/// Three-way comparison of a guess with the secret.
pub fn judge(guess: u32, secret: u32) -> (v: Verdict)
    ensures
        v == verdict_of(guess, secret),
{
    match guess.cmp(&secret) {
        core::cmp::Ordering::Less => Verdict::TooSmall,
        core::cmp::Ordering::Greater => Verdict::TooBig,
        core::cmp::Ordering::Equal => Verdict::Win,
    }
}

/// The least secret a game may have.
pub const SECRET_LOW: u32 = 1;

/// One past the greatest secret a game may have.
pub const SECRET_HIGH: u32 = 101;

pub open spec fn valid_secret(secret: u32) -> bool {
    SECRET_LOW <= secret < SECRET_HIGH
}

/// What one line of input brought about.
#[derive(Clone, Copy, Debug, PartialEq, Eq, Structural)]
pub enum Turn {
    /// The line held no number; it was ignored.
    Discarded,
    /// The line held this guess, which earned this verdict.
    Judged(u32, Verdict),
}

/// Whether a turn ends the game.
pub open spec fn wins(t: Turn) -> bool {
    t is Judged && t->Judged_1 == Verdict::Win
}

/// The turn that `line` makes against `secret`.
pub open spec fn turn_of(secret: u32, line: Seq<char>) -> Turn {
    match guess_of(line) {
        Some(g) => Turn::Judged(g, verdict_of(g, secret)),
        None => Turn::Discarded,
    }
}

/// The turns of a game against `secret` fed `lines`: one per line, up to and
/// including the first that wins.
pub open spec fn session(secret: u32, lines: Seq<Seq<char>>) -> Seq<Turn>
    decreases lines.len(),
{
    if lines.len() == 0 {
        Seq::empty()
    } else {
        let t = turn_of(secret, lines[0]);
        if wins(t) {
            seq![t]
        } else {
            seq![t] + session(secret, lines.drop_first())
        }
    }
}

/// The text of each line.
pub open spec fn texts(lines: Seq<&str>) -> Seq<Seq<char>> {
    lines.map_values(|l: &str| l@)
}

/// Relies on `rand::thread_rng` and `Rng::gen_range`: a value drawn from
/// `low..high`, which must not be empty.
#[verifier::external_body]
fn random_below(low: u32, high: u32) -> (r: u32)
    requires
        low < high,
    ensures
        low <= r < high,
{
    rand::Rng::gen_range(&mut rand::thread_rng(), low..high)
}

/// One game: the secret, and whether it has been guessed.
pub struct Game {
    secret: u32,
    over: bool,
}

impl Game {
    #[verifier::type_invariant]
    spec fn secret_in_range(&self) -> bool {
        valid_secret(self.secret)
    }

    /// The number to be guessed.
    pub closed spec fn secret(&self) -> u32 {
        self.secret
    }

    /// Whether the secret has been guessed.
    pub closed spec fn over(&self) -> bool {
        self.over
    }

    /// A game with a given secret; `None` unless the secret lies in
    /// `SECRET_LOW..SECRET_HIGH`.
    pub fn new(secret: u32) -> (r: Option<Game>)
        ensures
            r is Some <==> valid_secret(secret),
            r matches Some(g) ==> g.secret() == secret && !g.over(),
    {
        if SECRET_LOW <= secret && secret < SECRET_HIGH {
            Some(Game { secret, over: false })
        } else {
            None
        }
    }

    /// A game with a secret drawn at random from `SECRET_LOW..SECRET_HIGH`.
    pub fn start() -> (r: Game)
        ensures
            valid_secret(r.secret()),
            !r.over(),
    {
        let secret = random_below(SECRET_LOW, SECRET_HIGH);
        Game { secret, over: false }
    }

    /// Whether the secret has been guessed.
    pub fn is_over(&self) -> (r: bool)
        ensures
            r == self.over(),
    {
        self.over
    }

    /// Plays one line of input: a line without a number is discarded and
    /// changes nothing; a guess is judged, and a hit ends the game.
    pub fn take_turn(&mut self, line: &str) -> (t: Turn)
        requires
            !old(self).over(),
        ensures
            t == turn_of(old(self).secret(), line@),
            final(self).secret() == old(self).secret(),
            final(self).over() == wins(t),
    {
        match parse_guess(line) {
            Some(g) => {
                let v = judge(g, self.secret);
                if v == Verdict::Win {
                    proof {
                        use_type_invariant(&*self);
                    }
                    self.over = true;
                }
                Turn::Judged(g, v)
            },
            None => Turn::Discarded,
        }
    }

    /// Plays the lines in order until one wins or none are left, and returns
    /// the turn of each line played.
    pub fn play(&mut self, lines: &[&str]) -> (turns: Vec<Turn>)
        requires
            !old(self).over(),
        ensures
            turns@ == session(old(self).secret(), texts(lines@)),
            final(self).secret() == old(self).secret(),
            final(self).over() == (turns@.len() > 0 && wins(turns@.last())),
    {
        let ghost secret = self.secret();
        let ghost all = texts(lines@);
        let mut turns: Vec<Turn> = Vec::new();
        let mut i: usize = 0;
        assert(all.skip(0) =~= all);
        while i < lines.len()
            invariant
                0 <= i <= lines.len(),
                all == texts(lines@),
                secret == old(self).secret(),
                self.secret() == secret,
                !self.over(),
                turns@.len() > 0 ==> !wins(turns@.last()),
                turns@ + session(secret, all.skip(i as int)) == session(secret, all),
            decreases lines.len() - i,
        {
            let t = self.take_turn(lines[i]);
            let ghost before = turns@;
            let ghost rest = all.skip(i as int);
            assert(rest[0] == lines@[i as int]@);
            assert(rest.drop_first() =~= all.skip(i + 1));
            turns.push(t);
            i = i + 1;
            if self.is_over() {
                assert(session(secret, rest) == seq![t]);
                assert(turns@ =~= before + seq![t]);
                return turns;
            }
            assert(session(secret, rest) == seq![t] + session(secret, all.skip(i as int)));
            assert(turns@ + session(secret, all.skip(i as int)) =~= before + session(secret, rest));
        }
        assert(all.skip(i as int) =~= Seq::<Seq<char>>::empty());
        assert(turns@ =~= turns@ + session(secret, all.skip(i as int)));
        turns
    }
}

/// A turn ends the game exactly when the line's guess is the secret.
pub proof fn lemma_win_iff_secret(secret: u32, line: Seq<char>)
    ensures
        wins(turn_of(secret, line)) <==> guess_of(line) == Some(secret),
{
}

/// Fed a run of lines, a game gives each line played the turn that its own
/// guess earns (too small below the secret, too big above it), never stops
/// before a guess equals the secret, and stops at the first one that does.
pub proof fn lemma_session_stops_at_secret(secret: u32, lines: Seq<Seq<char>>)
    ensures
        session(secret, lines).len() <= lines.len(),
        forall|k: int|
            0 <= k < session(secret, lines).len() ==> #[trigger] session(secret, lines)[k]
                == turn_of(secret, lines[k]),
        forall|k: int|
            0 <= k < session(secret, lines).len() - 1 ==> guess_of(lines[k]) != Some(secret),
        session(secret, lines).len() < lines.len() ==> guess_of(
            lines[session(secret, lines).len() - 1],
        ) == Some(secret),
        (session(secret, lines).len() > 0 && wins(session(secret, lines).last())) <==> exists|
            k: int,
        |
            0 <= k < lines.len() && guess_of(#[trigger] lines[k]) == Some(secret),
    decreases lines.len(),
{
    if lines.len() > 0 {
        let t = turn_of(secret, lines[0]);
        let rest = lines.drop_first();
        lemma_win_iff_secret(secret, lines[0]);
        lemma_session_stops_at_secret(secret, rest);
        if !wins(t) {
            let tail = session(secret, rest);
            let all = session(secret, lines);
            assert(all == seq![t] + tail);
            assert forall|k: int| 0 <= k < all.len() implies #[trigger] all[k] == turn_of(
                secret,
                lines[k],
            ) by {
                if k > 0 {
                    assert(all[k] == tail[k - 1]);
                    assert(rest[k - 1] == lines[k]);
                }
            }
            assert forall|k: int| 0 <= k < all.len() - 1 implies guess_of(lines[k]) != Some(
                secret,
            ) by {
                if k > 0 {
                    assert(rest[k - 1] == lines[k]);
                }
            }
            if exists|k: int| 0 <= k < lines.len() && guess_of(#[trigger] lines[k]) == Some(secret) {
                let k = choose|k: int| 0 <= k < lines.len() && guess_of(#[trigger] lines[k]) == Some(secret);
                assert(k > 0);
                assert(rest[k - 1] == lines[k]);
            }
            if tail.len() > 0 && wins(tail.last()) {
                let j = choose|j: int| 0 <= j < rest.len() && guess_of(#[trigger] rest[j]) == Some(secret);
                assert(rest[j] == lines[j + 1]);
            }
            if tail.len() > 0 {
                assert(all.last() == tail.last());
            }
        }
    }
}

/// A line that holds no number is discarded and leaves the game where it
/// was: what follows plays out as if the line had not been there.
pub proof fn lemma_malformed_line_discarded(secret: u32, line: Seq<char>, rest: Seq<Seq<char>>)
    requires
        guess_of(line) is None,
    ensures
        turn_of(secret, line) == Turn::Discarded,
        session(secret, seq![line] + rest) == seq![Turn::Discarded] + session(secret, rest),
{
    assert((seq![line] + rest)[0] == line);
    assert((seq![line] + rest).drop_first() =~= rest);
}

} // verus!
