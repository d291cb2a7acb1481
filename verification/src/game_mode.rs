//! Score keeping: the counters of a round, moved only by the deaths of
//! enemies.

use crate::enemy::EnemyEvent;
use vstd::prelude::*;

verus! {

/// The counters of the game. `score` and `wave` belong to the round;
/// `highest_score` outlives it.
#[derive(Clone, Copy, Debug, PartialEq, Eq, Structural)]
pub struct GameModeData {
    pub score: u32,
    pub highest_score: u32,
    pub wave: u8,
}

/// A counter changed; each notice carries the new value.
#[derive(Clone, Copy, Debug, PartialEq, Eq, Structural)]
pub enum GameModeEvent {
    ScoreChanged(u32),
    HighestScoreChanged(u32),
    WaveChanged(u8),
}

/// One more than `v`, unless `v` is already `max`.
pub open spec fn bumped(v: int, max: int) -> int {
    if v < max {
        v + 1
    } else {
        max
    }
}

impl GameModeData {
    /// The highest score is never below the score.
    pub open spec fn wf(self) -> bool {
        self.highest_score >= self.score
    }

    /// The counters at the start of a round: score and wave at zero, the
    /// highest score as it was.
    pub open spec fn restarted(self) -> GameModeData {
        GameModeData { score: 0, highest_score: self.highest_score, wave: 0 }
    }

    /// The counters after one death, with `live` enemies in the row at the
    /// time, the dying one among them. The score goes up by one and takes
    /// the highest score with it once it passes it; the death of the last
    /// enemy standing moves the wave on. Counters that are full stay full.
    pub open spec fn after_death(self, live: nat) -> GameModeData {
        let score = bumped(self.score as int, u32::MAX as int) as u32;
        GameModeData {
            score,
            highest_score: if score > self.highest_score {
                score
            } else {
                self.highest_score
            },
            wave: if live == 1 {
                bumped(self.wave as int, u8::MAX as int) as u8
            } else {
                self.wave
            },
        }
    }

    /// The notices that one death posts: always the new score; the new
    /// highest score if the score passed it; the new wave if the wave moved
    /// on.
    pub open spec fn death_notices(self, live: nat) -> Seq<GameModeEvent> {
        let after = self.after_death(live);
        let score = seq![GameModeEvent::ScoreChanged(after.score)];
        let highest = if after.score > self.highest_score {
            seq![GameModeEvent::HighestScoreChanged(after.highest_score)]
        } else {
            Seq::empty()
        };
        let wave = if live == 1 {
            seq![GameModeEvent::WaveChanged(after.wave)]
        } else {
            Seq::empty()
        };
        score + highest + wave
    }

    /// The counters after `n` deaths.
    pub open spec fn after_deaths(self, live: nat, n: nat) -> GameModeData
        decreases n,
    {
        if n == 0 {
            self
        } else {
            self.after_deaths(live, (n - 1) as nat).after_death(live)
        }
    }

    /// The notices that `n` deaths post, in order.
    pub open spec fn notices(self, live: nat, n: nat) -> Seq<GameModeEvent>
        decreases n,
    {
        if n == 0 {
            Seq::empty()
        } else {
            self.notices(live, (n - 1) as nat) + self.after_deaths(
                live,
                (n - 1) as nat,
            ).death_notices(live)
        }
    }

    /// No death lowers a counter, and after a death the highest score is
    /// not below the score.
    pub proof fn lemma_after_death(self, live: nat)
        ensures
            self.after_death(live).score >= self.score,
            self.after_death(live).highest_score >= self.highest_score,
            self.after_death(live).wave >= self.wave,
            self.after_death(live).wf(),
    {
    }

    /// No number of deaths lowers a counter or lets the score pass the
    /// highest score.
    pub proof fn lemma_after_deaths(self, live: nat, n: nat)
        ensures
            self.after_deaths(live, n).score >= self.score,
            self.after_deaths(live, n).highest_score >= self.highest_score,
            self.after_deaths(live, n).wave >= self.wave,
            self.wf() ==> self.after_deaths(live, n).wf(),
        decreases n,
    {
        if n > 0 {
            self.lemma_after_deaths(live, (n - 1) as nat);
            self.after_deaths(live, (n - 1) as nat).lemma_after_death(live);
        }
    }

    /// Counters at zero.
    pub fn new() -> (data: GameModeData)
        ensures
            data == (GameModeData { score: 0, highest_score: 0, wave: 0 }),
            data.wf(),
    {
        GameModeData { score: 0, highest_score: 0, wave: 0 }
    }

    /// Starts a round: score and wave go back to zero.
    pub fn reset(&mut self)
        ensures
            *final(self) == old(self).restarted(),
            final(self).wf(),
    {
        self.score = 0;
        self.wave = 0;
    }

    /// Counts one death and posts what changed.
    pub fn record_death(&mut self, live_enemies: usize, notices: &mut Vec<GameModeEvent>)
        ensures
            *final(self) == old(self).after_death(live_enemies as nat),
            final(notices)@ == old(notices)@ + old(self).death_notices(live_enemies as nat),
    {
        if self.score < u32::MAX {
            self.score = self.score + 1;
        }
        notices.push(GameModeEvent::ScoreChanged(self.score));
        if self.score > self.highest_score {
            self.highest_score = self.score;
            notices.push(GameModeEvent::HighestScoreChanged(self.highest_score));
        }
        if live_enemies == 1 {
            if self.wave < u8::MAX {
                self.wave = self.wave + 1;
            }
            notices.push(GameModeEvent::WaveChanged(self.wave));
        }
        proof {
            assert(notices@ =~= old(notices)@ + old(self).death_notices(live_enemies as nat));
        }
    }
}

/// Counts the deaths of enemies. Each death notice raises the score by one
/// and posts the new score; a score above the highest score becomes the
/// highest score, which is posted too; and a death while only one enemy is
/// left in the row clears the wave, which moves the wave counter on and
/// posts it. `live_enemies` is the number of enemies in the row while the
/// notices are handled, the dying ones still among them.
pub fn listen_enemy_event(
    events: &Vec<EnemyEvent>,
    live_enemies: usize,
    data: &mut GameModeData,
    notices: &mut Vec<GameModeEvent>,
)
    ensures
        *final(data) == old(data).after_deaths(live_enemies as nat, events.len() as nat),
        final(notices)@ == old(notices)@ + old(data).notices(
            live_enemies as nat,
            events.len() as nat,
        ),
        final(data).score >= old(data).score,
        final(data).highest_score >= old(data).highest_score,
        final(data).wave >= old(data).wave,
        old(data).wf() ==> final(data).wf(),
        events.len() == 0 ==> *final(data) == *old(data) && final(notices)@ == old(notices)@,
{
    let mut k: usize = 0;
    while k < events.len()
        invariant
            k <= events.len(),
            *data == old(data).after_deaths(live_enemies as nat, k as nat),
            notices@ == old(notices)@ + old(data).notices(live_enemies as nat, k as nat),
        decreases events.len() - k,
    {
        data.record_death(live_enemies, notices);
        k = k + 1;
        proof {
            assert(notices@ =~= old(notices)@ + old(data).notices(live_enemies as nat, k as nat));
        }
    }
    proof {
        old(data).lemma_after_deaths(live_enemies as nat, events.len() as nat);
    }
}

} // verus!
