//! Snowflake-style identifier generator: 41 bits of milliseconds since a fixed
//! epoch, 10 bits of node number and 12 bits of per-millisecond sequence.
use vstd::prelude::*;

use crate::clock::now_unix_millis;

verus! {

/// Fixed reference instant of the timestamp field: 2021-01-01T00:00:00Z, in Unix milliseconds.
pub const EPOCH: i64 = 1609459200000;

/// Width of the node field.
pub const NODE_ID_BITS: i64 = 10;

/// Width of the sequence field.
pub const SEQUENCE_BITS: i64 = 12;

/// Largest node number: `2^NODE_ID_BITS - 1`.
pub const MAX_NODE_ID: i64 = 1023;

/// Largest sequence number: `2^SEQUENCE_BITS - 1`.
pub const MAX_SEQUENCE: i64 = 4095;

/// Largest timestamp that fits beside the node and sequence fields in a non-negative `i64`.
pub const MAX_TIMESTAMP: i64 = 2199023255551;

/// The node number handed to `SnowflakeGenerator::new` lies outside `0..=MAX_NODE_ID`.
#[derive(Debug, PartialEq, Eq, Structural)]
pub struct ConfigurationError {
    pub node_id: i64,
}

/// Abstract state of a generator.
pub struct GeneratorState {
    pub node_id: int,
    pub last_timestamp: int,
    pub sequence: int,
}

impl GeneratorState {
    pub open spec fn valid(self) -> bool {
        &&& 0 <= self.node_id <= MAX_NODE_ID
        &&& 0 <= self.last_timestamp <= MAX_TIMESTAMP
        &&& 0 <= self.sequence <= MAX_SEQUENCE
    }
}

/// The id packed from its three fields: `(timestamp << 22) | (node_id << 12) | sequence`,
/// written as arithmetic since the fields do not overlap.
pub open spec fn pack(timestamp: int, node_id: int, sequence: int) -> int {
    timestamp * 4194304 + node_id * 4096 + sequence
}

/// The id that describes a state: its node, last timestamp and sequence.
pub open spec fn id_of(s: GeneratorState) -> int {
    pack(s.last_timestamp, s.node_id, s.sequence)
}

/// `(timestamp, sequence)` of `a` comes strictly before that of `b`.
pub open spec fn lex_less(a: GeneratorState, b: GeneratorState) -> bool {
    a.last_timestamp < b.last_timestamp || (a.last_timestamp == b.last_timestamp && a.sequence
        < b.sequence)
}

/// The state after minting one id at clock step `now`, or `None` when the current
/// millisecond's sequence is used up and the caller must wait for a later step.
/// A step behind the last timestamp is clamped forward to it.
pub open spec fn advance(s: GeneratorState, now: int) -> Option<GeneratorState> {
    let step = if now < s.last_timestamp {
        s.last_timestamp
    } else {
        now
    };
    if step > s.last_timestamp {
        Some(GeneratorState { node_id: s.node_id, last_timestamp: step, sequence: 0 })
    } else if s.sequence < MAX_SEQUENCE {
        Some(
            GeneratorState {
                node_id: s.node_id,
                last_timestamp: s.last_timestamp,
                sequence: s.sequence + 1,
            },
        )
    } else {
        None
    }
}

/// `t` is what `s` becomes after minting at some clock step.
pub open spec fn successor(s: GeneratorState, t: GeneratorState) -> bool {
    exists|now: int| 0 <= now <= MAX_TIMESTAMP && #[trigger] advance(s, now) == Some(t)
}

/// Clock step for a reading in Unix milliseconds: milliseconds since `EPOCH`,
/// held within `0..=MAX_TIMESTAMP`.
pub open spec fn step_of(unix_millis: int) -> int {
    if unix_millis <= EPOCH {
        0
    } else if unix_millis - EPOCH > MAX_TIMESTAMP {
        MAX_TIMESTAMP as int
    } else {
        unix_millis - EPOCH
    }
}

pub struct SnowflakeGenerator {
    node_id: i64,
    last_timestamp: i64,
    sequence: i64,
}

impl View for SnowflakeGenerator {
    type V = GeneratorState;

    closed spec fn view(&self) -> GeneratorState {
        GeneratorState {
            node_id: self.node_id as int,
            last_timestamp: self.last_timestamp as int,
            sequence: self.sequence as int,
        }
    }
}

impl SnowflakeGenerator {
    pub open spec fn wf(&self) -> bool {
        self@.valid()
    }

    /// A generator for `node_id`, which must lie in `0..=MAX_NODE_ID`.
    pub fn new(node_id: i64) -> (r: Result<SnowflakeGenerator, ConfigurationError>)
        ensures
            r is Ok <==> 0 <= node_id <= MAX_NODE_ID,
            r matches Ok(g) ==> g.wf() && g@ == (GeneratorState {
                node_id: node_id as int,
                last_timestamp: 0,
                sequence: 0,
            }),
            r matches Err(e) ==> e.node_id == node_id,
    {
        if node_id < 0 || node_id > MAX_NODE_ID {
            return Err(ConfigurationError { node_id });
        }
        Ok(SnowflakeGenerator { node_id, last_timestamp: 0, sequence: 0 })
    }

    /// Clock step for a clock reading given in Unix milliseconds.
    pub fn step_from_unix_millis(unix_millis: i64) -> (r: i64)
        ensures
            r == step_of(unix_millis as int),
            0 <= r <= MAX_TIMESTAMP,
    {
        if unix_millis <= EPOCH {
            0
        } else if unix_millis - EPOCH > MAX_TIMESTAMP {
            MAX_TIMESTAMP
        } else {
            unix_millis - EPOCH
        }
    }

    /// Current clock step: milliseconds since `EPOCH` by the wall clock.
    pub fn timestamp() -> (r: i64)
        ensures
            0 <= r <= MAX_TIMESTAMP,
    {
        Self::step_from_unix_millis(now_unix_millis())
    }

    /// The node number this generator was made for.
    pub fn node_id(&self) -> (r: i64)
        ensures
            r == self@.node_id,
    {
        self.node_id
    }

    /// Mints the next id at clock step `now`, or returns `None`, leaving the state
    /// alone, when 4096 ids were already minted in the last millisecond and `now`
    /// has not moved past it.
    pub fn next_id(&mut self, now: i64) -> (r: Option<i64>)
        requires
            old(self).wf(),
            0 <= now <= MAX_TIMESTAMP,
        ensures
            final(self).wf(),
            match r {
                Some(id) => advance(old(self)@, now as int) == Some(final(self)@) && id == id_of(
                    final(self)@,
                ),
                None => advance(old(self)@, now as int) is None && final(self)@ == old(self)@,
            },
    {
        let mut step = now;
        if step < self.last_timestamp {
            step = self.last_timestamp;
        }
        if step == self.last_timestamp {
            let next: i64 = self.sequence + 1;
            let seq = next & MAX_SEQUENCE;
            assert(1 <= next <= 4096 ==> ((next & 4095i64) == 0 <==> next == 4096) && (next
                < 4096 ==> (next & 4095i64) == next)) by (bit_vector);
            if seq == 0 {
                return None;
            }
            self.sequence = seq;
        } else {
            self.last_timestamp = step;
            self.sequence = 0;
        }
        let t = self.last_timestamp;
        let n = self.node_id;
        let q = self.sequence;
        assert(0 <= t <= 2199023255551i64 && 0 <= n <= 1023i64 && 0 <= q <= 4095i64 ==> ((t << 22i64) | (n
            << 12i64) | q) == t * 4194304i64 + n * 4096i64 + q) by (bit_vector);
        Some((t << (NODE_ID_BITS + SEQUENCE_BITS)) | (n << SEQUENCE_BITS) | q)
    }

    /// Mints the next id from the wall clock. While the current millisecond's
    /// sequence is used up it re-reads the clock, at most `max_polls` more times,
    /// and returns `None` if the millisecond has still not advanced by then.
    pub fn generate(&mut self, max_polls: u64) -> (r: Option<i64>)
        requires
            old(self).wf(),
        ensures
            final(self).wf(),
            match r {
                Some(id) => successor(old(self)@, final(self)@) && id == id_of(final(self)@),
                None => final(self)@ == old(self)@ && old(self)@.sequence == MAX_SEQUENCE,
            },
            old(self)@.sequence < MAX_SEQUENCE ==> r is Some,
    {
        let ghost start = self@;
        let mut polls: u64 = 0;
        loop
            invariant
                self.wf(),
                self@ == start,
                start == old(self)@,
                polls <= max_polls,
            decreases max_polls - polls,
        {
            let now = Self::timestamp();
            match self.next_id(now) {
                Some(id) => {
                    assert(advance(start, now as int) == Some(self@));
                    return Some(id);
                },
                None => {
                    if polls == max_polls {
                        return None;
                    }
                    polls = polls + 1;
                },
            }
        }
    }
}

/// Minting never goes back: the new state keeps the node, its `(timestamp, sequence)`
/// comes strictly after the old one, and so does its id.
pub proof fn lemma_advance_increases(s: GeneratorState, now: int)
    requires
        s.valid(),
        0 <= now <= MAX_TIMESTAMP,
        advance(s, now) is Some,
    ensures
        advance(s, now)->0.valid(),
        advance(s, now)->0.node_id == s.node_id,
        lex_less(s, advance(s, now)->0),
        s.last_timestamp <= advance(s, now)->0.last_timestamp,
        id_of(s) < id_of(advance(s, now)->0),
{
}

/// Over any run of one generator, every id minted is strictly larger than each
/// one minted before it, so no two are equal, no two share a `(timestamp, sequence)`
/// pair, and timestamps never decrease in the order of the calls.
pub proof fn lemma_run_increasing(states: Seq<GeneratorState>, i: int, j: int)
    requires
        states.len() > 0,
        states[0].valid(),
        forall|k: int| 0 <= k < states.len() - 1 ==> successor(states[k], #[trigger] states[k + 1]),
        0 <= i < j < states.len(),
    ensures
        lex_less(states[i], states[j]),
        states[i].last_timestamp <= states[j].last_timestamp,
        id_of(states[i]) < id_of(states[j]),
        states[j].valid(),
        states[j].node_id == states[0].node_id,
    decreases j,
{
    if j > 0 {
        let p = j - 1;
        assert(successor(states[p], states[p + 1]));
        let now = choose|now: int| 0 <= now <= MAX_TIMESTAMP && #[trigger] advance(states[p], now) == Some(
            states[p + 1],
        );
        if p == 0 {
            lemma_advance_increases(states[p], now);
        } else {
            lemma_run_increasing(states, 0, p);
            lemma_advance_increases(states[p], now);
            if i < p {
                lemma_run_increasing(states, i, p);
            }
        }
    }
}

} // verus!
