//! Block planning for the sawtooth oscillator.
//!
//! The oscillator renders one block of `N` samples per call. With no input it
//! runs at its own frequency; with a modulation input its phase advances by the
//! last non-zero modulation value; and when its last input carries a clock it
//! renders at most once per clock tick, replaying the block it cached for that
//! tick when it is processed again. The sample arithmetic is floating point and
//! stays with the caller; this module holds the decisions and the cached block,
//! whose samples it keeps as their bit patterns.

use vstd::prelude::*;

verus! {

/// What one block of processing sees of the oscillator's inputs.
#[derive(Clone, Copy, Debug, PartialEq, Eq, Structural)]
pub struct BlockInputs {
    /// Number of connected inputs.
    pub count: usize,
    /// Whether the last input carries a clock: its first sample is a multiple
    /// of 128 and its second sample is zero.
    pub last_is_clock: bool,
    /// The first sample of the last input, read as a sample position.
    pub tick: usize,
}

/// How the phase advances from sample to sample.
#[derive(Clone, Copy, Debug, PartialEq, Eq, Structural)]
pub enum Rate {
    /// By the oscillator's own frequency over the sample rate.
    Frequency,
    /// By the last non-zero value of the first input over the sample rate.
    Modulation,
}

/// What to do with the output buffer for one block.
#[derive(Clone, Copy, Debug, PartialEq, Eq, Structural)]
pub enum Action {
    /// More than two inputs: leave the output and the state untouched.
    Skip,
    /// The block for this clock tick was already rendered: copy the cached block.
    Replay,
    /// Render a fresh block; when `record` holds, cache it under the input tick.
    Render { rate: Rate, record: bool },
}

impl BlockInputs {
    /// The block is paced by a clock on its last input: a lone clock input, or
    /// a modulation input followed by a clock input.
    pub open spec fn is_clocked(self) -> bool {
        ||| self.count == 1 && self.last_is_clock
        ||| self.count == 2
    }
}

/// The action for a block, given the tick of the last cached block (0 when no
/// block was cached yet).
pub open spec fn planned(last_tick: usize, inputs: BlockInputs) -> Action {
    if inputs.count > 2 {
        Action::Skip
    } else if inputs.is_clocked() {
        if last_tick != 0 && last_tick == inputs.tick {
            Action::Replay
        } else {
            Action::Render {
                rate: if inputs.count == 1 { Rate::Frequency } else { Rate::Modulation },
                record: true,
            }
        }
    } else if inputs.count == 0 {
        Action::Render { rate: Rate::Frequency, record: false }
    } else {
        Action::Render { rate: Rate::Modulation, record: false }
    }
}

/// The tick of the cached block once a block planned from `inputs` has been
/// handled as planned.
pub open spec fn tick_after(last_tick: usize, inputs: BlockInputs) -> usize {
    match planned(last_tick, inputs) {
        Action::Render { record: true, .. } => inputs.tick,
        _ => last_tick,
    }
}

/// The clock-gating state of a sawtooth oscillator that renders blocks of `N`
/// samples: the tick of the last cached block and that block.
pub struct SawClock<const N: usize> {
    tick: usize,
    block: Vec<u32>,
}

impl<const N: usize> SawClock<N> {
    #[verifier::type_invariant]
    spec fn block_fits(self) -> bool {
        self.block.len() == N
    }

    /// The tick under which the cached block was rendered; 0 before any.
    pub closed spec fn last_tick(self) -> usize {
        self.tick
    }

    /// The bit patterns of the cached block's samples.
    pub closed spec fn cached(self) -> Seq<u32> {
        self.block@
    }

    /// A fresh state: no tick seen, and a silent block cached.
    pub fn new() -> (s: Self)
        ensures
            s.last_tick() == 0,
            s.cached() == Seq::new(N as nat, |i: int| 0u32),
    {
        let block = vec![0u32; N];
        SawClock { tick: 0, block }
    }

    /// The tick of the last cached block.
    pub fn tick(&self) -> (t: usize)
        ensures
            t == self.last_tick(),
    {
        self.tick
    }

    /// The cached block, `N` sample bit patterns.
    pub fn block(&self) -> (b: &[u32])
        ensures
            b@ == self.cached(),
            b@.len() == N,
    {
        proof {
            use_type_invariant(self);
        }
        self.block.as_slice()
    }

    /// Decides what to do with the next block.
    pub fn plan(&self, inputs: BlockInputs) -> (a: Action)
        ensures
            a == planned(self.last_tick(), inputs),
            inputs.count > 2 ==> a == Action::Skip,
            ((inputs.count == 1 && inputs.last_is_clock) || inputs.count == 2) ==> (a
                == Action::Replay <==> (self.last_tick() != 0 && inputs.tick
                == self.last_tick())),
            (inputs.count == 1 && inputs.last_is_clock) && a != Action::Replay ==> a
                == (Action::Render { rate: Rate::Frequency, record: true }),
            inputs.count == 2 && a != Action::Replay ==> a == (Action::Render {
                rate: Rate::Modulation,
                record: true,
            }),
            inputs.count == 0 ==> a == (Action::Render { rate: Rate::Frequency, record: false }),
            inputs.count == 1 && !inputs.last_is_clock ==> a == (Action::Render {
                rate: Rate::Modulation,
                record: false,
            }),
    {
        if inputs.count > 2 {
            return Action::Skip;
        }
        let clocked = (inputs.count == 1 && inputs.last_is_clock) || inputs.count == 2;
        if clocked {
            if self.tick != 0 && self.tick == inputs.tick {
                Action::Replay
            } else if inputs.count == 1 {
                Action::Render { rate: Rate::Frequency, record: true }
            } else {
                Action::Render { rate: Rate::Modulation, record: true }
            }
        } else if inputs.count == 0 {
            Action::Render { rate: Rate::Frequency, record: false }
        } else {
            Action::Render { rate: Rate::Modulation, record: false }
        }
    }

    /// Caches a freshly rendered block under `tick`.
    pub fn record(&mut self, tick: usize, block: Vec<u32>)
        requires
            block@.len() == N,
        ensures
            final(self).last_tick() == tick,
            final(self).cached() == block@,
    {
        *self = SawClock { tick, block };
    }
}

/// Processing the same clocked block twice renders it once: whatever the
/// state, once a block whose last input is a clock (a lone clock input, or any
/// second input) with a non-zero tick has been handled as planned, the same
/// block comes back as a replay of the cached one, for every tick value.
pub proof fn lemma_same_tick_renders_once(last_tick: usize, inputs: BlockInputs)
    requires
        (inputs.count == 1 && inputs.last_is_clock) || inputs.count == 2,
        inputs.tick != 0,
    ensures
        tick_after(last_tick, inputs) == inputs.tick,
        planned(tick_after(last_tick, inputs), inputs) == Action::Replay,
{
}

/// The full plan of a block, on the fields of its inputs:
/// - more than two inputs: skip;
/// - a lone clock input, or two inputs: replay when the cached tick is
///   non-zero and equals the input tick, and otherwise render and cache the
///   block, at the oscillator's frequency for the lone clock and modulated for
///   two inputs;
/// - no input: render at the oscillator's frequency, caching nothing;
/// - one input that is not a clock: render modulated, caching nothing.
pub proof fn lemma_block_plan(last_tick: usize, inputs: BlockInputs)
    ensures
        inputs.count > 2 ==> planned(last_tick, inputs) == Action::Skip,
        (inputs.count == 1 && inputs.last_is_clock) && last_tick != 0 && inputs.tick == last_tick
            ==> planned(last_tick, inputs) == Action::Replay,
        inputs.count == 2 && last_tick != 0 && inputs.tick == last_tick ==> planned(
            last_tick,
            inputs,
        ) == Action::Replay,
        (inputs.count == 1 && inputs.last_is_clock) && (last_tick == 0 || inputs.tick
            != last_tick) ==> planned(last_tick, inputs) == (Action::Render {
            rate: Rate::Frequency,
            record: true,
        }),
        inputs.count == 2 && (last_tick == 0 || inputs.tick != last_tick) ==> planned(
            last_tick,
            inputs,
        ) == (Action::Render { rate: Rate::Modulation, record: true }),
        inputs.count == 0 ==> planned(last_tick, inputs) == (Action::Render {
            rate: Rate::Frequency,
            record: false,
        }),
        inputs.count == 1 && !inputs.last_is_clock ==> planned(last_tick, inputs) == (
        Action::Render { rate: Rate::Modulation, record: false }),
{
}

/// Handling a block as planned caches it under its tick exactly when its last
/// input is a clock and the block was not a replay; any other block leaves the
/// cached tick as it was.
pub proof fn lemma_tick_after(last_tick: usize, inputs: BlockInputs)
    ensures
        ((inputs.count == 1 && inputs.last_is_clock) || inputs.count == 2) && !(last_tick != 0
            && inputs.tick == last_tick) ==> tick_after(last_tick, inputs) == inputs.tick,
        !(((inputs.count == 1 && inputs.last_is_clock) || inputs.count == 2) && !(last_tick
            != 0 && inputs.tick == last_tick)) ==> tick_after(last_tick, inputs) == last_tick,
{
}

/// A block whose last input carries no clock never replays and never changes the
/// cached block, so a free-running or modulated oscillator renders every block.
pub proof fn lemma_unclocked_block_renders(last_tick: usize, inputs: BlockInputs)
    requires
        inputs.count == 0 || (inputs.count == 1 && !inputs.last_is_clock),
    ensures
        planned(last_tick, inputs) matches Action::Render { record: false, .. },
        tick_after(last_tick, inputs) == last_tick,
{
}

/// A fresh oscillator has cached nothing under any tick: its first block never
/// replays.
pub proof fn lemma_fresh_never_replays(inputs: BlockInputs)
    ensures
        planned(0, inputs) != Action::Replay,
{
}

/// A clocked block renders and is cached exactly when its tick differs from the
/// tick of the cached block, or is 0; otherwise it replays.
pub proof fn lemma_clocked_block(last_tick: usize, inputs: BlockInputs)
    requires
        (inputs.count == 1 && inputs.last_is_clock) || inputs.count == 2,
    ensures
        (planned(last_tick, inputs) == Action::Replay) <==> (last_tick != 0 && last_tick
            == inputs.tick),
        (planned(last_tick, inputs) != Action::Replay) ==> planned(last_tick, inputs) matches Action::Render { record: true, .. },
{
}

/// The rate only depends on the inputs: a single input without a clock and a
/// pair of inputs modulate the phase, while no input and a lone clock run at the
/// oscillator's frequency.
pub proof fn lemma_rate_of_inputs(last_tick: usize, inputs: BlockInputs)
    requires
        inputs.count <= 2,
    ensures
        planned(last_tick, inputs) matches Action::Render { rate, .. } ==> (rate
            == Rate::Frequency <==> (inputs.count == 0 || inputs.count == 1
            && inputs.last_is_clock)),
{
}

} // verus!
