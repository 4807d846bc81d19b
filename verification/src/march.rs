use crate::hit::Hit;
use vstd::prelude::*;

verus! {

/// The number of samples of the distance field that one march may take. The
/// last of them ends the march wherever it falls.
pub const SAMPLE_LIMIT: u32 = 100;

/// What one sample of the distance field tells the marcher.
#[derive(Clone, Copy, Debug, PartialEq, Eq, Structural)]
pub struct Sample {
    /// The sampled distance is under the threshold for a surface.
    pub near: bool,
    /// The kind of the surface that the sampled point is closest to.
    pub kind: Hit,
    /// The distance travelled, with the sampled distance added, is still
    /// under the reach of a ray.
    pub within_reach: bool,
}

/// What the marcher does after a sample.
#[derive(Clone, Copy, Debug, PartialEq, Eq, Structural)]
pub enum March {
    /// The march ends at the sampled point, on a surface of this kind.
    Landed(Hit),
    /// The ray moves on by the sampled distance and is sampled again.
    Advance,
    /// The ray has left the scene: the march ends without a surface.
    Escaped,
}

impl March {
    /// The result of the march, once it has ended.
    pub open spec fn outcome(self) -> Option<Hit> {
        match self {
            March::Landed(kind) => Some(kind),
            March::Advance => None,
            March::Escaped => Some(Hit::Miss),
        }
    }

    /// The result of the march: the kind of surface it landed on, `Hit::Miss`
    /// where the ray escaped, and nothing while the march goes on.
    pub fn result(&self) -> (hit: Option<Hit>)
        ensures
            hit == self.outcome(),
    {
        match self {
            March::Landed(kind) => Some(*kind),
            March::Advance => None,
            March::Escaped => Some(Hit::Miss),
        }
    }
}

/// The state of one march along a ray: how many samples it has taken.
#[derive(Clone, Copy, Debug, PartialEq, Eq, Structural)]
pub struct Marcher {
    /// The samples taken so far. The count stops at `SAMPLE_LIMIT`.
    pub samples: u32,
}

impl Marcher {
    /// The state after one more sample, and what the marcher does then. A
    /// near sample lands, and so does the last sample allowed, whatever its
    /// distance. Any other sample moves the ray on, unless that takes it out
    /// of reach.
    pub open spec fn step_spec(self, sample: Sample) -> (Marcher, March) {
        let taken = if self.samples < SAMPLE_LIMIT {
            (self.samples + 1) as u32
        } else {
            self.samples
        };
        let next = Marcher { samples: taken };
        if sample.near || taken >= SAMPLE_LIMIT {
            (next, March::Landed(sample.kind))
        } else if sample.within_reach {
            (next, March::Advance)
        } else {
            (next, March::Escaped)
        }
    }

    /// A march that has taken no sample yet.
    pub fn new() -> (marcher: Marcher)
        ensures
            marcher.samples == 0,
    {
        Marcher { samples: 0 }
    }

    /// Takes one sample into account and says how the march goes on.
    pub fn step(&mut self, sample: Sample) -> (march: March)
        ensures
            (*final(self), march) == old(self).step_spec(sample),
    {
        if self.samples < SAMPLE_LIMIT {
            self.samples = self.samples + 1;
        }
        if sample.near || self.samples >= SAMPLE_LIMIT {
            March::Landed(sample.kind)
        } else if sample.within_reach {
            March::Advance
        } else {
            March::Escaped
        }
    }
}

/// The result of a march that starts in `state` and meets `samples` in turn:
/// the result of the first step that ends it, and nothing if the samples run
/// out before that.
pub open spec fn march_from(state: Marcher, samples: Seq<Sample>) -> Option<Hit>
    decreases samples.len(),
{
    if samples.len() == 0 {
        None
    } else {
        let (next, march) = state.step_spec(samples[0]);
        match march {
            March::Advance => march_from(next, samples.drop_first()),
            _ => march.outcome(),
        }
    }
}

/// The result of a whole march over `samples`.
pub open spec fn march_outcome(samples: Seq<Sample>) -> Option<Hit> {
    march_from(Marcher { samples: 0 }, samples)
}

/// A march ends by the time it has taken as many samples as the limit
/// allows, whatever the samples are.
pub proof fn lemma_march_is_bounded(state: Marcher, samples: Seq<Sample>)
    requires
        state.samples <= SAMPLE_LIMIT,
        samples.len() + state.samples >= SAMPLE_LIMIT,
        samples.len() > 0,
    ensures
        march_from(state, samples).is_some(),
    decreases samples.len(),
{
    let (next, march) = state.step_spec(samples[0]);
    if march == March::Advance {
        lemma_march_is_bounded(next, samples.drop_first());
    }
}

/// A march whose every sample is closest to the sun, along a ray that stays
/// within reach, ends on the sun, and does so within the limit of samples.
pub proof fn lemma_march_to_sun(state: Marcher, samples: Seq<Sample>)
    requires
        state.samples <= SAMPLE_LIMIT,
        samples.len() + state.samples >= SAMPLE_LIMIT,
        samples.len() > 0,
        forall|i: int|
            0 <= i < samples.len() ==> (#[trigger] samples[i]).kind == Hit::Sun
                && samples[i].within_reach,
    ensures
        march_from(state, samples) == Some(Hit::Sun),
    decreases samples.len(),
{
    let (next, march) = state.step_spec(samples[0]);
    if march == March::Advance {
        let rest = samples.drop_first();
        assert forall|i: int| 0 <= i < rest.len() implies (#[trigger] rest[i]).kind == Hit::Sun
            && rest[i].within_reach by {
            assert(rest[i] == samples[i + 1]);
        }
        lemma_march_to_sun(next, rest);
    }
}

/// A march that meets no near sample and leaves reach at the sample numbered
/// `last`, before the limit of samples forces a landing, ends without a
/// surface.
pub proof fn lemma_march_escapes(state: Marcher, samples: Seq<Sample>, last: int)
    requires
        0 <= last < samples.len(),
        state.samples + last + 1 < SAMPLE_LIMIT,
        forall|i: int| 0 <= i <= last ==> !(#[trigger] samples[i]).near,
        forall|i: int| 0 <= i < last ==> (#[trigger] samples[i]).within_reach,
        !samples[last].within_reach,
    ensures
        march_from(state, samples) == Some(Hit::Miss),
    decreases last,
{
    let (next, march) = state.step_spec(samples[0]);
    if last > 0 {
        let rest = samples.drop_first();
        assert forall|i: int| 0 <= i <= last - 1 implies !(#[trigger] rest[i]).near by {
            assert(rest[i] == samples[i + 1]);
        }
        assert forall|i: int| 0 <= i < last - 1 implies (#[trigger] rest[i]).within_reach by {
            assert(rest[i] == samples[i + 1]);
        }
        assert(rest[last - 1] == samples[last]);
        lemma_march_escapes(next, rest, last - 1);
    }
}

/// A march that lands reports the kind of the sample it landed on: where the
/// first near sample comes before the ray leaves reach and before the limit,
/// the result is that sample's kind.
pub proof fn lemma_march_lands(state: Marcher, samples: Seq<Sample>, first: int)
    requires
        0 <= first < samples.len(),
        state.samples + first + 1 <= SAMPLE_LIMIT,
        forall|i: int| 0 <= i < first ==> !(#[trigger] samples[i]).near && samples[i].within_reach,
        samples[first].near,
    ensures
        march_from(state, samples) == Some(samples[first].kind),
    decreases first,
{
    let (next, march) = state.step_spec(samples[0]);
    if first > 0 {
        let rest = samples.drop_first();
        assert forall|i: int| 0 <= i < first - 1 implies !(#[trigger] rest[i]).near
            && rest[i].within_reach by {
            assert(rest[i] == samples[i + 1]);
        }
        assert(rest[first - 1] == samples[first]);
        lemma_march_lands(next, rest, first - 1);
    }
}

} // verus!
