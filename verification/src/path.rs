use crate::hit::Hit;
use vstd::prelude::*;

verus! {

/// The number of rays that one light path may march, the first included.
pub const BOUNCE_LIMIT: u32 = 3;

/// What happens to a light path where its ray ends.
#[derive(Clone, Copy, Debug, PartialEq, Eq, Structural)]
pub enum Bounce {
    /// Nothing was met, or the path had ended before: no light is gathered
    /// and no ray follows.
    Leave,
    /// The lettering reflects the ray like a mirror.
    Mirror,
    /// A wall scatters the ray, and is lit by the sun where it sees it.
    Scatter,
    /// The sun was reached: its light is gathered and the path ends.
    Emit,
}

/// The state of one light path: how many rays it has marched, and whether it
/// has ended before the limit.
#[derive(Clone, Copy, Debug, PartialEq, Eq, Structural)]
pub struct Path {
    pub rays: u32,
    pub ended: bool,
}

impl Path {
    /// The path may march another ray.
    pub open spec fn alive(self) -> bool {
        !self.ended && self.rays < BOUNCE_LIMIT
    }

    /// The state after a ray has ended on `hit`, and what happens there. A
    /// path that is no longer alive stays as it is.
    pub open spec fn bounce_spec(self, hit: Hit) -> (Path, Bounce) {
        if !self.alive() {
            (self, Bounce::Leave)
        } else {
            let rays = (self.rays + 1) as u32;
            match hit {
                Hit::Miss => (Path { rays, ended: true }, Bounce::Leave),
                Hit::Letter => (Path { rays, ended: false }, Bounce::Mirror),
                Hit::Wall => (Path { rays, ended: false }, Bounce::Scatter),
                Hit::Sun => (Path { rays, ended: true }, Bounce::Emit),
            }
        }
    }

    /// A path that has marched no ray yet.
    pub fn new() -> (path: Path)
        ensures
            path == (Path { rays: 0, ended: false }),
            path.alive(),
    {
        Path { rays: 0, ended: false }
    }

    /// Whether the path may march another ray.
    pub fn is_alive(&self) -> (alive: bool)
        ensures
            alive == self.alive(),
    {
        !self.ended && self.rays < BOUNCE_LIMIT
    }

    /// Takes the end of a ray into account and says what happens there.
    pub fn bounce(&mut self, hit: Hit) -> (bounce: Bounce)
        ensures
            (*final(self), bounce) == old(self).bounce_spec(hit),
    {
        if self.ended || self.rays >= BOUNCE_LIMIT {
            return Bounce::Leave;
        }
        self.rays = self.rays + 1;
        match hit {
            Hit::Miss => {
                self.ended = true;
                Bounce::Leave
            },
            Hit::Letter => Bounce::Mirror,
            Hit::Wall => Bounce::Scatter,
            Hit::Sun => {
                self.ended = true;
                Bounce::Emit
            },
        }
    }
}

/// What happens along a path that starts in `state` and whose rays end on
/// `hits` in turn: one entry for each ray marched while the path is alive.
pub open spec fn bounces_from(state: Path, hits: Seq<Hit>) -> Seq<Bounce>
    decreases hits.len(),
{
    if hits.len() == 0 || !state.alive() {
        Seq::empty()
    } else {
        let (next, bounce) = state.bounce_spec(hits[0]);
        seq![bounce] + bounces_from(next, hits.drop_first())
    }
}

/// What happens along a whole path whose rays end on `hits`.
pub open spec fn bounces_of(hits: Seq<Hit>) -> Seq<Bounce> {
    bounces_from(Path { rays: 0, ended: false }, hits)
}

/// A path marches no more rays than the limit allows, whatever they meet.
pub proof fn lemma_path_is_bounded(state: Path, hits: Seq<Hit>)
    requires
        state.rays <= BOUNCE_LIMIT,
    ensures
        bounces_from(state, hits).len() <= BOUNCE_LIMIT - state.rays,
        bounces_from(state, hits).len() <= hits.len(),
    decreases hits.len(),
{
    if hits.len() > 0 && state.alive() {
        let (next, bounce) = state.bounce_spec(hits[0]);
        lemma_path_is_bounded(next, hits.drop_first());
    }
}

/// Leaving the scene and reaching the sun end a path: either can only be the
/// last thing that happens along it, so every ray before the last was
/// reflected or scattered.
pub proof fn lemma_path_ends_once(state: Path, hits: Seq<Hit>, i: int)
    requires
        0 <= i < bounces_from(state, hits).len() - 1,
    ensures
        bounces_from(state, hits)[i] == Bounce::Mirror || bounces_from(state, hits)[i]
            == Bounce::Scatter,
    decreases hits.len(),
{
    if hits.len() > 0 && state.alive() {
        let (next, bounce) = state.bounce_spec(hits[0]);
        let rest = bounces_from(next, hits.drop_first());
        assert(bounces_from(state, hits) == seq![bounce] + rest);
        if i == 0 {
            assert(rest.len() > 0);
            assert(next.alive());
        } else {
            lemma_path_ends_once(next, hits.drop_first(), i - 1);
            assert(bounces_from(state, hits)[i] == rest[i - 1]);
        }
    }
}

/// What happens at the end of each ray follows from what the ray met there.
pub proof fn lemma_path_follows_hits(state: Path, hits: Seq<Hit>, i: int)
    requires
        0 <= i < bounces_from(state, hits).len(),
    ensures
        i < hits.len(),
        bounces_from(state, hits)[i] == match hits[i] {
            Hit::Miss => Bounce::Leave,
            Hit::Letter => Bounce::Mirror,
            Hit::Wall => Bounce::Scatter,
            Hit::Sun => Bounce::Emit,
        },
    decreases hits.len(),
{
    if hits.len() > 0 && state.alive() {
        let (next, bounce) = state.bounce_spec(hits[0]);
        let rest = bounces_from(next, hits.drop_first());
        assert(bounces_from(state, hits) == seq![bounce] + rest);
        if i > 0 {
            lemma_path_follows_hits(next, hits.drop_first(), i - 1);
            assert(bounces_from(state, hits)[i] == rest[i - 1]);
            assert(hits.drop_first()[i - 1] == hits[i]);
        }
    }
}

} // verus!
