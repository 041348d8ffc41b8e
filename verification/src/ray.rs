use crate::hittable::{Hit, Hittables};
use vstd::prelude::*;

verus! {

/// The rank of 0.001, the lower end of the window in which a ray looks for
/// surfaces: a little above zero, so that a scattered ray does not meet
/// the surface it starts from.
pub const NEAR: i64 = 0x3F50_624D_D2F1_A9FC;

/// The rank of positive infinity, the upper end of that window.
pub const FAR: i64 = 0x7FF0_0000_0000_0000;

/// What a ray finds when it is sent into a scene.
#[derive(Clone, Copy, Debug, PartialEq, Eq, Structural)]
pub enum Cast {
    /// The path ends here, in this light.
    Done(Radiance),
    /// The ray meets a surface: its material decides how the path goes on.
    Hit(Hit),
}

/// What a ray met when it was cast into the scene.
#[derive(Clone, Copy, Debug, PartialEq, Eq, Structural)]
pub enum Event {
    /// The ray misses every object.
    Miss,
    /// The ray hits a surface whose material absorbs it.
    Absorbed,
    /// The ray hits a surface whose material scatters it.
    Scattered,
}

/// The light in which a path ends.
#[derive(Clone, Copy, Debug, PartialEq, Eq, Structural)]
pub enum Radiance {
    /// No light at all.
    Black,
    /// The background gradient, taken in the direction of the last ray.
    Background,
}

/// What the integrator does next.
#[derive(Clone, Copy, Debug, PartialEq, Eq, Structural)]
pub enum Step {
    /// The path has ended in this light.
    Done(Radiance),
    /// Trace a ray into the scene with this budget of scatterings: the first
    /// ray of the path, or the ray that the last scattering sent out.
    Trace(i32),
}

/// The colour of a path: the light it ends in, seen through the
/// attenuations of `bounces` scatterings.
#[derive(Clone, Copy, Debug, PartialEq, Eq, Structural)]
pub struct Shade {
    pub radiance: Radiance,
    pub bounces: usize,
}

/// The first step for a ray with a budget of `depth` scatterings.
pub open spec fn begin_spec(depth: int) -> Step {
    if depth <= 0 {
        Step::Done(Radiance::Black)
    } else {
        Step::Trace(depth as i32)
    }
}

/// The step that follows when a ray that was traced with budget `depth` met
/// `event`.
pub open spec fn resume_spec(depth: int, event: Event) -> Step {
    if depth <= 0 {
        Step::Done(Radiance::Black)
    } else {
        match event {
            Event::Miss => Step::Done(Radiance::Background),
            Event::Absorbed => Step::Done(Radiance::Black),
            Event::Scattered => Step::Trace((depth - 1) as i32),
        }
    }
}

/// The radiance that the recursive integrator returns for a ray with budget
/// `depth`, when the rays along the path meet `events` in turn: the light
/// at the end and the number of attenuations it is multiplied by. `None`
/// where the events run out before the path has ended.
pub open spec fn radiance(depth: int, events: Seq<Event>) -> Option<(Radiance, nat)>
    decreases events.len(),
{
    if depth <= 0 {
        Some((Radiance::Black, 0nat))
    } else if events.len() == 0 {
        None
    } else {
        match events[0] {
            Event::Miss => Some((Radiance::Background, 0nat)),
            Event::Absorbed => Some((Radiance::Black, 0nat)),
            Event::Scattered => match radiance(depth - 1, events.skip(1)) {
                Some((light, n)) => Some((light, n + 1)),
                None => None,
            },
        }
    }
}

/// `shade` after `more` further attenuations.
pub open spec fn dimmed(shade: Option<(Radiance, nat)>, more: nat) -> Option<(Radiance, nat)> {
    match shade {
        Some((light, n)) => Some((light, n + more)),
        None => None,
    }
}

/// Decides whether a ray with a budget of `depth` scatterings is traced at
/// all: a ray without budget is black.
pub fn begin(depth: i32) -> (r: Step)
    ensures
        r == begin_spec(depth as int),
        depth <= 0 ==> r == Step::Done(Radiance::Black),
{
    if depth <= 0 {
        Step::Done(Radiance::Black)
    } else {
        Step::Trace(depth)
    }
}

/// Sends a ray with a budget of `depth` scatterings into the scene. A ray
/// without budget is black and looks at nothing; a ray that misses every
/// object ends in the background, whatever the scene holds; any other ray
/// meets the nearest surface within the window from `NEAR` to `FAR`.
pub fn cast(depth: i32, scene: &Hittables) -> (r: Cast)
    requires
        scene.wf(),
    ensures
        depth <= 0 ==> r == Cast::Done(Radiance::Black),
        depth > 0 && scene.all_miss(NEAR, FAR) ==> r == Cast::Done(Radiance::Background),
        depth > 0 && !scene.all_miss(NEAR, FAR) ==> (r matches Cast::Hit(hit) && scene.nearest(
            hit,
            NEAR,
            FAR,
        )),
{
    match begin(depth) {
        Step::Done(light) => Cast::Done(light),
        Step::Trace(_) => match scene.hit(NEAR, FAR) {
            Some(hit) => {
                assert(scene.candidate(hit.index as int, NEAR, FAR) is Some);
                Cast::Hit(hit)
            },
            None => Cast::Done(Radiance::Background),
        },
    }
}

/// Decides what follows after a ray traced with budget `depth` met `event`.
/// A miss ends the path in the background, an absorption in black, and a
/// scattering hands the scattered ray a budget one smaller.
pub fn resume(depth: i32, event: Event) -> (r: Step)
    ensures
        r == resume_spec(depth as int, event),
{
    if depth <= 0 {
        Step::Done(Radiance::Black)
    } else {
        match event {
            Event::Miss => Step::Done(Radiance::Background),
            Event::Absorbed => Step::Done(Radiance::Black),
            Event::Scattered => Step::Trace(depth - 1),
        }
    }
}

/// Follows a path whose rays meet `events` in turn, from a budget of
/// `depth` scatterings. Events after the end of the path are not looked at.
pub fn color(depth: i32, events: &Vec<Event>) -> (r: Option<Shade>)
    ensures
        match r {
            Some(shade) => radiance(depth as int, events@) == Some(
                (shade.radiance, shade.bounces as nat),
            ),
            None => radiance(depth as int, events@) is None,
        },
        depth <= 0 ==> r == Some(Shade { radiance: Radiance::Black, bounces: 0 }),
        depth > 0 && events@.len() > 0 && events@[0] == Event::Miss ==> r == Some(
            Shade { radiance: Radiance::Background, bounces: 0 },
        ),
{
    let mut left: i32 = depth;
    let mut i: usize = 0;
    proof {
        assert(events@.skip(0) =~= events@);
    }
    loop
        invariant
            i <= events@.len(),
            left <= depth,
            i > 0 ==> depth > 0 && events@[0] == Event::Scattered,
            i == 0 ==> left == depth,
            radiance(depth as int, events@) == dimmed(
                radiance(left as int, events@.skip(i as int)),
                i as nat,
            ),
        decreases events@.len() - i,
    {
        match begin(left) {
            Step::Done(light) => {
                return Some(Shade { radiance: light, bounces: i });
            },
            Step::Trace(_) => {},
        }
        if i >= events.len() {
            return None;
        }
        proof {
            assert(events@.skip(i as int).skip(1) =~= events@.skip(i as int + 1));
            assert(events@.skip(i as int)[0] == events@[i as int]);
        }
        match resume(left, events[i]) {
            Step::Done(light) => {
                return Some(Shade { radiance: light, bounces: i });
            },
            Step::Trace(next) => {
                left = next;
                i = i + 1;
            },
        }
    }
}

/// A path never scatters more often than its budget allows, nor more often
/// than rays were cast.
pub proof fn lemma_bounces_bounded(depth: int, events: Seq<Event>)
    ensures
        match radiance(depth, events) {
            Some((_, n)) => n <= events.len() && (depth > 0 ==> n <= depth) && (depth <= 0 ==> n
                == 0),
            None => true,
        },
    decreases events.len(),
{
    if depth > 0 && events.len() > 0 && events[0] == Event::Scattered {
        lemma_bounces_bounded(depth - 1, events.skip(1));
    }
}

} // verus!
