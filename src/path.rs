use vstd::prelude::*;

verus! {

/// How the colour of a path is settled.
#[derive(Clone, Copy, Debug, PartialEq, Eq, Structural)]
pub enum PathEnd {
    /// The path contributes black: the bounce budget ran out or a surface
    /// absorbed the ray.
    Black,
    /// The last ray left the scene: the path takes the background gradient,
    /// tinted by the attenuations gathered on the way.
    Sky,
}

/// What tracing the current ray through the world gave.
#[derive(Clone, Copy, Debug, PartialEq, Eq, Structural)]
pub enum TraceEvent {
    /// No primitive was hit.
    Miss,
    /// A primitive was hit and its material absorbed the ray.
    Absorbed,
    /// A primitive was hit and its material sent out a new ray.
    Scattered,
}

/// The bounce budget of one camera ray, evaluated as a loop: while `end` is
/// `None` the caller traces the current ray and records what happened.
#[derive(Clone, Copy, Debug, PartialEq, Eq, Structural)]
pub struct Path {
    /// Rays that may still be traced.
    pub remaining: u32,
    /// How the path ended, once it has.
    pub end: Option<PathEnd>,
}

impl Path {
    /// A path that has not ended still has a ray to trace.
    pub open spec fn wf(self) -> bool {
        self.end is None ==> self.remaining > 0
    }

    /// The path state after `event`, for a path that has not ended.
    pub open spec fn after(self, event: TraceEvent) -> Path {
        match event {
            TraceEvent::Miss => Path { remaining: self.remaining, end: Some(PathEnd::Sky) },
            TraceEvent::Absorbed => Path { remaining: self.remaining, end: Some(PathEnd::Black) },
            TraceEvent::Scattered => {
                let left = (self.remaining - 1) as u32;
                Path {
                    remaining: left,
                    end: if left == 0 {
                        Some(PathEnd::Black)
                    } else {
                        None
                    },
                }
            },
        }
    }

    /// A path with a budget of `max_depth` rays; with none it is black before
    /// anything is traced.
    pub fn new(max_depth: u32) -> (r: Path)
        ensures
            r.wf(),
            r.remaining == max_depth,
            r.end == (if max_depth == 0 {
                Some(PathEnd::Black)
            } else {
                None
            }),
    {
        Path {
            remaining: max_depth,
            end: if max_depth == 0 {
                Some(PathEnd::Black)
            } else {
                None
            },
        }
    }

    /// Records what tracing the current ray gave: a miss ends on the
    /// background, an absorption ends black, a scatter spends one ray of the
    /// budget and ends black when none is left.
    pub fn record(&mut self, event: TraceEvent)
        requires
            old(self).wf(),
            old(self).end is None,
        ensures
            *final(self) == old(self).after(event),
            final(self).wf(),
            final(self).remaining <= old(self).remaining,
            event == TraceEvent::Scattered ==> final(self).remaining == old(self).remaining - 1,
    {
        match event {
            TraceEvent::Miss => {
                self.end = Some(PathEnd::Sky);
            },
            TraceEvent::Absorbed => {
                self.end = Some(PathEnd::Black);
            },
            TraceEvent::Scattered => {
                self.remaining = self.remaining - 1;
                if self.remaining == 0 {
                    self.end = Some(PathEnd::Black);
                }
            },
        }
    }
}

/// The path state after recording `events` one by one, or `None` when one of
/// them comes after the path has ended.
pub open spec fn run(p: Path, events: Seq<TraceEvent>) -> Option<Path>
    decreases events.len(),
{
    if events.len() == 0 {
        Some(p)
    } else if p.end is Some {
        None
    } else {
        run(p.after(events[0]), events.drop_first())
    }
}

/// The rays a path may still trace: none once it has ended.
pub open spec fn budget(p: Path) -> nat {
    if p.end is None {
        p.remaining as nat
    } else {
        0
    }
}

/// A path traces at most as many rays as its budget: every sequence of
/// events that can be recorded is no longer than that.
pub proof fn lemma_path_bounded(p: Path, events: Seq<TraceEvent>)
    requires
        p.wf(),
        run(p, events) is Some,
    ensures
        events.len() <= budget(p),
    decreases events.len(),
{
    if events.len() > 0 {
        lemma_path_bounded(p.after(events[0]), events.drop_first());
    }
}

} // verus!
