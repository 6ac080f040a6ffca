//! Keeping a capture open between actions.
use vstd::prelude::*;

use crate::capture::{
    CaptureRebuildSignature, CaptureSource, DisplayColorInfo, DEFAULT_WHITE_LEVEL,
};

verus! {

/// What is known of the window that is to be captured.
#[derive(Clone, Copy, Debug, PartialEq, Eq, Structural)]
pub struct TargetState {
    /// Its shape, where it could be determined.
    pub signature: Option<CaptureRebuildSignature>,
    /// The window of the kept capture still exists.
    pub alive: bool,
    /// The color state of its display, where it could be determined.
    pub display: Option<DisplayColorInfo>,
}

/// How a capture is obtained.
#[derive(Clone, Copy, Debug, PartialEq, Eq, Structural)]
pub enum Acquisition {
    /// The kept capture serves.
    Reused,
    /// A capture has to be opened.
    MustCreate,
}

/// Keeps at most one capture.
#[derive(Debug)]
pub struct CaptureSessionManager {
    cached: Option<CaptureSource>,
}

/// The kept capture serves the window.
pub open spec fn kept_serves(cached: Option<CaptureSource>, target: TargetState) -> bool {
    cached matches Some(source) && source.serves(target.signature, target.alive, target.display)
}

/// A capture that goes on to be used for the window. It takes over the color state of the display,
/// where that is known.
pub open spec fn reused(source: CaptureSource, target: TargetState) -> CaptureSource {
    CaptureSource {
        signature: source.signature,
        display: match target.display {
            Some(info) => info,
            None => source.display,
        },
        pixel_format: source.pixel_format,
        consumed_generation: source.consumed_generation,
    }
}

impl CaptureSessionManager {
    /// The kept capture.
    pub closed spec fn kept(&self) -> Option<CaptureSource> {
        self.cached
    }

    pub fn new() -> (manager: Self)
        ensures
            manager.kept() is None,
    {
        CaptureSessionManager { cached: None }
    }

    /// Uses the kept capture if it serves the window. One that does not is given up.
    pub fn acquire(&mut self, target: &TargetState) -> (acquisition: Acquisition)
        ensures
            if kept_serves(old(self).kept(), *target) {
                &&& acquisition == Acquisition::Reused
                &&& final(self).kept() == Some(reused(old(self).kept()->0, *target))
            } else {
                &&& acquisition == Acquisition::MustCreate
                &&& final(self).kept() is None
            },
    {
        if let Some(mut source) = self.cached.take() {
            if source.try_reuse_for_window_target(target.signature, target.alive, target.display) {
                self.cached = Some(source);
                return Acquisition::Reused;
            }
        }
        Acquisition::MustCreate
    }

    /// The same, under the name that the program uses on demand.
    pub fn get_or_create(&mut self, target: &TargetState) -> (acquisition: Acquisition)
        ensures
            if kept_serves(old(self).kept(), *target) {
                &&& acquisition == Acquisition::Reused
                &&& final(self).kept() == Some(reused(old(self).kept()->0, *target))
            } else {
                &&& acquisition == Acquisition::MustCreate
                &&& final(self).kept() is None
            },
    {
        self.acquire(target)
    }

    /// Opens the capture ahead of an action: a capture produces frames as soon as it is open.
    pub fn prepare(&mut self, target: &TargetState) -> (acquisition: Acquisition)
        ensures
            if kept_serves(old(self).kept(), *target) {
                &&& acquisition == Acquisition::Reused
                &&& final(self).kept() == Some(reused(old(self).kept()->0, *target))
            } else {
                &&& acquisition == Acquisition::MustCreate
                &&& final(self).kept() is None
            },
    {
        self.acquire(target)
    }

    /// Opens a capture ahead of an action, unless one is kept. `window_found` tells whether there
    /// is a window to capture.
    pub fn prewarm(&self, window_found: bool) -> (create: bool)
        ensures
            create == (self.kept() is None && window_found),
    {
        self.cached.is_none() && window_found
    }

    /// Keeps a capture that was opened.
    pub fn install(&mut self, source: CaptureSource)
        ensures
            final(self).kept() == Some(source),
    {
        self.cached = Some(source);
    }

    fn close(&mut self) -> (closed: Option<CaptureSource>)
        ensures
            closed == old(self).kept(),
            final(self).kept() is None,
    {
        self.cached.take()
    }

    /// Gives up the kept capture, which is to be closed.
    pub fn discard(&mut self) -> (closed: Option<CaptureSource>)
        ensures
            closed == old(self).kept(),
            final(self).kept() is None,
    {
        self.close()
    }

    /// Gives up a capture that was opened ahead of an action.
    pub fn cancel_prepare(&mut self) -> (closed: Option<CaptureSource>)
        ensures
            closed == old(self).kept(),
            final(self).kept() is None,
    {
        self.close()
    }

    /// Gives up the capture of a finished action.
    pub fn finish_action(&mut self) -> (closed: Option<CaptureSource>)
        ensures
            closed == old(self).kept(),
            final(self).kept() is None,
    {
        self.close()
    }

    /// The kept capture.
    pub fn active_capture(&mut self) -> (source: Option<&mut CaptureSource>)
        ensures
            match source {
                Some(active) => old(self).kept() == Some(*active) && final(self).kept() == Some(
                    *final(active),
                ),
                None => old(self).kept() is None && final(self).kept() is None,
            },
    {
        self.cached.as_mut()
    }
}

/// Milliseconds between two looks at the window.
pub const CAPTURE_PREWARM_CHECK_INTERVAL: u64 = 1000;

/// Looks at which a changed window has to look the same before its capture is opened anew.
pub const CAPTURE_SIGNATURE_STABLE_TICKS: u32 = 2;

/// A new shape of the window, and how often it was seen in a row.
#[derive(Clone, Copy, Debug, PartialEq, Eq, Structural)]
pub struct PendingSignature {
    pub signature: CaptureRebuildSignature,
    pub seen_count: u32,
}

/// What a look at the window found.
#[derive(Clone, Copy, Debug, PartialEq, Eq, Structural)]
pub enum PrewarmProbe {
    /// There is no window to capture. `alive` tells whether the window of the kept capture exists.
    NoWindow { alive: bool },
    /// The window, and the white level of its display where it could be determined.
    Window { target: TargetState, white_level: Option<u32> },
}

/// What to do after a look at the window.
#[derive(Clone, Copy, Debug, PartialEq, Eq, Structural)]
pub enum PrewarmStep {
    /// Nothing.
    Idle,
    /// Open a capture for this white level.
    Create { white_level: u32 },
}

/// The white level to open a capture with.
pub open spec fn effective_white_level(white_level: Option<u32>) -> u32 {
    match white_level {
        Some(level) => level,
        None => 1000,
    }
}

fn white_level_or_default(white_level: Option<u32>) -> (level: u32)
    ensures
        level == effective_white_level(white_level),
{
    match white_level {
        Some(level) => level,
        None => DEFAULT_WHITE_LEVEL,
    }
}

/// Keeps a capture open at all times, and follows changes of the window once they have settled.
#[derive(Debug)]
pub struct CaptureSessionCache {
    cached: Option<CaptureSource>,
    pending_signature: Option<PendingSignature>,
    last_check: Option<u64>,
}

/// How often the new shape of the window was seen in a row, this time included. The count stops at
/// the largest number that it can hold.
pub open spec fn seen_now(
    pending: Option<PendingSignature>,
    signature: CaptureRebuildSignature,
) -> u32 {
    match pending {
        Some(seen) if seen.signature == signature => if seen.seen_count < u32::MAX {
            (seen.seen_count + 1) as u32
        } else {
            u32::MAX
        },
        _ => 1,
    }
}

/// What a cache holds: the kept capture, a new shape of the window that has not settled, and when
/// the window was looked at last.
pub struct CacheModel {
    pub kept: Option<CaptureSource>,
    pub pending: Option<PendingSignature>,
    pub last: Option<u64>,
}

impl CacheModel {
    /// The window is to be looked at: it was not within the last second.
    pub open spec fn due(self, now: u64) -> bool {
        self.last matches Some(last) ==> now - last >= 1000
    }
}

/// The cache and what to do after a look at the window.
pub open spec fn ticked(cache: CacheModel, now: u64, probe: PrewarmProbe) -> (
    CacheModel,
    PrewarmStep,
) {
    let looked = CacheModel { last: Some(now), ..cache };
    if !cache.due(now) {
        (cache, PrewarmStep::Idle)
    } else {
        match probe {
            PrewarmProbe::NoWindow { alive } => if cache.kept is Some && !alive {
                (CacheModel { kept: None, pending: None, ..looked }, PrewarmStep::Idle)
            } else {
                (looked, PrewarmStep::Idle)
            },
            PrewarmProbe::Window { target, white_level } => {
                let create = PrewarmStep::Create {
                    white_level: effective_white_level(white_level),
                };
                if kept_serves(cache.kept, target) {
                    (
                        CacheModel {
                            kept: Some(reused(cache.kept->0, target)),
                            pending: None,
                            ..looked
                        },
                        PrewarmStep::Idle,
                    )
                } else if cache.kept is None {
                    (looked, create)
                } else if target.signature is None {
                    (looked, PrewarmStep::Idle)
                } else {
                    let signature = target.signature->0;
                    let seen_count = seen_now(cache.pending, signature);
                    let pending = Some(PendingSignature { signature, seen_count });
                    if seen_count < 2 {
                        (CacheModel { pending, ..looked }, PrewarmStep::Idle)
                    } else {
                        (CacheModel { kept: None, pending, ..looked }, create)
                    }
                }
            },
        }
    }
}

/// The cache once an action asked for a capture of the window.
pub open spec fn asked(cache: CacheModel, target: TargetState) -> CacheModel {
    if kept_serves(cache.kept, target) {
        CacheModel { kept: Some(reused(cache.kept->0, target)), pending: None, ..cache }
    } else if cache.kept is Some {
        CacheModel { kept: None, pending: None, ..cache }
    } else {
        cache
    }
}

impl CaptureSessionCache {
    pub closed spec fn model(&self) -> CacheModel {
        CacheModel {
            kept: self.cached,
            pending: self.pending_signature,
            last: self.last_check,
        }
    }

    pub fn new() -> (cache: Self)
        ensures
            cache.model() == (CacheModel { kept: None, pending: None, last: None }),
    {
        CaptureSessionCache { cached: None, pending_signature: None, last_check: None }
    }

    /// Whether the window is to be looked at.
    pub fn is_due(&self, now: u64) -> (due: bool)
        ensures
            due == self.model().due(now),
    {
        match self.last_check {
            Some(last) => now >= last && now - last >= CAPTURE_PREWARM_CHECK_INTERVAL,
            None => true,
        }
    }

    /// Judges a look at the window. A kept capture that still serves stays; one whose window is
    /// gone is given up; one whose window has changed is given up and opened anew once the new
    /// shape was seen twice.
    pub fn tick_prewarm(&mut self, now: u64, probe: &PrewarmProbe) -> (step: PrewarmStep)
        ensures
            (final(self).model(), step) == ticked(old(self).model(), now, *probe),
    {
        if !self.is_due(now) {
            return PrewarmStep::Idle;
        }
        self.last_check = Some(now);
        match *probe {
            PrewarmProbe::NoWindow { alive } => {
                if self.cached.is_some() && !alive {
                    self.cached = None;
                    self.pending_signature = None;
                }
                PrewarmStep::Idle
            },
            PrewarmProbe::Window { target, white_level } => {
                if let Some(mut source) = self.cached.take() {
                    let ghost kept = source;
                    let reusable = source.try_reuse_for_window_target(
                        target.signature,
                        target.alive,
                        target.display,
                    );
                    self.cached = Some(source);
                    if reusable {
                        self.pending_signature = None;
                        return PrewarmStep::Idle;
                    }
                    assert(source == kept);
                    let signature = match target.signature {
                        Some(signature) => signature,
                        None => return PrewarmStep::Idle,
                    };
                    let seen_count: u32 = match self.pending_signature {
                        Some(pending) => if pending.signature == signature {
                            pending.seen_count.saturating_add(1)
                        } else {
                            1
                        },
                        None => 1,
                    };
                    self.pending_signature = Some(PendingSignature { signature, seen_count });
                    if seen_count < CAPTURE_SIGNATURE_STABLE_TICKS {
                        return PrewarmStep::Idle;
                    }
                    self.cached = None;
                }
                PrewarmStep::Create { white_level: white_level_or_default(white_level) }
            },
        }
    }

    /// Uses the kept capture for an action if it serves the window. One that does not is given up,
    /// and a capture for the returned white level has to be opened.
    pub fn get_or_create(&mut self, target: &TargetState, white_level: Option<u32>) -> (create:
        Option<u32>)
        ensures
            final(self).model() == asked(old(self).model(), *target),
            create == if kept_serves(old(self).model().kept, *target) {
                None
            } else {
                Some(effective_white_level(white_level))
            },
    {
        if let Some(mut source) = self.cached.take() {
            self.pending_signature = None;
            if source.try_reuse_for_window_target(target.signature, target.alive, target.display) {
                self.cached = Some(source);
                return None;
            }
        }
        Some(white_level_or_default(white_level))
    }

    /// Keeps a capture that was opened ahead of an action.
    pub fn prewarmed(&mut self, source: CaptureSource)
        ensures
            final(self).model() == (CacheModel {
                kept: Some(source),
                pending: None,
                ..old(self).model()
            }),
    {
        self.cached = Some(source);
        self.pending_signature = None;
    }

    /// Keeps a capture that was opened for an action. A new shape of the window that was seen
    /// before is not forgotten.
    pub fn created(&mut self, source: CaptureSource)
        ensures
            final(self).model() == (CacheModel { kept: Some(source), ..old(self).model() }),
    {
        self.cached = Some(source);
    }
}

/// What happens to a cache.
pub enum CacheEvent {
    /// A look at the window.
    Tick { now: u64, probe: PrewarmProbe },
    /// An action asks for a capture.
    Asked { target: TargetState },
    /// A capture was opened ahead of an action.
    Prewarmed { source: CaptureSource },
    /// A capture was opened for an action.
    Created { source: CaptureSource },
}

pub open spec fn cache_after(cache: CacheModel, event: CacheEvent) -> CacheModel {
    match event {
        CacheEvent::Tick { now, probe } => ticked(cache, now, probe).0,
        CacheEvent::Asked { target } => asked(cache, target),
        CacheEvent::Prewarmed { source } => CacheModel {
            kept: Some(source),
            pending: None,
            ..cache
        },
        CacheEvent::Created { source } => CacheModel { kept: Some(source), ..cache },
    }
}

/// The cache after a series of events.
pub open spec fn cache_at(start: CacheModel, events: Seq<CacheEvent>) -> CacheModel
    decreases events.len(),
{
    if events.len() == 0 {
        start
    } else {
        cache_after(cache_at(start, events.drop_last()), events.last())
    }
}

/// A look at the window finds it, with the given shape, no longer served by the kept capture.
pub open spec fn sees_change(
    cache: CacheModel,
    event: CacheEvent,
    signature: CaptureRebuildSignature,
) -> bool {
    &&& event matches CacheEvent::Tick { now, probe }
    &&& cache.due(now)
    &&& cache.kept is Some
    &&& probe matches PrewarmProbe::Window { target, .. }
    &&& !kept_serves(cache.kept, target)
    &&& target.signature == Some(signature)
}

/// A look at the window finds that the kept capture serves it.
pub open spec fn sees_no_change(cache: CacheModel, event: CacheEvent) -> bool {
    &&& event matches CacheEvent::Tick { now, probe }
    &&& cache.due(now)
    &&& probe matches PrewarmProbe::Window { target, .. }
    &&& kept_serves(cache.kept, target)
}

/// A look at the window finds a shape other than the given one, not served by the kept capture.
pub open spec fn sees_other_change(
    cache: CacheModel,
    event: CacheEvent,
    signature: CaptureRebuildSignature,
) -> bool {
    exists|other: CaptureRebuildSignature|
        other != signature && #[trigger] sees_change(cache, event, other)
}

/// At `at` a look found the given shape, and none since found the kept capture to serve or another
/// shape.
pub open spec fn seen_since(
    start: CacheModel,
    events: Seq<CacheEvent>,
    signature: CaptureRebuildSignature,
    at: int,
) -> bool {
    &&& 0 <= at < events.len()
    &&& sees_change(cache_at(start, events.take(at)), events[at], signature)
    &&& forall|later: int|
        at < later < events.len() ==> !sees_no_change(
            cache_at(start, events.take(later)),
            #[trigger] events[later],
        ) && !sees_other_change(cache_at(start, events.take(later)), events[later], signature)
}

proof fn seen_goes_on(
    start: CacheModel,
    events: Seq<CacheEvent>,
    signature: CaptureRebuildSignature,
    at: int,
)
    requires
        events.len() > 0,
        seen_since(start, events.drop_last(), signature, at),
        !sees_no_change(cache_at(start, events.drop_last()), events.last()),
        !sees_other_change(cache_at(start, events.drop_last()), events.last(), signature),
    ensures
        seen_since(start, events, signature, at),
{
    let front = events.drop_last();
    assert(events.take(at) =~= front.take(at));
    assert forall|later: int| at < later < events.len() implies !sees_no_change(
        cache_at(start, events.take(later)),
        #[trigger] events[later],
    ) && !sees_other_change(cache_at(start, events.take(later)), events[later], signature) by {
        if later < front.len() {
            assert(events[later] == front[later]);
            assert(events.take(later) =~= front.take(later));
        } else {
            assert(events.take(later) =~= front);
        }
    }
}

proof fn pending_was_seen(start: CacheModel, events: Seq<CacheEvent>)
    requires
        start.pending is None,
    ensures
        cache_at(start, events).pending matches Some(pending) ==> exists|at: int| #[trigger]
            seen_since(start, events, pending.signature, at),
    decreases events.len(),
{
    if events.len() > 0 {
        let front = events.drop_last();
        let before = cache_at(start, front);
        pending_was_seen(start, front);
        if let Some(pending) = cache_at(start, events).pending {
            if sees_change(before, events.last(), pending.signature) {
                assert(events.take(front.len() as int) =~= front);
                assert(seen_since(start, events, pending.signature, front.len() as int));
            } else {
                assert(before.pending == Some(pending));
                let at = choose|at: int| seen_since(start, front, pending.signature, at);
                seen_goes_on(start, events, pending.signature, at);
            }
        }
    }
}

/// A kept capture whose window lives is given up for a changed window only once the change has
/// settled: a look before this one found the same new shape, and no look between the two found the
/// kept capture to serve or another shape. This holds after any events since a start without a
/// pending shape.
pub proof fn changes_are_followed_once_settled(
    start: CacheModel,
    events: Seq<CacheEvent>,
    now: u64,
    target: TargetState,
    white_level: Option<u32>,
)
    requires
        start.pending is None,
        cache_at(start, events).kept is Some,
        ticked(
            cache_at(start, events),
            now,
            PrewarmProbe::Window { target, white_level },
        ).0.kept is None,
    ensures
        target.signature is Some,
        exists|at: int| #[trigger] seen_since(start, events, target.signature->0, at),
{
    pending_was_seen(start, events);
}

/// What a look at the window does to a kept capture and to a pending shape: nothing before it is
/// due; a capture that serves is kept and the pending shape forgotten; a shape that is not pending
/// is counted from one, and the capture stays.
pub proof fn looks_follow_the_window(
    cache: CacheModel,
    now: u64,
    target: TargetState,
    white_level: Option<u32>,
)
    ensures
        ({
            let probe = PrewarmProbe::Window { target, white_level };
            let (after, step) = ticked(cache, now, probe);
            let event = CacheEvent::Tick { now, probe };
            &&& !cache.due(now) ==> after == cache && step == PrewarmStep::Idle
            &&& cache.due(now) ==> after.last == Some(now)
            &&& sees_no_change(cache, event) ==> after.kept is Some && after.pending is None
            &&& target.signature matches Some(signature) ==> sees_change(cache, event, signature)
                && !(cache.pending matches Some(pending) && pending.signature == signature)
                ==> after.kept == cache.kept && after.pending == Some(
                PendingSignature { signature, seen_count: 1 },
            ) && step == PrewarmStep::Idle
        }),
{
}

/// A capture that serves the window goes on to serve it, in the format and from the frame where it
/// was, with the colors of the display as they are known last.
pub proof fn reused_captures_go_on_to_serve(source: CaptureSource, target: TargetState)
    requires
        kept_serves(Some(source), target),
    ensures
        kept_serves(Some(reused(source, target)), target),
        reused(source, target).pixel_format == source.pixel_format,
        reused(source, target).consumed_generation == source.consumed_generation,
        target.display matches Some(info) ==> reused(source, target).display == info,
        target.display is None ==> reused(source, target) == source,
        reused(reused(source, target), target) == reused(source, target),
{
}

/// Looks at the window are a second apart.
pub proof fn looks_are_a_second_apart(
    cache: CacheModel,
    now: u64,
    probe: PrewarmProbe,
    later: u64,
)
    requires
        cache.due(now),
    ensures
        ticked(cache, now, probe).0.due(later) <==> later - now >= 1000,
        cache.last is None ==> cache.due(later),
{
}

/// A capture of a window that is gone is given up. Where only no window is found the capture stays,
/// and none is opened.
pub proof fn captures_of_lost_windows_are_given_up(cache: CacheModel, now: u64, alive: bool)
    requires
        cache.due(now),
    ensures
        ({
            let (after, step) = ticked(cache, now, PrewarmProbe::NoWindow { alive });
            &&& step == PrewarmStep::Idle
            &&& after.kept == if alive {
                cache.kept
            } else {
                None
            }
        }),
{
}

/// A capture is opened just where none is kept any more after a look that finds a window, and with
/// the white level of its display, or that of a plain one.
pub proof fn captures_are_opened_where_none_is_kept(
    cache: CacheModel,
    now: u64,
    target: TargetState,
    white_level: Option<u32>,
)
    requires
        cache.due(now),
    ensures
        ({
            let (after, step) = ticked(cache, now, PrewarmProbe::Window { target, white_level });
            &&& step is Create <==> after.kept is None
            &&& step matches PrewarmStep::Create { white_level: level } ==> (
            white_level matches Some(known) ==> level == known) && (white_level is None ==> level
                == 1000)
            &&& after.kept matches Some(source) ==> {
                let before = cache.kept->0;
                &&& cache.kept is Some
                &&& source.signature == before.signature
                &&& source.pixel_format == before.pixel_format
            }
        }),
{
}

/// A changed window is followed at the second look that finds its new shape.
pub proof fn second_looks_follow_a_change(
    cache: CacheModel,
    first: u64,
    second: u64,
    target: TargetState,
    white_level: Option<u32>,
)
    requires
        cache.kept is Some,
        cache.pending is None,
        !kept_serves(cache.kept, target),
        target.signature is Some,
        cache.due(first),
        second - first >= 1000,
    ensures
        ({
            let probe = PrewarmProbe::Window { target, white_level };
            let (once, step) = ticked(cache, first, probe);
            let (twice, next) = ticked(once, second, probe);
            &&& once.kept == cache.kept && step == PrewarmStep::Idle
            &&& twice.kept is None && next is Create
        }),
{
}

/// An action gets the kept capture just where it serves the window; else none is kept.
pub proof fn actions_use_what_serves(cache: CacheModel, target: TargetState)
    ensures
        asked(cache, target).kept is Some <==> kept_serves(cache.kept, target),
        asked(cache, target).kept matches Some(source) ==> kept_serves(Some(source), target),
        asked(cache, target).last == cache.last,
{
}

} // verus!
