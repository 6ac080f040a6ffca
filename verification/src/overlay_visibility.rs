//! When the overlay is shown, and when it fades away.
use vstd::prelude::*;

use crate::overlay::OverlayEventPolicy;

verus! {

/// Milliseconds that the overlay stays after the hotkey modifiers are released.
pub const HOLD_KEY_RELEASE_HIDE_DELAY: u64 = 120;

/// Milliseconds that fading takes.
pub const FADE_DURATION: u64 = 180;

/// Milliseconds between two steps of fading.
pub const FADE_TICK: u64 = 16;

#[derive(Clone, Copy, Debug, PartialEq, Eq, Structural)]
pub enum OverlayTimer {
    Hide,
    Fade,
}

/// What is to be done with the window of the overlay.
#[derive(Clone, Copy, Debug, PartialEq, Eq, Structural)]
pub enum VisibilityAction {
    CancelTimer(OverlayTimer),
    /// Start the timer anew, in milliseconds.
    StartTimer { timer: OverlayTimer, delay: u32 },
    Resize,
    Show,
    /// Make the window this much clearer, after so many milliseconds of fading.
    Fade { elapsed: u64 },
    /// Make the window clear and hide it.
    Hide,
    /// Show the list of presets again next time.
    SetReady,
}

/// The state of the window.
#[derive(Clone, Copy, Debug)]
pub struct OverlayVisibility {
    pub modifier_down: bool,
    pub hold_visible: bool,
    pub hide_deadline: Option<u64>,
    pub fade_started: Option<u64>,
}

/// The milliseconds that a timer can be set to, closest to `delay`.
pub open spec fn timer_delay(delay: int) -> int {
    if delay < 1 {
        1
    } else if delay > u32::MAX {
        u32::MAX as int
    } else {
        delay
    }
}

fn clamp_delay(delay: u64) -> (milliseconds: u32)
    ensures
        milliseconds == timer_delay(delay as int),
{
    if delay < 1 {
        1
    } else if delay > u32::MAX as u64 {
        u32::MAX
    } else {
        delay as u32
    }
}

/// The window is brought up, and nothing hides it any more.
pub open spec fn shown() -> Seq<VisibilityAction> {
    seq![
        VisibilityAction::CancelTimer(OverlayTimer::Hide),
        VisibilityAction::CancelTimer(OverlayTimer::Fade),
        VisibilityAction::Resize,
        VisibilityAction::Show,
    ]
}

/// The timer that hides the window, in `delay` milliseconds.
pub open spec fn hide_timer(delay: int) -> VisibilityAction {
    VisibilityAction::StartTimer {
        timer: OverlayTimer::Hide,
        delay: timer_delay(delay) as u32,
    }
}

/// The state after events whose latest has this policy.
pub open spec fn drained(
    before: OverlayVisibility,
    policy: OverlayEventPolicy,
    now: u64,
) -> OverlayVisibility {
    OverlayVisibility {
        hold_visible: policy is Hold,
        hide_deadline: match policy {
            OverlayEventPolicy::HideAfter(delay) if !before.modifier_down => Some(
                (now + delay) as u64,
            ),
            _ => None,
        },
        fade_started: None,
        ..before
    }
}

/// The state after a message of the timer that hides the window.
pub open spec fn after_hide_timer(before: OverlayVisibility, now: u64) -> OverlayVisibility {
    match before.hide_deadline {
        Some(deadline) if now >= deadline => OverlayVisibility {
            hide_deadline: None,
            fade_started: if before.modifier_down || before.hold_visible {
                before.fade_started
            } else {
                Some(now)
            },
            ..before
        },
        _ => before,
    }
}

/// A message that was still under way when the window was brought up anew does not fade it: the
/// window stays for as long as the new policy says.
pub proof fn stale_timer_fades_nothing(
    before: OverlayVisibility,
    policy: OverlayEventPolicy,
    now: u64,
    later: u64,
)
    requires
        policy matches OverlayEventPolicy::HideAfter(delay) ==> now + delay <= u64::MAX,
        policy matches OverlayEventPolicy::HideAfter(delay) ==> later < now + delay
            || before.modifier_down,
    ensures
        after_hide_timer(drained(before, policy, now), later) == drained(before, policy, now),
        drained(before, policy, now).fade_started is None,
{
}

impl OverlayVisibility {
    pub fn new(modifier_down: bool) -> (visibility: Self)
        ensures
            visibility == (OverlayVisibility {
                modifier_down,
                hold_visible: false,
                hide_deadline: None,
                fade_started: None,
            }),
    {
        OverlayVisibility {
            modifier_down,
            hold_visible: false,
            hide_deadline: None,
            fade_started: None,
        }
    }

    fn show(&mut self) -> (actions: Vec<VisibilityAction>)
        ensures
            *final(self) == (OverlayVisibility {
                hide_deadline: None,
                fade_started: None,
                ..*old(self)
            }),
            actions@ == shown(),
    {
        self.hide_deadline = None;
        self.fade_started = None;
        let mut actions: Vec<VisibilityAction> = Vec::new();
        actions.push(VisibilityAction::CancelTimer(OverlayTimer::Hide));
        actions.push(VisibilityAction::CancelTimer(OverlayTimer::Fade));
        actions.push(VisibilityAction::Resize);
        actions.push(VisibilityAction::Show);
        assert(actions@ =~= shown());
        actions
    }

    /// The events that waited were applied; the latest that the overlay shows has this policy.
    pub fn drain_app_events(&mut self, policy: Option<OverlayEventPolicy>, now: u64) -> (actions:
        Vec<VisibilityAction>)
        requires
            policy matches Some(OverlayEventPolicy::HideAfter(delay)) ==> now + delay <= u64::MAX,
        ensures
            match policy {
                None => *final(self) == *old(self) && actions@.len() == 0,
                Some(policy) => {
                    &&& *final(self) == drained(*old(self), policy, now)
                    &&& actions@ == match policy {
                        OverlayEventPolicy::HideAfter(delay) if !old(self).modifier_down => {
                            shown().push(hide_timer(delay as int))
                        },
                        _ => shown(),
                    }
                },
            },
    {
        let policy = match policy {
            Some(policy) => policy,
            None => return Vec::new(),
        };
        let mut actions = self.show();
        match policy {
            OverlayEventPolicy::Hold => {
                self.hold_visible = true;
            },
            OverlayEventPolicy::HideAfter(delay) => {
                self.hold_visible = false;
                if !self.modifier_down {
                    self.hide_deadline = Some(now + delay);
                    actions.push(
                        VisibilityAction::StartTimer {
                            timer: OverlayTimer::Hide,
                            delay: clamp_delay(delay),
                        },
                    );
                }
            },
        }
        actions
    }

    /// The hotkey modifiers were pressed or released.
    pub fn handle_modifier_change(&mut self, down: bool, now: u64) -> (actions: Vec<
        VisibilityAction,
    >)
        requires
            now <= u64::MAX - 120,
        ensures
            if down {
                &&& *final(self) == (OverlayVisibility {
                    modifier_down: true,
                    hide_deadline: None,
                    fade_started: None,
                    ..*old(self)
                })
                &&& actions@ == shown()
            } else if old(self).hold_visible {
                *final(self) == (OverlayVisibility { modifier_down: false, ..*old(self) })
                    && actions@.len() == 0
            } else {
                &&& *final(self) == (OverlayVisibility {
                    modifier_down: false,
                    hide_deadline: Some((now + 120) as u64),
                    ..*old(self)
                })
                &&& actions@ == seq![hide_timer(120)]
            },
    {
        self.modifier_down = down;
        if down {
            return self.show();
        }
        let mut actions: Vec<VisibilityAction> = Vec::new();
        if !self.hold_visible {
            self.hide_deadline = Some(now + HOLD_KEY_RELEASE_HIDE_DELAY);
            actions.push(
                VisibilityAction::StartTimer {
                    timer: OverlayTimer::Hide,
                    delay: clamp_delay(HOLD_KEY_RELEASE_HIDE_DELAY),
                },
            );
            assert(actions@ =~= seq![hide_timer(120)]);
        }
        actions
    }

    /// The timer that hides the window fired. It may be one that was cancelled meanwhile, so the
    /// deadline decides.
    pub fn handle_hide_timer(&mut self, now: u64) -> (actions: Vec<VisibilityAction>)
        ensures
            *final(self) == after_hide_timer(*old(self), now),
            ({
                let cancel = VisibilityAction::CancelTimer(OverlayTimer::Hide);
                actions@ == match old(self).hide_deadline {
                    None => seq![cancel],
                    Some(deadline) => if now < deadline {
                        seq![cancel, hide_timer(deadline - now)]
                    } else if old(self).modifier_down || old(self).hold_visible {
                        seq![cancel]
                    } else {
                        seq![
                            cancel,
                            VisibilityAction::StartTimer { timer: OverlayTimer::Fade, delay: 16 },
                        ]
                    },
                }
            }),
    {
        let mut actions: Vec<VisibilityAction> = Vec::new();
        actions.push(VisibilityAction::CancelTimer(OverlayTimer::Hide));
        let deadline: u64 = match self.hide_deadline {
            Some(deadline) => deadline,
            None => return actions,
        };
        if now < deadline {
            actions.push(
                VisibilityAction::StartTimer {
                    timer: OverlayTimer::Hide,
                    delay: clamp_delay(deadline - now),
                },
            );
            return actions;
        }
        self.hide_deadline = None;
        if !self.modifier_down && !self.hold_visible {
            self.fade_started = Some(now);
            actions.push(
                VisibilityAction::StartTimer {
                    timer: OverlayTimer::Fade,
                    delay: clamp_delay(FADE_TICK),
                },
            );
        }
        actions
    }

    /// The timer that fades the window fired.
    pub fn update_fade(&mut self, now: u64) -> (actions: Vec<VisibilityAction>)
        requires
            old(self).fade_started matches Some(started) ==> started <= now,
        ensures
            match old(self).fade_started {
                None => *final(self) == *old(self) && actions@ == seq![
                    VisibilityAction::CancelTimer(OverlayTimer::Fade),
                ],
                Some(started) => if now - started >= 180 {
                    &&& *final(self) == (OverlayVisibility { fade_started: None, ..*old(self) })
                    &&& actions@ == seq![
                        VisibilityAction::CancelTimer(OverlayTimer::Fade),
                        VisibilityAction::Hide,
                        VisibilityAction::SetReady,
                        VisibilityAction::Resize,
                    ]
                } else {
                    &&& *final(self) == *old(self)
                    &&& actions@ == seq![VisibilityAction::Fade { elapsed: (now - started) as u64 }]
                },
            },
    {
        let mut actions: Vec<VisibilityAction> = Vec::new();
        let started: u64 = match self.fade_started {
            Some(started) => started,
            None => {
                actions.push(VisibilityAction::CancelTimer(OverlayTimer::Fade));
                return actions;
            },
        };
        let elapsed: u64 = now - started;
        if elapsed >= FADE_DURATION {
            self.fade_started = None;
            actions.push(VisibilityAction::CancelTimer(OverlayTimer::Fade));
            actions.push(VisibilityAction::Hide);
            actions.push(VisibilityAction::SetReady);
            actions.push(VisibilityAction::Resize);
        } else {
            actions.push(VisibilityAction::Fade { elapsed });
        }
        actions
    }
}

/// A timer runs for the delay that was asked for, but for a millisecond at least and for no longer
/// than it can.
pub proof fn timers_run_for_their_delay(delay: int)
    ensures
        1 <= timer_delay(delay) <= 0xffff_ffff,
        1 <= delay <= 0xffff_ffff ==> timer_delay(delay) == delay,
        delay < 1 ==> timer_delay(delay) == 1,
        delay > 0xffff_ffff ==> timer_delay(delay) == 0xffff_ffff,
{
}

/// Bringing the window up shows it and stops both timers, and starts none.
pub proof fn shown_windows_are_not_hidden()
    ensures
        shown().contains(VisibilityAction::Show),
        shown().contains(VisibilityAction::CancelTimer(OverlayTimer::Hide)),
        shown().contains(VisibilityAction::CancelTimer(OverlayTimer::Fade)),
        forall|at: int|
            0 <= at < shown().len() ==> !((#[trigger] shown()[at]) is StartTimer)
                && !(shown()[at] is Fade) && !(shown()[at] is Hide),
{
    assert(shown()[0] == VisibilityAction::CancelTimer(OverlayTimer::Hide));
    assert(shown()[1] == VisibilityAction::CancelTimer(OverlayTimer::Fade));
    assert(shown()[3] == VisibilityAction::Show);
}

/// The window fades just where its time is over, the modifiers are up and nothing holds it; and the
/// time is that of the latest event after which the modifiers were up.
pub proof fn windows_fade_when_their_time_is_over(
    before: OverlayVisibility,
    policy: OverlayEventPolicy,
    now: u64,
    later: u64,
)
    requires
        policy matches OverlayEventPolicy::HideAfter(delay) ==> now + delay <= u64::MAX,
    ensures
        ({
            let waiting = drained(before, policy, now);
            let after = after_hide_timer(waiting, later);
            &&& waiting.fade_started is None
            &&& waiting.modifier_down == before.modifier_down
            &&& after.fade_started is Some <==> !before.modifier_down && (
            policy matches OverlayEventPolicy::HideAfter(delay) && later >= now + delay)
            &&& after.fade_started matches Some(started) ==> started == later
                && after.hide_deadline is None
            &&& policy is Hold <==> waiting.hold_visible
        }),
        before.hold_visible || before.modifier_down ==> after_hide_timer(before, later).fade_started
            == before.fade_started,
{
}

/// Hiding is done by its own timer, after the delay.
pub proof fn hiding_takes_its_delay(delay: int)
    requires
        1 <= delay <= 0xffff_ffff,
    ensures
        hide_timer(delay) matches VisibilityAction::StartTimer { timer, delay: set } && timer
            == OverlayTimer::Hide && set == delay,
{
}

} // verus!
