use vstd::prelude::*;

verus! {

/// What one firing left of a timer.
#[derive(Debug, Copy, Clone, PartialEq, Eq, Structural)]
pub enum TimerResult {
    /// Fired and stays scheduled.
    Continue,
    /// Not enabled right now; it may be resumed later.
    Pause,
    /// No firings left; it should be descheduled.
    Exhausted,
}

/// Caller-facing identity of a scheduled timer.
pub type TimerHandle = usize;

/// One scheduled timer. The work to run on each firing stays with the
/// caller, keyed by the handle; the manager only reports which timers
/// fired.
pub struct Timer {
    pub handle: TimerHandle,
    pub enabled: bool,
    pub interval: u64,
    pub next_trigger: u64,
    pub repeat_count: i64,
}

impl Timer {
    /// Record one firing: a disabled timer pauses, a spent one is
    /// exhausted, otherwise the repeat budget shrinks and the next
    /// firing moves one interval later.
    pub fn trigger(&mut self) -> (r: TimerResult)
        requires
            old(self).next_trigger + old(self).interval <= u64::MAX,
        ensures
            final(self).handle == old(self).handle,
            final(self).interval == old(self).interval,
            !old(self).enabled ==> r == TimerResult::Pause && *final(self) == *old(self),
            old(self).enabled && old(self).repeat_count < 0 ==> r == TimerResult::Exhausted
                && *final(self) == *old(self),
            old(self).enabled && old(self).repeat_count >= 0 ==> {
                &&& final(self).repeat_count == old(self).repeat_count - 1
                &&& final(self).next_trigger == old(self).next_trigger + old(self).interval
                &&& if old(self).repeat_count == 0 {
                    r == TimerResult::Exhausted && !final(self).enabled
                } else {
                    r == TimerResult::Continue && final(self).enabled == old(self).enabled
                }
            },
    {
        if !self.enabled {
            return TimerResult::Pause;
        }
        if self.repeat_count < 0 {
            return TimerResult::Exhausted;
        }
        self.repeat_count = self.repeat_count - 1;
        self.next_trigger = self.next_trigger + self.interval;
        if self.repeat_count < 0 {
            self.enabled = false;
            TimerResult::Exhausted
        } else {
            TimerResult::Continue
        }
    }

    /// Whether the timer is due at the given time.
    pub fn should_trigger(&self, now_millis: u64) -> (r: bool)
        ensures
            r == (now_millis >= self.next_trigger),
    {
        now_millis >= self.next_trigger
    }
}

/// Whether any timer in the list carries the handle.
pub open spec fn spec_has_handle(s: Seq<Timer>, handle: TimerHandle) -> bool {
    exists|i: int| 0 <= i < s.len() && (#[trigger] s[i]).handle == handle
}

/// Keeps active and paused timers apart, hands out fresh handles, and
/// reports which timers fire on each tick.
pub struct TimerManager {
    pub active_timers: Vec<Timer>,
    pub inactive_timers: Vec<Timer>,
    pub current_handle: TimerHandle,
}

impl TimerManager {
    /// Handles are unique across both lists and always below the next
    /// fresh handle.
    pub open spec fn inv(&self) -> bool {
        &&& forall|i: int, j: int|
            0 <= i < j < self.active_timers@.len() ==> (#[trigger] self.active_timers@[i]).handle
                != (#[trigger] self.active_timers@[j]).handle
        &&& forall|i: int, j: int|
            0 <= i < j < self.inactive_timers@.len() ==> (
            #[trigger] self.inactive_timers@[i]).handle != (
            #[trigger] self.inactive_timers@[j]).handle
        &&& forall|i: int, j: int|
            0 <= i < self.active_timers@.len() && 0 <= j < self.inactive_timers@.len() ==> (
            #[trigger] self.active_timers@[i]).handle != (
            #[trigger] self.inactive_timers@[j]).handle
        &&& forall|i: int|
            0 <= i < self.active_timers@.len() ==> (#[trigger] self.active_timers@[i]).handle
                < self.current_handle
        &&& forall|i: int|
            0 <= i < self.inactive_timers@.len() ==> (#[trigger] self.inactive_timers@[i]).handle
                < self.current_handle
    }

    /// Fresh manager with nothing scheduled.
    pub fn new() -> (r: TimerManager)
        ensures
            r.inv(),
            r.active_timers@.len() == 0,
            r.inactive_timers@.len() == 0,
            r.current_handle == 0,
    {
        TimerManager { active_timers: Vec::new(), inactive_timers: Vec::new(), current_handle: 0 }
    }

    /// Schedule a single firing at the given time.
    pub fn schedule_once(&mut self, at: u64) -> (handle: TimerHandle)
        requires
            old(self).inv(),
            old(self).current_handle < usize::MAX,
        ensures
            final(self).inv(),
            handle == old(self).current_handle,
            final(self).current_handle == old(self).current_handle + 1,
            final(self).inactive_timers@ == old(self).inactive_timers@,
            final(self).active_timers@ == old(self).active_timers@.push(
                Timer {
                    handle,
                    enabled: true,
                    interval: 0,
                    next_trigger: at,
                    repeat_count: 0,
                },
            ),
    {
        let handle = self.current_handle;
        let timer = Timer { handle, enabled: true, interval: 0, next_trigger: at, repeat_count: 0 };
        self.active_timers.push(timer);
        self.current_handle = self.current_handle + 1;
        handle
    }

    /// Schedule a repeating timer: it first fires one interval from now
    /// and then `repeat_count` more times.
    pub fn schedule(&mut self, now_millis: u64, interval: u64, repeat_count: i64) -> (handle:
        TimerHandle)
        requires
            old(self).inv(),
            old(self).current_handle < usize::MAX,
            now_millis + interval <= u64::MAX,
        ensures
            final(self).inv(),
            handle == old(self).current_handle,
            final(self).current_handle == old(self).current_handle + 1,
            final(self).inactive_timers@ == old(self).inactive_timers@,
            final(self).active_timers@ == old(self).active_timers@.push(
                Timer {
                    handle,
                    enabled: true,
                    interval,
                    next_trigger: (now_millis + interval) as u64,
                    repeat_count,
                },
            ),
    {
        let handle = self.current_handle;
        let timer = Timer {
            handle,
            enabled: true,
            interval,
            next_trigger: now_millis + interval,
            repeat_count,
        };
        self.active_timers.push(timer);
        self.current_handle = self.current_handle + 1;
        handle
    }

    /// Position of a handle within a timer list.
    fn position_of(timers: &Vec<Timer>, handle: TimerHandle) -> (r: Option<usize>)
        ensures
            match r {
                Some(i) => i < timers@.len() && timers@[i as int].handle == handle,
                None => !spec_has_handle(timers@, handle),
            },
    {
        let n = timers.len();
        let mut i: usize = 0;
        while i < n
            invariant
                n == timers@.len(),
                i <= n,
                forall|j: int| 0 <= j < i ==> (#[trigger] timers@[j]).handle != handle,
            decreases n - i,
        {
            if timers[i].handle == handle {
                return Some(i);
            }
            i = i + 1;
        }
        None
    }

    /// Put a scheduled timer on hold; unknown handles are ignored.
    pub fn pause(&mut self, timer_handle: TimerHandle)
        requires
            old(self).inv(),
        ensures
            final(self).inv(),
            final(self).current_handle == old(self).current_handle,
            !spec_has_handle(old(self).active_timers@, timer_handle) ==> *final(self) == *old(
                self,
            ),
            spec_has_handle(old(self).active_timers@, timer_handle) ==> {
                &&& final(self).active_timers@.len() == old(self).active_timers@.len() - 1
                &&& !spec_has_handle(final(self).active_timers@, timer_handle)
                &&& final(self).inactive_timers@.len() == old(self).inactive_timers@.len() + 1
                &&& final(self).inactive_timers@.last().handle == timer_handle
                &&& !final(self).inactive_timers@.last().enabled
            },
    {
        let position = Self::position_of(&self.active_timers, timer_handle);
        match position {
            Some(i) => {
                let ghost pre = self.active_timers@;
                let mut timer = self.active_timers.remove(i);
                timer.enabled = false;
                self.inactive_timers.push(timer);
                proof {
                    assert forall|a: int, b: int|
                        0 <= a < b < self.active_timers@.len() implies (
                        #[trigger] self.active_timers@[a]).handle != (
                        #[trigger] self.active_timers@[b]).handle by {
                        let oa = if a < i { a } else { a + 1 };
                        let ob = if b < i { b } else { b + 1 };
                        assert(self.active_timers@[a] == pre[oa]);
                        assert(self.active_timers@[b] == pre[ob]);
                    }
                    assert forall|a: int|
                        0 <= a < self.active_timers@.len() implies (
                        #[trigger] self.active_timers@[a]).handle != timer_handle && (
                        self.active_timers@[a]).handle < self.current_handle by {
                        let oa = if a < i { a } else { a + 1 };
                        assert(self.active_timers@[a] == pre[oa]);
                    }
                }
            },
            None => {},
        }
    }

    /// Resume a held timer; unknown handles are ignored.
    pub fn resume(&mut self, timer_handle: TimerHandle)
        requires
            old(self).inv(),
        ensures
            final(self).inv(),
            final(self).current_handle == old(self).current_handle,
            !spec_has_handle(old(self).inactive_timers@, timer_handle) ==> *final(self) == *old(
                self,
            ),
            spec_has_handle(old(self).inactive_timers@, timer_handle) ==> {
                &&& final(self).inactive_timers@.len() == old(self).inactive_timers@.len() - 1
                &&& !spec_has_handle(final(self).inactive_timers@, timer_handle)
                &&& final(self).active_timers@.len() == old(self).active_timers@.len() + 1
                &&& final(self).active_timers@.last().handle == timer_handle
                &&& final(self).active_timers@.last().enabled
            },
    {
        let position = Self::position_of(&self.inactive_timers, timer_handle);
        match position {
            Some(i) => {
                let ghost pre = self.inactive_timers@;
                let mut timer = self.inactive_timers.remove(i);
                timer.enabled = true;
                self.active_timers.push(timer);
                proof {
                    assert forall|a: int, b: int|
                        0 <= a < b < self.inactive_timers@.len() implies (
                        #[trigger] self.inactive_timers@[a]).handle != (
                        #[trigger] self.inactive_timers@[b]).handle by {
                        let oa = if a < i { a } else { a + 1 };
                        let ob = if b < i { b } else { b + 1 };
                        assert(self.inactive_timers@[a] == pre[oa]);
                        assert(self.inactive_timers@[b] == pre[ob]);
                    }
                    assert forall|a: int|
                        0 <= a < self.inactive_timers@.len() implies (
                        #[trigger] self.inactive_timers@[a]).handle != timer_handle && (
                        self.inactive_timers@[a]).handle < self.current_handle by {
                        let oa = if a < i { a } else { a + 1 };
                        assert(self.inactive_timers@[a] == pre[oa]);
                    }
                }
            },
            None => {},
        }
    }

    /// Forget a timer entirely, scheduled or held.
    pub fn remove(&mut self, timer_handle: TimerHandle)
        requires
            old(self).inv(),
        ensures
            final(self).inv(),
            final(self).current_handle == old(self).current_handle,
            !spec_has_handle(final(self).active_timers@, timer_handle),
            !spec_has_handle(final(self).inactive_timers@, timer_handle),
    {
        let position = Self::position_of(&self.active_timers, timer_handle);
        match position {
            Some(i) => {
                let ghost pre = self.active_timers@;
                self.active_timers.remove(i);
                proof {
                    assert forall|a: int, b: int|
                        0 <= a < b < self.active_timers@.len() implies (
                        #[trigger] self.active_timers@[a]).handle != (
                        #[trigger] self.active_timers@[b]).handle by {
                        let oa = if a < i { a } else { a + 1 };
                        let ob = if b < i { b } else { b + 1 };
                        assert(self.active_timers@[a] == pre[oa]);
                        assert(self.active_timers@[b] == pre[ob]);
                    }
                    assert forall|a: int|
                        0 <= a < self.active_timers@.len() implies (
                        #[trigger] self.active_timers@[a]).handle != timer_handle && (
                        self.active_timers@[a]).handle < self.current_handle by {
                        let oa = if a < i { a } else { a + 1 };
                        assert(self.active_timers@[a] == pre[oa]);
                    }
                }
            },
            None => {},
        }
        let position = Self::position_of(&self.inactive_timers, timer_handle);
        match position {
            Some(i) => {
                let ghost pre = self.inactive_timers@;
                self.inactive_timers.remove(i);
                proof {
                    assert forall|a: int, b: int|
                        0 <= a < b < self.inactive_timers@.len() implies (
                        #[trigger] self.inactive_timers@[a]).handle != (
                        #[trigger] self.inactive_timers@[b]).handle by {
                        let oa = if a < i { a } else { a + 1 };
                        let ob = if b < i { b } else { b + 1 };
                        assert(self.inactive_timers@[a] == pre[oa]);
                        assert(self.inactive_timers@[b] == pre[ob]);
                    }
                    assert forall|a: int|
                        0 <= a < self.inactive_timers@.len() implies (
                        #[trigger] self.inactive_timers@[a]).handle != timer_handle && (
                        self.inactive_timers@[a]).handle < self.current_handle by {
                        let oa = if a < i { a } else { a + 1 };
                        assert(self.inactive_timers@[a] == pre[oa]);
                    }
                }
            },
            None => {},
        }
    }

    /// Fire every due timer once, in list order, and return the handles
    /// that fired so the caller can run the work keyed by them. Timers
    /// that report themselves exhausted are removed, paused ones held.
    pub fn tick(&mut self, now_millis: u64) -> (fired: Vec<TimerHandle>)
        requires
            old(self).inv(),
            forall|i: int|
                0 <= i < old(self).active_timers@.len() ==> (
                #[trigger] old(self).active_timers@[i]).next_trigger + old(
                    self,
                ).active_timers@[i].interval <= u64::MAX,
        ensures
            final(self).inv(),
            final(self).current_handle == old(self).current_handle,
            forall|i: int|
                0 <= i < fired@.len() ==> spec_has_handle(
                    old(self).active_timers@,
                    #[trigger] fired@[i],
                ),
    {
        let mut fired: Vec<TimerHandle> = Vec::new();
        let mut to_remove: Vec<TimerHandle> = Vec::new();
        let mut to_pause: Vec<TimerHandle> = Vec::new();
        let n = self.active_timers.len();
        let mut i: usize = 0;
        let ghost before = self.active_timers@;
        while i < n
            invariant
                i <= n,
                n == self.active_timers@.len(),
                n == before.len(),
                forall|j: int|
                    0 <= j < before.len() ==> (#[trigger] before[j]).next_trigger
                        + before[j].interval <= u64::MAX,
                self.inv(),
                self.current_handle == old(self).current_handle,
                self.inactive_timers@ == old(self).inactive_timers@,
                forall|j: int|
                    0 <= j < self.active_timers@.len() ==> (
                    #[trigger] self.active_timers@[j]).handle == before[j].handle,
                forall|j: int|
                    0 <= j < self.active_timers@.len() ==> (
                    #[trigger] self.active_timers@[j]).next_trigger
                        + self.active_timers@[j].interval <= u64::MAX + u64::MAX,
                forall|j: int|
                    i <= j < self.active_timers@.len() ==> #[trigger] self.active_timers@[j]
                        == before[j],
                forall|k: int|
                    0 <= k < fired@.len() ==> spec_has_handle(before, #[trigger] fired@[k]),
                forall|k: int|
                    0 <= k < to_remove@.len() ==> spec_has_handle(
                        before,
                        #[trigger] to_remove@[k],
                    ),
                forall|k: int|
                    0 <= k < to_pause@.len() ==> spec_has_handle(before, #[trigger] to_pause@[k]),
            decreases n - i,
        {
            let due = self.active_timers[i].should_trigger(now_millis);
            if due {
                let ghost pre = self.active_timers@;
                let mut timer = Self::placeholder_timer(self.current_handle);
                proof {
                    assert(pre[i as int] == before[i as int]);
                }
                vstd::pervasive::VecAdditionalExecFns::set_and_swap(
                    &mut self.active_timers,
                    i,
                    &mut timer,
                );
                let handle = timer.handle;
                let result = timer.trigger();
                fired.push(handle);
                vstd::pervasive::VecAdditionalExecFns::set(&mut self.active_timers, i, timer);
                proof {
                    assert(self.active_timers@ =~= pre.update(i as int, self.active_timers@[i as int]));
                    assert(self.active_timers@[i as int].handle == before[i as int].handle);
                    assert(spec_has_handle(before, handle));
                }
                match result {
                    TimerResult::Continue => {},
                    TimerResult::Pause => {
                        to_pause.push(handle);
                    },
                    TimerResult::Exhausted => {
                        to_remove.push(handle);
                    },
                }
            }
            i = i + 1;
        }
        let mut k: usize = 0;
        let m = to_remove.len();
        while k < m
            invariant
                k <= m,
                m == to_remove@.len(),
                self.inv(),
                self.current_handle == old(self).current_handle,
            decreases m - k,
        {
            let handle = to_remove[k];
            self.remove(handle);
            k = k + 1;
        }
        let mut k2: usize = 0;
        let m2 = to_pause.len();
        while k2 < m2
            invariant
                k2 <= m2,
                m2 == to_pause@.len(),
                self.inv(),
                self.current_handle == old(self).current_handle,
            decreases m2 - k2,
        {
            let handle = to_pause[k2];
            self.pause(handle);
            k2 = k2 + 1;
        }
        fired
    }

    /// An inert timer that briefly fills a slot while its real occupant
    /// fires.
    fn placeholder_timer(handle: TimerHandle) -> (r: Timer)
        ensures
            r.handle == handle,
            !r.enabled,
            r.next_trigger == 0,
            r.interval == 0,
    {
        Timer { handle, enabled: false, interval: 0, next_trigger: 0, repeat_count: 0 }
    }
}

} // verus!
