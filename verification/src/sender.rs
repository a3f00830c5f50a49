//! Debounced publishing: irregular updates go out at most once per delay
//! window, the first of a window at once and the latest of the rest when the
//! window ends. The timer is armed only while an update waits for the end of
//! its window: an update that goes out at once disarms it, a firing that
//! finds it disarmed publishes nothing, and a firing that comes before the
//! end of the window arms it again for what is left.
//!
//! [`Sender`] decides; its owner feeds it the messages of its queue and the
//! firing of its timer, each with the current time in milliseconds, and does
//! what the returned [`Action`] says.

use vstd::prelude::*;

verus! {

/// The longest time that a timer can be armed for, in milliseconds.
pub const INFINITY: u32 = 0x7fff_ffff;

/// A configuration that says how long a delay window lasts.
pub trait SenderConfiguration: Clone + 'static {
    /// The length of a delay window in milliseconds.
    spec fn delay_millis(&self) -> u64;

    /// The length of a delay window in milliseconds.
    fn delay(&self) -> (res: u64)
        ensures
            res == self.delay_millis(),
    ;
}

/// What a sender is told through its queue.
pub enum Msg<S, C> where C: SenderConfiguration, S: Clone + 'static {
    /// A new state to publish.
    Update(S),
    /// A new configuration to work with.
    Configure(C),
}

/// What the owner of a sender has to do after a step.
#[derive(Clone, Copy, Debug, PartialEq, Eq, Structural)]
pub enum Action {
    /// Render the sender's state now.
    Publish,
    /// Arm the timer, in place of any armed before, to fire after `millis`.
    Arm { millis: u32 },
    /// Nothing.
    Idle,
    /// Leave the loop: nobody can send to the queue any more.
    Stop,
}

/// `num_traits::ToPrimitive::to_u32` on a `u64`: the same number where it
/// fits into 32 bits, and nothing where it does not.
#[verifier::external_body]
fn to_u32(value: u64) -> (res: Option<u32>)
    ensures
        res == if value <= u32::MAX {
            Some(value as u32)
        } else {
            None::<u32>
        },
{
    num_traits::ToPrimitive::to_u32(&value)
}

/// The sum of `a` and `b`, held at the largest `u64`.
pub open spec fn saturating_sum(a: u64, b: u64) -> u64 {
    if a + b > u64::MAX {
        u64::MAX
    } else {
        (a + b) as u64
    }
}

/// The time to arm a timer for when `remaining` milliseconds are left: the
/// time that is left, and the longest time that a timer can be armed for
/// where more is left.
pub open spec fn timeout_millis(remaining: int) -> u32 {
    if 0 <= remaining <= INFINITY {
        remaining as u32
    } else {
        INFINITY
    }
}

/// The mathematical value of a [`Sender`].
pub struct SenderView<S, C> {
    /// The configuration that rendering works with.
    pub config: C,
    /// The length of a delay window in milliseconds.
    pub delay: u64,
    /// The latest state.
    pub state: S,
    /// The time from which the next update is published at once.
    pub next: u64,
    /// The end of the window that an update waits for, while one waits.
    pub deadline: Option<u64>,
}

impl<S, C: SenderConfiguration> SenderView<S, C> {
    /// The sender after an update to `state` at time `now`.
    pub open spec fn updated(self, state: S, now: u64) -> Self {
        if now >= self.next {
            SenderView { state, next: saturating_sum(now, self.delay), deadline: None, ..self }
        } else {
            SenderView { state, deadline: Some(self.next), ..self }
        }
    }

    /// What an update at time `now` asks of the owner.
    pub open spec fn update_action(self, now: u64) -> Action {
        if now >= self.next {
            Action::Publish
        } else {
            Action::Arm { millis: timeout_millis(self.next - now) }
        }
    }

    /// The sender after it was given `config`.
    pub open spec fn configured(self, config: C) -> Self {
        SenderView { config, delay: config.delay_millis(), ..self }
    }

    /// The sender after its timer fired at time `now`: where the timer was
    /// armed and its time has come, a new window begins, and else the sender
    /// stays as it is.
    pub open spec fn fired(self, now: u64) -> Self {
        match self.deadline {
            Some(deadline) => if now >= deadline {
                SenderView { next: saturating_sum(now, self.delay), deadline: None, ..self }
            } else {
                self
            },
            None => self,
        }
    }

    /// What the firing of the timer at time `now` asks of the owner: to
    /// publish, where the timer was armed and its time has come; to arm the
    /// timer again for what is left, where it fired early; and nothing,
    /// where it was not armed.
    pub open spec fn fire_action(self, now: u64) -> Action {
        match self.deadline {
            Some(deadline) => if now >= deadline {
                Action::Publish
            } else {
                Action::Arm { millis: timeout_millis(deadline - now) }
            },
            None => Action::Idle,
        }
    }

    /// The sender after the updates `updates`, each a time and a state, in
    /// order.
    pub open spec fn updated_all(self, updates: Seq<(u64, S)>) -> Self
        decreases updates.len(),
    {
        if updates.len() == 0 {
            self
        } else {
            self.updated_all(updates.drop_last()).updated(updates.last().1, updates.last().0)
        }
    }

    /// What update `i` of `updates` asks of the owner.
    pub open spec fn update_action_at(self, updates: Seq<(u64, S)>, i: int) -> Action {
        self.updated_all(updates.take(i)).update_action(updates[i].0)
    }
}

/// The state of one debounced publisher.
pub struct Sender<S, C> where C: SenderConfiguration, S: Clone + 'static {
    config: C,
    delay: u64,
    state: S,
    next: u64,
    deadline: Option<u64>,
}

impl<S, C> View for Sender<S, C> where C: SenderConfiguration, S: Clone + 'static {
    type V = SenderView<S, C>;

    closed spec fn view(&self) -> SenderView<S, C> {
        SenderView {
            config: self.config,
            delay: self.delay,
            state: self.state,
            next: self.next,
            deadline: self.deadline,
        }
    }
}

impl<S, C> Sender<S, C> where C: SenderConfiguration, S: Clone + 'static {
    /// A sender that is made at time `now`: the first update is published at
    /// once.
    pub fn new(config: C, initial_state: S, now: u64) -> (res: Self)
        ensures
            res@ == (SenderView {
                config,
                delay: config.delay_millis(),
                state: initial_state,
                next: now,
                deadline: None,
            }),
    {
        let delay = config.delay();
        Sender { config, delay, state: initial_state, next: now, deadline: None }
    }

    /// Starts the loop: the state that the sender was made with goes out.
    pub fn start(&self) -> (res: Action)
        ensures
            res == Action::Publish,
    {
        Action::Publish
    }

    /// Takes the next message of the queue, or `None` once the queue is
    /// closed, at time `now`.
    pub fn handle(&mut self, msg: Option<Msg<S, C>>, now: u64) -> (res: Action)
        ensures
            match msg {
                Some(Msg::Update(state)) => final(self)@ == old(self)@.updated(state, now) && res
                    == old(self)@.update_action(now),
                Some(Msg::Configure(config)) => final(self)@ == old(self)@.configured(config)
                    && res == Action::Idle,
                None => final(self)@ == old(self)@ && res == Action::Stop,
            },
    {
        match msg {
            Some(Msg::Update(state)) => {
                self.state = state;
                if now >= self.next {
                    self.next = now.saturating_add(self.delay);
                    self.deadline = None;
                    Action::Publish
                } else {
                    let remaining = self.next - now;
                    self.deadline = Some(self.next);
                    Action::Arm { millis: Self::timeout(remaining) }
                }
            },
            Some(Msg::Configure(config)) => {
                self.delay = config.delay();
                self.config = config;
                Action::Idle
            },
            None => Action::Stop,
        }
    }

    /// Takes the firing of the timer at time `now`: where the timer was
    /// armed and its time has come, the latest state goes out, and a new
    /// window begins; where it fired before its time, it is armed again for
    /// what is left.
    pub fn fire(&mut self, now: u64) -> (res: Action)
        ensures
            final(self)@ == old(self)@.fired(now),
            res == old(self)@.fire_action(now),
    {
        match self.deadline {
            Some(deadline) => {
                if now >= deadline {
                    self.next = now.saturating_add(self.delay);
                    self.deadline = None;
                    Action::Publish
                } else {
                    Action::Arm { millis: Self::timeout(deadline - now) }
                }
            },
            None => Action::Idle,
        }
    }

    /// The time to arm a timer for when `remaining` milliseconds are left.
    fn timeout(remaining: u64) -> (res: u32)
        ensures
            res == timeout_millis(remaining as int),
    {
        match to_u32(remaining) {
            Some(millis) => if millis <= INFINITY {
                millis
            } else {
                INFINITY
            },
            None => INFINITY,
        }
    }

    /// The latest state: what a publish renders.
    pub fn state(&self) -> (res: &S)
        ensures
            *res == self@.state,
    {
        &self.state
    }

    /// The configuration that rendering works with.
    pub fn config(&self) -> (res: &C)
        ensures
            *res == self@.config,
    {
        &self.config
    }

    /// The length of a delay window in milliseconds.
    pub fn delay(&self) -> (res: u64)
        ensures
            res == self@.delay,
    {
        self.delay
    }

    /// The time from which the next update is published at once.
    pub fn next(&self) -> (res: u64)
        ensures
            res == self@.next,
    {
        self.next
    }

    /// The end of the window that an update waits for, while one waits.
    pub fn deadline(&self) -> (res: Option<u64>)
        ensures
            res == self@.deadline,
    {
        self.deadline
    }
}

/// A burst of updates inside one delay window publishes nothing while it
/// lasts: each update arms the timer for the end of the window, and the
/// sender holds the state of the last one.
pub proof fn lemma_burst_waits<S, C: SenderConfiguration>(
    sender: SenderView<S, C>,
    updates: Seq<(u64, S)>,
)
    requires
        updates.len() > 0,
        forall|i: int| 0 <= i < updates.len() ==> (#[trigger] updates[i]).0 < sender.next,
    ensures
        forall|i: int|
            0 <= i < updates.len() ==> #[trigger] sender.update_action_at(updates, i)
                == (Action::Arm { millis: timeout_millis(sender.next - updates[i].0) }),
        sender.updated_all(updates) == (SenderView {
            state: updates.last().1,
            deadline: Some(sender.next),
            ..sender
        }),
    decreases updates.len(),
{
    let init = updates.drop_last();
    if init.len() > 0 {
        lemma_burst_waits(sender, init);
        assert forall|i: int| 0 <= i < updates.len() implies #[trigger] sender.update_action_at(
            updates,
            i,
        ) == (Action::Arm { millis: timeout_millis(sender.next - updates[i].0) }) by {
            if i < init.len() {
                assert(updates.take(i) =~= init.take(i));
                assert(sender.update_action_at(init, i) == sender.update_action_at(updates, i));
            } else {
                assert(updates.take(i) =~= init);
            }
        }
    } else {
        assert(sender.updated_all(init) == sender);
        assert(updates.take(0) =~= init);
    }
}

/// The end of a burst: when the timer fires at the end of the window or
/// later, after a burst of updates inside the window, exactly the state of
/// the last update goes out, the timer is left unarmed, and the next window
/// starts at the firing. A firing before the end of the window publishes
/// nothing, changes nothing, and arms the timer again for what is left.
pub proof fn lemma_burst_publishes_latest<S, C: SenderConfiguration>(
    sender: SenderView<S, C>,
    updates: Seq<(u64, S)>,
    fired_at: u64,
)
    requires
        updates.len() > 0,
        forall|i: int| 0 <= i < updates.len() ==> (#[trigger] updates[i]).0 < sender.next,
    ensures
        fired_at >= sender.next ==> sender.updated_all(updates).fire_action(fired_at)
            == Action::Publish && sender.updated_all(updates).fired(fired_at) == (SenderView {
            state: updates.last().1,
            next: saturating_sum(fired_at, sender.delay),
            deadline: None,
            ..sender
        }),
        fired_at < sender.next ==> sender.updated_all(updates).fire_action(fired_at)
            == (Action::Arm { millis: timeout_millis(sender.next - fired_at) })
            && sender.updated_all(updates).fired(fired_at) == sender.updated_all(updates),
{
    lemma_burst_waits(sender, updates);
}

/// Updates that lie at least one delay apart, the first of them not before
/// the window opens, are each published at once.
pub proof fn lemma_spaced_updates_publish<S, C: SenderConfiguration>(
    sender: SenderView<S, C>,
    updates: Seq<(u64, S)>,
)
    requires
        updates.len() > 0,
        updates[0].0 >= sender.next,
        forall|i: int|
            0 < i < updates.len() ==> (#[trigger] updates[i]).0 >= updates[i - 1].0 + sender.delay,
    ensures
        forall|i: int|
            0 <= i < updates.len() ==> #[trigger] sender.update_action_at(updates, i)
                == Action::Publish,
        sender.updated_all(updates) == (SenderView {
            state: updates.last().1,
            next: saturating_sum(updates.last().0, sender.delay),
            deadline: None,
            ..sender
        }),
    decreases updates.len(),
{
    let init = updates.drop_last();
    if init.len() > 0 {
        lemma_spaced_updates_publish(sender, init);
        assert forall|i: int| 0 <= i < updates.len() implies #[trigger] sender.update_action_at(
            updates,
            i,
        ) == Action::Publish by {
            if i < init.len() {
                assert(updates.take(i) =~= init.take(i));
                assert(sender.update_action_at(init, i) == sender.update_action_at(updates, i));
            } else {
                assert(updates.take(i) =~= init);
            }
        }
    } else {
        assert(sender.updated_all(init) == sender);
        assert(updates.take(0) =~= init);
    }
}


/// What happens to a sender, with the time at which it does.
pub enum Step<S> {
    /// An update to the given state.
    Update(u64, S),
    /// The firing of the timer.
    Fire(u64),
}

impl<S> Step<S> {
    /// The time of the step.
    pub open spec fn time(self) -> u64 {
        match self {
            Step::Update(now, _) => now,
            Step::Fire(now) => now,
        }
    }
}

impl<S, C: SenderConfiguration> SenderView<S, C> {
    /// The sender after `step`.
    pub open spec fn stepped(self, step: Step<S>) -> Self {
        match step {
            Step::Update(now, state) => self.updated(state, now),
            Step::Fire(now) => self.fired(now),
        }
    }

    /// Whether `step` publishes.
    pub open spec fn publishes(self, step: Step<S>) -> bool {
        match step {
            Step::Update(now, _) => self.update_action(now) == Action::Publish,
            Step::Fire(now) => self.fire_action(now) == Action::Publish,
        }
    }

    /// The sender after `steps`, in order.
    pub open spec fn stepped_all(self, steps: Seq<Step<S>>) -> Self
        decreases steps.len(),
    {
        if steps.len() == 0 {
            self
        } else {
            self.stepped_all(steps.drop_last()).stepped(steps.last())
        }
    }

    /// Whether none of `steps` comes so late that the end of the window
    /// that it may open cannot be told.
    pub open spec fn in_range(self, steps: Seq<Step<S>>) -> bool {
        forall|i: int| 0 <= i < steps.len() ==> (#[trigger] steps[i]).time() + self.delay <= u64::MAX
    }

    /// Whether step `i` of `steps` publishes.
    pub open spec fn publishes_at(self, steps: Seq<Step<S>>, i: int) -> bool {
        self.stepped_all(steps.take(i)).publishes(steps[i])
    }

    /// A timer that is armed is armed for the end of the window.
    pub open spec fn armed_for_the_window(self) -> bool {
        self.deadline matches Some(deadline) ==> deadline == self.next
    }
}

/// However updates and firings follow each other, a timer that is armed is
/// armed for the end of the window, the delay stays, a publication never
/// comes before the end of the window that was open, and the window that it
/// opens ends one delay later at the earliest.
proof fn lemma_window_follows_publications<S, C: SenderConfiguration>(
    sender: SenderView<S, C>,
    steps: Seq<Step<S>>,
)
    requires
        sender.armed_for_the_window(),
        sender.in_range(steps),
    ensures
        sender.stepped_all(steps).delay == sender.delay,
        sender.stepped_all(steps).armed_for_the_window(),
        forall|i: int|
            0 <= i < steps.len() && #[trigger] sender.publishes_at(steps, i) ==> steps[i].time()
                + sender.delay <= sender.stepped_all(steps).next,
        forall|i: int|
            0 <= i < steps.len() && #[trigger] sender.publishes_at(steps, i) ==> steps[i].time()
                >= sender.stepped_all(steps.take(i)).next,
        sender.next <= sender.stepped_all(steps).next,
    decreases steps.len(),
{
    if steps.len() > 0 {
        let earlier = steps.drop_last();
        let last = steps.len() - 1;
        assert(sender.in_range(earlier)) by {
            assert forall|i: int| 0 <= i < earlier.len() implies (#[trigger] earlier[i]).time()
                + sender.delay <= u64::MAX by {
                assert(earlier[i] == steps[i]);
            }
        }
        lemma_window_follows_publications(sender, earlier);
        assert(steps.take(last) =~= earlier);
        assert(steps[last].time() + sender.delay <= u64::MAX);
        assert forall|i: int| 0 <= i < steps.len() && #[trigger] sender.publishes_at(
            steps,
            i,
        ) implies steps[i].time() + sender.delay <= sender.stepped_all(steps).next && steps[i].time()
            >= sender.stepped_all(steps.take(i)).next by {
            if i < last {
                assert(steps.take(i) =~= earlier.take(i));
                assert(sender.publishes_at(earlier, i));
            }
        }
    }
}

/// Publications keep their distance: however updates and firings follow
/// each other, and whenever the timer fires, two publications are never
/// less than one delay apart, and none comes before the end of the window
/// that was open.
pub proof fn lemma_publications_keep_distance<S, C: SenderConfiguration>(
    sender: SenderView<S, C>,
    steps: Seq<Step<S>>,
    i: int,
    j: int,
)
    requires
        sender.armed_for_the_window(),
        sender.in_range(steps),
        0 <= i < j < steps.len(),
        sender.publishes_at(steps, i),
        sender.publishes_at(steps, j),
    ensures
        steps[i].time() + sender.delay <= steps[j].time(),
        steps[i].time() >= sender.stepped_all(steps.take(i)).next,
        steps[j].time() >= sender.stepped_all(steps.take(j)).next,
{
    let until = steps.take(j);
    lemma_in_range_prefix(sender, steps, j);
    lemma_window_follows_publications(sender, until);
    assert(until.take(i) =~= steps.take(i));
    assert(sender.publishes_at(until, i));
    lemma_in_range_prefix(sender, steps, j + 1);
    lemma_window_follows_publications(sender, steps.take(j + 1));
    assert(steps.take(j + 1).take(j) =~= until);
    assert(steps.take(j + 1).take(i) =~= steps.take(i));
    assert(sender.publishes_at(steps.take(j + 1), j));
    assert(sender.publishes_at(steps.take(j + 1), i));
}

/// The beginning of steps that are in range is in range.
proof fn lemma_in_range_prefix<S, C: SenderConfiguration>(
    sender: SenderView<S, C>,
    steps: Seq<Step<S>>,
    n: int,
)
    requires
        sender.in_range(steps),
        0 <= n <= steps.len(),
    ensures
        sender.in_range(steps.take(n)),
{
    assert forall|i: int| 0 <= i < steps.take(n).len() implies (#[trigger] steps.take(n)[i]).time()
        + sender.delay <= u64::MAX by {
        assert(steps.take(n)[i] == steps[i]);
    }
}

} // verus!
