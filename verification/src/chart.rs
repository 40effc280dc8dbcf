//! The session of one connected client, as a state machine.
//!
//! A session is mounted when the client connects, changed by the events that
//! are delivered to it, and rendered after every change. Its samples only
//! grow; it starts at most once, and when it does it gives up the handle by
//! which the push loop reaches it.

use vstd::prelude::*;
use crate::event::Action;
use crate::event::Event;
use crate::frame::red;
use crate::frame::white;
use crate::frame::Frame;
use crate::frame::FrameView;
use crate::frame::Rgb;
use crate::frame::CANVAS_HEIGHT;
use crate::frame::CANVAS_WIDTH;
use crate::frame::FILL_OPACITY_PERCENT;
use crate::frame::Y_MAX;
use crate::sample::is_below;
use crate::sample::Sample;

verus! {

/// A session as a mathematical value.
pub struct ChartView<H> {
    /// The samples received so far, oldest first.
    pub samples: Seq<Sample>,
    /// Whether a `Start` event has been handled.
    pub started: bool,
    /// The handle by which events are sent into this session, while the
    /// session still holds it.
    pub socket: Option<H>,
}

impl<H> ChartView<H> {
    /// The session right after a client has connected.
    pub open spec fn mounted(socket: Option<H>) -> ChartView<H> {
        ChartView { samples: Seq::empty(), started: false, socket }
    }

    /// What holds of every session: a started session holds no handle, and
    /// every sample is less than the limit.
    pub open spec fn wf(self) -> bool {
        &&& self.started ==> self.socket is None
        &&& forall|i: int| 0 <= i < self.samples.len() ==> (#[trigger] self.samples[i]).admitted()
    }

    /// The session after one event.
    pub open spec fn step(self, event: Event) -> ChartView<H> {
        match event {
            Event::Start => if self.started {
                self
            } else {
                ChartView { samples: self.samples, started: true, socket: None }
            },
            Event::PushData(sample) => ChartView {
                samples: self.samples.push(sample),
                started: self.started,
                socket: self.socket,
            },
        }
    }

    /// What handling one event asks of the caller: the first `Start` of a
    /// session that holds a handle spawns the push loop, nothing else does.
    pub open spec fn action(self, event: Event) -> Action<H> {
        match event {
            Event::Start => if !self.started && self.socket is Some {
                Action::SpawnPushLoop(self.socket->0)
            } else {
                Action::Idle
            },
            Event::PushData(_) => Action::Idle,
        }
    }

    /// The session after a sequence of events, handled in order.
    pub open spec fn run(self, events: Seq<Event>) -> ChartView<H>
        decreases events.len(),
    {
        if events.len() == 0 {
            self
        } else {
            self.run(events.drop_last()).step(events.last())
        }
    }

    /// How many push loops are spawned while a sequence of events is handled.
    pub open spec fn spawns(self, events: Seq<Event>) -> nat
        decreases events.len(),
    {
        if events.len() == 0 {
            0
        } else {
            let earlier = self.spawns(events.drop_last());
            if self.run(events.drop_last()).action(events.last()) is SpawnPushLoop {
                earlier + 1
            } else {
                earlier
            }
        }
    }

    /// Upper end of the index axis: the index of the newest sample, and 0
    /// where there is none.
    pub open spec fn x_max(self) -> usize {
        if self.samples.len() == 0 {
            0
        } else {
            (self.samples.len() - 1) as usize
        }
    }

    /// What is drawn for the session.
    pub open spec fn frame(self) -> FrameView {
        FrameView {
            canvas: (CANVAS_WIDTH, CANVAS_HEIGHT),
            background: white(),
            x_domain: (0, self.x_max()),
            y_domain: (0, Y_MAX),
            x_mesh: false,
            y_mesh: false,
            series: Seq::new(self.samples.len(), |i: int| (i as usize, self.samples[i])),
            series_color: red(),
            fill_opacity_percent: FILL_OPACITY_PERCENT,
            show_start: !self.started,
        }
    }
}

/// Whether a `Start` event is among the events.
pub open spec fn has_start(events: Seq<Event>) -> bool {
    exists|i: int| 0 <= i < events.len() && #[trigger] events[i] is Start
}

/// The samples that the `PushData` events among the events carry, in the
/// order of the events.
pub open spec fn payloads(events: Seq<Event>) -> Seq<Sample>
    decreases events.len(),
{
    if events.len() == 0 {
        Seq::empty()
    } else {
        match events.last() {
            Event::Start => payloads(events.drop_last()),
            Event::PushData(sample) => payloads(events.drop_last()).push(sample),
        }
    }
}

/// One `PushData` event for each of the draws, in their order.
pub open spec fn pushes(draws: Seq<Sample>) -> Seq<Event> {
    Seq::new(draws.len(), |i: int| Event::PushData(draws[i]))
}

impl<H> ChartView<H> {
    /// A session is started after a sequence of events exactly if it was
    /// started before or a `Start` is among them: it never goes back.
    pub proof fn lemma_started_once(self, events: Seq<Event>)
        ensures
            self.run(events).started == (self.started || has_start(events)),
        decreases events.len(),
    {
        if events.len() > 0 {
            let earlier = events.drop_last();
            self.lemma_started_once(earlier);
            if has_start(events) {
                let i = choose|i: int| 0 <= i < events.len() && #[trigger] events[i] is Start;
                if i < earlier.len() {
                    assert(earlier[i] is Start);
                }
            }
            if has_start(earlier) {
                let i = choose|i: int| 0 <= i < earlier.len() && #[trigger] earlier[i] is Start;
                assert(events[i] is Start);
            }
            if events.last() is Start {
                assert(events[events.len() - 1] is Start);
            }
        }
    }

    /// Whatever events a session is sent, and however many of them are
    /// `Start`, at most one push loop is spawned: exactly one if the session
    /// was not started, held a handle and a `Start` is among the events, and
    /// none otherwise.
    pub proof fn lemma_at_most_one_spawn(self, events: Seq<Event>)
        ensures
            self.spawns(events) <= 1,
            self.spawns(events) == 1 <==> !self.started && self.socket is Some && has_start(events),
        decreases events.len(),
    {
        if events.len() > 0 {
            let earlier = events.drop_last();
            self.lemma_at_most_one_spawn(earlier);
            self.lemma_started_once(earlier);
            self.lemma_started_once(events);
            self.lemma_socket_kept_until_start(earlier);
        }
    }

    /// Until it is started a session holds the handle that it was given, and
    /// from then on none.
    pub proof fn lemma_socket_kept_until_start(self, events: Seq<Event>)
        ensures
            self.run(events).socket == if has_start(events) && !self.started {
                None
            } else {
                self.socket
            },
        decreases events.len(),
    {
        if events.len() > 0 {
            let earlier = events.drop_last();
            self.lemma_socket_kept_until_start(earlier);
            self.lemma_started_once(earlier);
            self.lemma_started_once(events);
        }
    }

    /// The samples of a session only grow: after a sequence of events they
    /// are the samples from before, followed by what the `PushData` events
    /// carried, in the order of delivery.
    pub proof fn lemma_samples_appended(self, events: Seq<Event>)
        ensures
            self.run(events).samples == self.samples + payloads(events),
            self.samples.is_prefix_of(self.run(events).samples),
        decreases events.len(),
    {
        if events.len() > 0 {
            self.lemma_samples_appended(events.drop_last());
        }
        assert(self.run(events).samples =~= self.samples + payloads(events));
    }

    /// After one `PushData` event for each of `draws`, the session has that
    /// many samples more, and the new ones are the draws in their order.
    pub proof fn lemma_push_data_appends(self, draws: Seq<Sample>)
        ensures
            self.run(pushes(draws)).samples == self.samples + draws,
            self.run(pushes(draws)).samples.len() == self.samples.len() + draws.len(),
            self.run(pushes(draws)).started == self.started,
            self.run(pushes(draws)).socket == self.socket,
    {
        lemma_payloads_of_pushes(draws);
        self.lemma_samples_appended(pushes(draws));
        self.lemma_started_once(pushes(draws));
        self.lemma_socket_kept_until_start(pushes(draws));
    }

    /// Two freshly mounted sessions that are sent the same draws end with the
    /// same samples, whatever handles they hold: the draws themselves.
    pub proof fn lemma_same_draws_same_samples(first: Option<H>, second: Option<H>, draws: Seq<Sample>)
        ensures
            Self::mounted(first).run(pushes(draws)).samples == draws,
            Self::mounted(first).run(pushes(draws)).samples
                == Self::mounted(second).run(pushes(draws)).samples,
    {
        Self::mounted(first).lemma_push_data_appends(draws);
        Self::mounted(second).lemma_push_data_appends(draws);
        assert(Seq::<Sample>::empty() + draws =~= draws);
    }

    /// A freshly mounted session is well-formed.
    pub proof fn lemma_mounted_wf(socket: Option<H>)
        ensures
            Self::mounted(socket).wf(),
    {
    }

    /// A well-formed session stays so under events whose samples are
    /// admitted: once started it holds no handle, and every one of its
    /// samples is less than the limit.
    pub proof fn lemma_wf_kept(self, events: Seq<Event>)
        requires
            self.wf(),
            forall|i: int| 0 <= i < events.len() ==> (#[trigger] events[i] matches Event::PushData(s) ==> s.admitted()),
        ensures
            self.run(events).wf(),
        decreases events.len(),
    {
        if events.len() > 0 {
            let earlier = events.drop_last();
            assert forall|i: int| 0 <= i < earlier.len() implies (#[trigger] earlier[i] matches Event::PushData(s) ==> s.admitted()) by {
                assert(earlier[i] == events[i]);
            }
            self.lemma_wf_kept(earlier);
            assert(events.last() == events[events.len() - 1]);
        }
    }

    /// The index axis never runs backwards: it starts at 0 and ends at the
    /// index of the newest sample, or at 0 while there is none.
    pub proof fn lemma_x_domain_ordered(self)
        requires
            self.samples.len() <= usize::MAX,
        ensures
            self.frame().x_domain.0 == 0,
            self.frame().x_domain.0 <= self.frame().x_domain.1,
            self.samples.len() == 0 ==> self.frame().x_domain.1 == 0,
            self.samples.len() > 0 ==> self.frame().x_domain.1 == self.samples.len() - 1,
            self.frame().series.len() == self.samples.len(),
    {
    }

    /// The start control is shown from the mount until the first `Start`
    /// event, and never after it.
    pub proof fn lemma_start_control(socket: Option<H>, events: Seq<Event>)
        ensures
            Self::mounted(socket).frame().show_start,
            Self::mounted(socket).run(events).frame().show_start == !has_start(events),
    {
        Self::mounted(socket).lemma_started_once(events);
    }
}

/// The events that `pushes` makes carry the draws they were made from.
pub proof fn lemma_payloads_of_pushes(draws: Seq<Sample>)
    ensures
        payloads(pushes(draws)) == draws,
        !has_start(pushes(draws)),
    decreases draws.len(),
{
    if draws.len() > 0 {
        lemma_payloads_of_pushes(draws.drop_last());
        assert(pushes(draws).drop_last() =~= pushes(draws.drop_last()));
    }
    assert(payloads(pushes(draws)) =~= draws);
}

/// The session of one connected client. `H` is the type of the handle by
/// which another task sends events into the session.
pub struct Chart<H> {
    data: Vec<Sample>,
    has_started: bool,
    socket: Option<H>,
}

impl<H> View for Chart<H> {
    type V = ChartView<H>;

    closed spec fn view(&self) -> ChartView<H> {
        ChartView { samples: self.data@, started: self.has_started, socket: self.socket }
    }
}

impl<H> Chart<H> {
    #[verifier::type_invariant]
    spec fn inv(self) -> bool {
        self@.wf()
    }

    /// A fresh session for a client that has just connected: no samples, not
    /// started, holding the connection's handle if there is one.
    pub fn mount(socket: Option<H>) -> (chart: Chart<H>)
        ensures
            chart@ == ChartView::mounted(socket),
            chart@.wf(),
    {
        Chart { data: Vec::new(), has_started: false, socket }
    }

    /// Handles one event.
    ///
    /// The first `Start` marks the session as started and hands out its
    /// handle for the push loop; any later `Start` changes nothing.
    /// `PushData` appends its sample.
    pub fn handle(&mut self, event: Event) -> (action: Action<H>)
        ensures
            final(self)@ == old(self)@.step(event),
            action == old(self)@.action(event),
            final(self)@.wf(),
    {
        proof {
            use_type_invariant(&*self);
        }
        match event {
            Event::Start => {
                if self.has_started {
                    Action::Idle
                } else {
                    let mut socket: Option<H> = None;
                    core::mem::swap(&mut self.socket, &mut socket);
                    self.has_started = true;
                    match socket {
                        Some(handle) => Action::SpawnPushLoop(handle),
                        None => Action::Idle,
                    }
                }
            },
            Event::PushData(sample) => {
                proof {
                    use_type_invariant(&sample);
                }
                // The samples are moved out while one is appended, and moved
                // back, so that the session is whole wherever it can be seen.
                let mut data: Vec<Sample> = Vec::new();
                core::mem::swap(&mut self.data, &mut data);
                data.push(sample);
                core::mem::swap(&mut self.data, &mut data);
                Action::Idle
            },
        }
    }

    /// Describes what is drawn for the session as it is now. The session is
    /// left as it was. The index axis does not run backwards, and every point
    /// of the series lies below the upper end of the value axis.
    pub fn render(&self) -> (frame: Frame)
        ensures
            frame@ == self@.frame(),
            frame.x_domain.0 <= frame.x_domain.1,
            forall|i: int|
                0 <= i < frame.series@.len() ==> is_below(
                    (#[trigger] frame.series@[i]).1@,
                    frame.y_domain.1 as nat,
                ),
    {
        proof {
            use_type_invariant(self);
        }
        let n = self.data.len();
        let mut series: Vec<(usize, Sample)> = Vec::new();
        let mut i: usize = 0;
        while i < n
            invariant
                n == self.data@.len(),
                i <= n,
                series@.len() == i,
                forall|j: int| 0 <= j < i ==> series@[j] == (j as usize, self.data@[j]),
            decreases n - i,
        {
            series.push((i, self.data[i]));
            i += 1;
        }
        assert(series@ =~= self@.frame().series);
        Frame {
            canvas: (CANVAS_WIDTH, CANVAS_HEIGHT),
            background: Rgb { red: 255, green: 255, blue: 255 },
            x_domain: (0, n.saturating_sub(1)),
            y_domain: (0, Y_MAX),
            x_mesh: false,
            y_mesh: false,
            series,
            series_color: Rgb { red: 255, green: 0, blue: 0 },
            fill_opacity_percent: FILL_OPACITY_PERCENT,
            show_start: !self.has_started,
        }
    }

    /// The samples received so far, oldest first. Each is less than the limit.
    pub fn samples(&self) -> (samples: &Vec<Sample>)
        ensures
            samples@ == self@.samples,
            self@.wf(),
    {
        proof {
            use_type_invariant(self);
        }
        &self.data
    }

    /// Whether a `Start` event has been handled.
    pub fn has_started(&self) -> (started: bool)
        ensures
            started == self@.started,
    {
        self.has_started
    }

    /// Whether the session still holds its handle.
    pub fn holds_socket(&self) -> (held: bool)
        ensures
            held == (self@.socket is Some),
    {
        self.socket.is_some()
    }
}

} // verus!
