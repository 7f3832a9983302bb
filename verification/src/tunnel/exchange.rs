//! A visitor exchange on one stream: how the request body is let in, how the
//! response is let out, and when either side has to wait.
use super::proxy::{
    fields, head_meaning, meaning_of, returned, returned_status, visitor_response, HeadMeaning,
    HttpResponseHead, ProxyError,
};
use std::collections::VecDeque;
use vstd::prelude::*;

verus! {

/// How many response frames may queue toward the visitor before the relay
/// stops reading the stream (leaving the sender's window to apply pressure).
pub const DOWN_HIGH_WATER: usize = 64;

/// Resume reading the stream once the queue drains below this.
pub const DOWN_LOW_WATER: usize = 16;

/// How many request-body frames may wait for credit before the body reader is
/// paused. Bounds relay memory on a large upload against a slow origin: the
/// visitor's own flow control then applies.
pub const UP_HIGH_WATER: usize = 8;

/// A visitor exchange in progress on one stream. `U` is a frame of the request
/// body, `D` a frame of the response.
pub struct Exchange<U, D> {
    awaiting_head: bool,
    has_sink: bool,
    pending_up: VecDeque<U>,
    reader_parked: bool,
    body_done: bool,
    upgrade_wanted: bool,
    visitor_connect: bool,
    piped: bool,
    pending_down: VecDeque<D>,
    forwarding: bool,
    down_paused: bool,
    client_done: bool,
}

/// What is known of an exchange.
pub struct ExchangeFacts<U, D> {
    /// The response head has not come yet.
    pub awaiting_head: bool,
    /// Response frames have somewhere to go.
    pub has_sink: bool,
    /// Request-body frames that wait for credit, oldest first.
    pub up: Seq<U>,
    /// The body reader waits for room.
    pub reader_parked: bool,
    /// The request body has ended.
    pub body_done: bool,
    /// The visitor asked for an upgrade that was not made: it is taken back when the
    /// exchange becomes a pipe, and a final head that refuses it leaves it set.
    pub upgrade_wanted: bool,
    /// The upgrade came as an extended CONNECT.
    pub visitor_connect: bool,
    /// The exchange became a raw byte pipe.
    pub piped: bool,
    /// Response frames for the visitor, oldest first.
    pub down: Seq<D>,
    /// A frame is being handed to the visitor.
    pub forwarding: bool,
    /// The stream is not read until the queue drains.
    pub down_paused: bool,
    /// The response is complete.
    pub client_done: bool,
}

impl<U, D> ExchangeFacts<U, D> {
    /// The queues are bounded: the body reader waits wherever its queue is
    /// full, and the stream is read only while the response queue has room.
    pub open spec fn bounded(self) -> bool {
        &&& self.up.len() <= UP_HIGH_WATER
        &&& !self.reader_parked ==> self.up.len() < UP_HIGH_WATER
        &&& self.down.len() <= DOWN_HIGH_WATER
        &&& !self.down_paused ==> self.down.len() < DOWN_HIGH_WATER
    }

    /// The stream's half is finished: the body has ended and is sent, and the
    /// exchange is not a pipe nor about to become one.
    pub open spec fn is_finished(self) -> bool {
        self.body_done && self.up.len() == 0 && !self.piped && !self.upgrade_wanted
    }

    /// The exchange after it was asked for something for the visitor, and what
    /// is to be done: at most one frame is handed over at a time.
    pub open spec fn pumped(self) -> (Self, Pump<D>) {
        let rest = self.down.subrange(1, self.down.len() as int);
        if self.forwarding {
            (self, Pump::Idle)
        } else if self.down.len() == 0 {
            (
                self,
                if self.client_done {
                    Pump::Fin
                } else {
                    Pump::Idle
                },
            )
        } else if self.has_sink {
            (
                ExchangeFacts {
                    down: rest,
                    forwarding: true,
                    down_paused: self.down_paused && rest.len() >= DOWN_LOW_WATER,
                    ..self
                },
                Pump::Send(self.down[0]),
            )
        } else {
            (ExchangeFacts { down: rest, ..self }, Pump::Idle)
        }
    }

    /// The exchange after a frame of the response was queued; where it has
    /// nowhere to go it is dropped.
    pub open spec fn queued(self, frame: D) -> Self {
        if self.has_sink {
            ExchangeFacts {
                down: self.down.push(frame),
                down_paused: self.down_paused || self.down.len() + 1 >= DOWN_HIGH_WATER,
                ..self
            }
        } else {
            self
        }
    }

    /// The exchange after a frame was handed to the visitor.
    pub open spec fn handed_over(self) -> Self {
        ExchangeFacts { forwarding: false, ..self }
    }

    /// The exchange after a number of steps toward the visitor, and the frames
    /// that were handed over, in order.
    pub open spec fn after(self, steps: Seq<DownStep<D>>) -> (Self, Seq<D>)
        decreases steps.len(),
    {
        if steps.len() == 0 {
            (self, Seq::empty())
        } else {
            let (x, handed) = self.after(steps.drop_last());
            match steps.last() {
                DownStep::Queue(frame) => (x.queued(frame), handed),
                DownStep::HandedOver => (x.handed_over(), handed),
                DownStep::Pump => {
                    let (y, pump) = x.pumped();
                    (
                        y,
                        match pump {
                            Pump::Send(frame) => handed.push(frame),
                            _ => handed,
                        },
                    )
                },
            }
        }
    }

    /// Nothing is left for the visitor.
    pub open spec fn is_drained(self) -> bool {
        !self.forwarding && self.down.len() == 0
    }
}

/// How handing a frame to the stream went.
#[derive(Debug, Clone, Copy, PartialEq, Eq, Structural)]
pub enum SendOutcome {
    Sent,
    /// There is no credit now.
    WouldBlock,
    /// The frame could not be encoded or sent.
    Failed,
}

/// What is to be done when no more of the body can be sent now.
#[derive(Debug, Clone, Copy, PartialEq, Eq, Structural)]
pub struct DrainEnd {
    /// The body reader is to be woken.
    pub resume: bool,
    /// The stream's half is to be finished.
    pub finish: bool,
}

/// What is to be done toward the visitor.
#[derive(Debug)]
pub enum Pump<D> {
    /// Hand the frame over.
    Send(D),
    /// The exchange is complete and ends.
    Fin,
    /// Nothing.
    Idle,
}

/// A step toward the visitor.
pub enum DownStep<D> {
    /// A frame of the response is queued.
    Queue(D),
    /// Something for the visitor is asked for.
    Pump,
    /// The frame in flight has been handed over.
    HandedOver,
}

/// The frames that are queued in the course of steps, in order.
pub open spec fn frames_of<D>(steps: Seq<DownStep<D>>) -> Seq<D>
    decreases steps.len(),
{
    if steps.len() == 0 {
        Seq::empty()
    } else {
        match steps.last() {
            DownStep::Queue(frame) => frames_of(steps.drop_last()).push(frame),
            _ => frames_of(steps.drop_last()),
        }
    }
}

/// What a message in the place of a response head leads to.
#[derive(Debug)]
pub enum HeadStep {
    /// An interim response, which is dropped; the final head still follows.
    Interim,
    /// The upgrade is answered, and bytes are piped both ways.
    Switch(HttpResponseHead),
    /// The response is handed to the visitor, and its body follows.
    Respond(HttpResponseHead),
    /// The visitor gets the error, and the stream is reset.
    Unreadable(ProxyError),
}

/// The head is what the visitor gets for the client's head.
pub open spec fn answers(
    answer: HttpResponseHead,
    head: HttpResponseHead,
    meaning: HeadMeaning,
    visitor_connect: bool,
) -> bool {
    &&& answer.status == returned_status(head.status, meaning, visitor_connect)
    &&& fields(answer.headers@) == returned(
        fields(head.headers@),
        meaning == HeadMeaning::Switching && visitor_connect,
    )
}

impl<U, D> View for Exchange<U, D> {
    type V = ExchangeFacts<U, D>;

    closed spec fn view(&self) -> ExchangeFacts<U, D> {
        ExchangeFacts {
            awaiting_head: self.awaiting_head,
            has_sink: self.has_sink,
            up: self.pending_up@,
            reader_parked: self.reader_parked,
            body_done: self.body_done,
            upgrade_wanted: self.upgrade_wanted,
            visitor_connect: self.visitor_connect,
            piped: self.piped,
            down: self.pending_down@,
            forwarding: self.forwarding,
            down_paused: self.down_paused,
            client_done: self.client_done,
        }
    }
}

impl<U, D> Exchange<U, D> {
    /// The queues are bounded.
    pub open spec fn wf(&self) -> bool {
        self@.bounded()
    }

    /// An exchange whose request head has been sent.
    pub fn new(upgrade_wanted: bool, visitor_connect: bool) -> (r: Self)
        ensures
            r.wf(),
            r@ == (ExchangeFacts::<U, D> {
                awaiting_head: true,
                has_sink: false,
                up: Seq::empty(),
                reader_parked: false,
                body_done: false,
                upgrade_wanted,
                visitor_connect,
                piped: false,
                down: Seq::empty(),
                forwarding: false,
                down_paused: false,
                client_done: false,
            }),
    {
        Exchange {
            awaiting_head: true,
            has_sink: false,
            pending_up: VecDeque::new(),
            reader_parked: false,
            body_done: false,
            upgrade_wanted,
            visitor_connect,
            piped: false,
            pending_down: VecDeque::new(),
            forwarding: false,
            down_paused: false,
            client_done: false,
        }
    }

    /// Whether the response head has not come yet.
    pub fn awaits_head(&self) -> (r: bool)
        ensures
            r == self@.awaiting_head,
    {
        self.awaiting_head
    }

    /// Whether the reader of the request body waits for room.
    pub fn is_reader_parked(&self) -> (r: bool)
        ensures
            r == self@.reader_parked,
    {
        self.reader_parked
    }

    /// Queues a frame of the request body; the reader waits until
    /// `settle_reader`.
    pub fn queue_body(&mut self, frame: U)
        requires
            old(self).wf(),
            !old(self)@.reader_parked,
        ensures
            final(self).wf(),
            final(self)@ == (ExchangeFacts {
                up: old(self)@.up.push(frame),
                reader_parked: true,
                ..old(self)@
            }),
    {
        self.pending_up.push_back(frame);
        self.reader_parked = true;
    }

    /// The frame of the request body that is to be sent next.
    pub fn next_body(&self) -> (r: Option<&U>)
        ensures
            match r {
                Some(f) => self@.up.len() > 0 && *f == self@.up[0],
                None => self@.up.len() == 0,
            },
    {
        if self.pending_up.len() > 0 {
            Some(&self.pending_up[0])
        } else {
            None
        }
    }

    /// Takes the outcome of sending the next frame of the request body; returns
    /// whether to go on: a frame that was sent leaves the queue, and one that
    /// cannot be sent empties it.
    pub fn body_sent(&mut self, outcome: SendOutcome) -> (go_on: bool)
        requires
            old(self).wf(),
            old(self)@.up.len() > 0,
        ensures
            final(self).wf(),
            go_on == (outcome == SendOutcome::Sent),
            final(self)@ == (ExchangeFacts {
                up: match outcome {
                    SendOutcome::Sent => old(self)@.up.subrange(1, old(self)@.up.len() as int),
                    SendOutcome::WouldBlock => old(self)@.up,
                    SendOutcome::Failed => Seq::empty(),
                },
                ..old(self)@
            }),
    {
        match outcome {
            SendOutcome::Sent => {
                let _ = self.pending_up.pop_front();
                true
            },
            SendOutcome::WouldBlock => false,
            SendOutcome::Failed => {
                self.pending_up.clear();
                false
            },
        }
    }

    /// Decides what follows when no more of the body can be sent now: a reader
    /// that waits is woken where there is room, and the stream's half is
    /// finished where the body is through.
    pub fn drain_end(&mut self) -> (r: DrainEnd)
        requires
            old(self).wf(),
        ensures
            final(self).wf(),
            r.resume == (old(self)@.reader_parked && old(self)@.up.len() < UP_HIGH_WATER),
            r.finish == old(self)@.is_finished(),
            final(self)@ == (ExchangeFacts {
                reader_parked: old(self)@.reader_parked && !r.resume,
                ..old(self)@
            }),
    {
        let resume = self.settle_reader();
        let finish = self.body_done && self.pending_up.len() == 0 && !self.piped
            && !self.upgrade_wanted;
        DrainEnd { resume, finish }
    }

    /// Decides whether the reader of the frame just queued may go on: it may
    /// where the queue has room.
    pub fn settle_reader(&mut self) -> (resume: bool)
        requires
            old(self).wf(),
        ensures
            final(self).wf(),
            resume == (old(self)@.reader_parked && old(self)@.up.len() < UP_HIGH_WATER),
            final(self)@ == (ExchangeFacts {
                reader_parked: old(self)@.reader_parked && !resume,
                ..old(self)@
            }),
    {
        let resume = self.reader_parked && self.pending_up.len() < UP_HIGH_WATER;
        if resume {
            self.reader_parked = false;
        }
        resume
    }

    /// The request body has ended.
    pub fn end_body(&mut self)
        requires
            old(self).wf(),
        ensures
            final(self).wf(),
            final(self)@ == (ExchangeFacts { body_done: true, ..old(self)@ }),
    {
        self.body_done = true;
    }

    /// The visitor closed its side of a pipe: the exchange is an ordinary one
    /// again, and its half of the stream ends once the queue is through.
    pub fn end_pipe(&mut self)
        requires
            old(self).wf(),
        ensures
            final(self).wf(),
            final(self)@ == (ExchangeFacts { body_done: true, piped: false, ..old(self)@ }),
    {
        self.body_done = true;
        self.piped = false;
    }

    /// Whether the stream may be read.
    pub fn may_read(&self) -> (r: bool)
        ensures
            r == !self@.down_paused,
    {
        !self.down_paused
    }

    /// Takes a message that comes where a response head is awaited, decoded
    /// or with the reason why it could not be. An interim head changes
    /// nothing, the answer to an upgrade makes the exchange a pipe, and the
    /// final one opens the response body.
    pub fn on_response_head(&mut self, decoded: Result<HttpResponseHead, String>) -> (r: HeadStep)
        requires
            old(self).wf(),
            old(self)@.awaiting_head,
        ensures
            final(self).wf(),
            match decoded {
                Err(e) => {
                    &&& r matches HeadStep::Unreadable(ProxyError::Codec(why))
                    &&& why@ == e@
                    &&& final(self)@ == (ExchangeFacts { awaiting_head: false, ..old(self)@ })
                },
                Ok(head) => match meaning_of(head.status, old(self)@.upgrade_wanted) {
                    HeadMeaning::Interim => r is Interim && final(self)@ == old(self)@,
                    HeadMeaning::Switching => {
                        &&& r matches HeadStep::Switch(answer)
                        &&& answers(
                            answer,
                            head,
                            HeadMeaning::Switching,
                            old(self)@.visitor_connect,
                        )
                        &&& final(self)@ == (ExchangeFacts {
                            awaiting_head: false,
                            has_sink: true,
                            piped: true,
                            upgrade_wanted: false,
                            ..old(self)@
                        })
                    },
                    HeadMeaning::Final => {
                        &&& r matches HeadStep::Respond(answer)
                        &&& answers(answer, head, HeadMeaning::Final, old(self)@.visitor_connect)
                        &&& final(self)@ == (ExchangeFacts {
                            awaiting_head: false,
                            has_sink: true,
                            ..old(self)@
                        })
                    },
                },
            },
    {
        let head = match decoded {
            Ok(head) => head,
            Err(e) => {
                self.awaiting_head = false;
                return HeadStep::Unreadable(ProxyError::Codec(e));
            },
        };
        let meaning = head_meaning(head.status, self.upgrade_wanted);
        match meaning {
            HeadMeaning::Interim => HeadStep::Interim,
            HeadMeaning::Switching => {
                self.awaiting_head = false;
                self.has_sink = true;
                self.piped = true;
                self.upgrade_wanted = false;
                HeadStep::Switch(visitor_response(&head, meaning, self.visitor_connect))
            },
            HeadMeaning::Final => {
                self.awaiting_head = false;
                self.has_sink = true;
                HeadStep::Respond(visitor_response(&head, meaning, self.visitor_connect))
            },
        }
    }

    /// Queues a frame of the response; where it has nowhere to go it is
    /// dropped. At the high-water mark the stream is no longer read.
    pub fn queue_down(&mut self, frame: D)
        requires
            old(self).wf(),
            !old(self)@.awaiting_head,
            !old(self)@.down_paused,
        ensures
            final(self).wf(),
            final(self)@ == old(self)@.queued(frame),
    {
        if self.has_sink {
            self.pending_down.push_back(frame);
            if self.pending_down.len() >= DOWN_HIGH_WATER {
                self.down_paused = true;
            }
        }
    }

    /// Decides what is to be done toward the visitor: at most one queued frame
    /// is handed over at a time, and reading the stream resumes once the queue
    /// has fallen below the low-water mark.
    pub fn pump_down(&mut self) -> (r: Pump<D>)
        requires
            old(self).wf(),
        ensures
            final(self).wf(),
            (final(self)@, r) == old(self)@.pumped(),
    {
        if self.forwarding {
            return Pump::Idle;
        }
        match self.pending_down.pop_front() {
            Some(frame) => {
                if self.has_sink {
                    self.forwarding = true;
                    if self.pending_down.len() < DOWN_LOW_WATER {
                        self.down_paused = false;
                    }
                    Pump::Send(frame)
                } else {
                    Pump::Idle
                }
            },
            None => if self.client_done {
                Pump::Fin
            } else {
                Pump::Idle
            },
        }
    }

    /// The frame has been handed to the visitor.
    pub fn forwarded(&mut self)
        requires
            old(self).wf(),
        ensures
            final(self).wf(),
            final(self)@ == old(self)@.handed_over(),
    {
        self.forwarding = false;
    }

    /// The client has finished the response; returns whether nothing is left
    /// for the visitor and the exchange ends. While frames are queued or in
    /// flight it goes on, so that no response is cut short.
    pub fn client_finished(&mut self) -> (ends: bool)
        requires
            old(self).wf(),
        ensures
            final(self).wf(),
            ends == old(self)@.is_drained(),
            final(self)@ == (ExchangeFacts { client_done: true, ..old(self)@ }),
    {
        self.client_done = true;
        !self.forwarding && self.pending_down.len() == 0
    }
}

/// No frame overtakes another, and none is lost or repeated on the way to the
/// visitor: in whatever way frames are queued, asked for and handed over, those
/// handed over and those that wait are, in order, those that waited at first and
/// those that were queued.
pub proof fn frames_stay_in_order<U, D>(x: ExchangeFacts<U, D>, steps: Seq<DownStep<D>>)
    requires
        x.has_sink,
    ensures
        x.after(steps).0.has_sink,
        x.after(steps).1 + x.after(steps).0.down == x.down + frames_of(steps),
    decreases steps.len(),
{
    if steps.len() > 0 {
        frames_stay_in_order(x, steps.drop_last());
        let (before, handed) = x.after(steps.drop_last());
        let (after, handed_now) = x.after(steps);
        let all = x.down + frames_of(steps.drop_last());
        match steps.last() {
            DownStep::Queue(frame) => {
                assert(handed + before.down.push(frame) =~= (handed + before.down).push(frame));
                assert(all.push(frame) =~= x.down + frames_of(steps));
            },
            DownStep::HandedOver => {},
            DownStep::Pump => {
                if !before.forwarding && before.down.len() > 0 {
                    assert(handed_now + after.down =~= handed + before.down);
                }
            },
        }
    } else {
        assert(Seq::<D>::empty() + x.down =~= x.down + frames_of(steps));
    }
}

/// An exchange that has stopped reading always has a frame to hand over or in
/// flight, so that reading resumes.
pub proof fn paused_exchange_makes_progress<U, D>(x: ExchangeFacts<U, D>)
    requires
        x.bounded(),
        x.down_paused,
        x.down.len() >= DOWN_LOW_WATER,
    ensures
        x.down.len() > 0,
        !x.is_drained(),
{
}

/// A pipe never finishes its half of the stream by itself, nor does an exchange whose
/// visitor asked for an upgrade that was not made, be it still open or refused.
pub proof fn pipe_stays_open<U, D>(x: ExchangeFacts<U, D>)
    requires
        x.piped || x.upgrade_wanted,
    ensures
        !x.is_finished(),
{
}

} // verus!
