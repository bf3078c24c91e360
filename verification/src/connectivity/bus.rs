//! The rules of the multiplexed bus: which queue an envelope goes to, in which
//! order the queues are drained, and whom an envelope reaches.

use crate::contracts::connectivity::{ChannelId, EnvelopeView, MultiplexedEnvelope};
use crate::contracts::error::{ConnectivityError, ConnectivityErrorView};
use vstd::prelude::*;

verus! {

/// Every logical channel, in order of declaration.
pub fn all_channels() -> (r: Vec<ChannelId>)
    ensures
        r.len() == 8,
        forall|i: int| 0 <= i < 8 ==> (#[trigger] r@[i]).code_spec() == i + 1,
{
    vec![
        ChannelId::Control,
        ChannelId::Inference,
        ChannelId::Sync,
        ChannelId::Approval,
        ChannelId::StreamVideo,
        ChannelId::Input,
        ChannelId::FileXfr,
        ChannelId::Audio,
    ]
}

/// How many envelopes a channel keeps for slow subscribers.
pub const DEFAULT_CHANNEL_CAPACITY: usize = 256;

/// How many envelopes a send queue holds.
pub const DEFAULT_QUEUE_DEPTH: usize = 256;

/// The two send queues.
#[derive(Clone, Copy, Debug, PartialEq, Eq, Structural)]
pub enum Lane {
    Control,
    Normal,
}

/// The queue of a channel.
pub open spec fn lane_of(channel: ChannelId) -> Lane {
    if channel == ChannelId::Control {
        Lane::Control
    } else {
        Lane::Normal
    }
}

/// The queue of a channel.
pub fn for_channel(channel: ChannelId) -> (r: Lane)
    ensures
        r == lane_of(channel),
{
    if channel == ChannelId::Control {
        Lane::Control
    } else {
        Lane::Normal
    }
}

/// Which subscribers an envelope reaches: those of its channel. The channel's
/// place among all of them is returned.
pub fn route(envelope: &MultiplexedEnvelope) -> (r: usize)
    ensures
        r < 8,
        r + 1 == envelope@.channel.code_spec(),
{
    (envelope.channel.code() - 1) as usize
}

/// Whether a subscriber of a channel sees an envelope.
pub open spec fn reaches(envelope: EnvelopeView, channel: ChannelId) -> bool {
    envelope.channel.code_spec() == channel.code_spec()
}

/// An envelope reaches the subscribers of its own channel, and no others.
pub proof fn law_envelopes_stay_on_their_channel(envelope: EnvelopeView, channel: ChannelId)
    ensures
        reaches(envelope, channel) <==> envelope.channel == channel,
{
}

/// The sending side of a bus: open until it is closed.
#[derive(Debug)]
pub struct SendGate {
    open: bool,
}

impl View for SendGate {
    type V = bool;

    closed spec fn view(&self) -> bool {
        self.open
    }
}

impl SendGate {
    /// An open gate.
    pub fn new() -> (r: SendGate)
        ensures
            r@,
    {
        SendGate { open: true }
    }

    /// The queue for an envelope on a channel, unless the bus is closed.
    pub fn pick_sender(&self, channel: ChannelId) -> (r: Result<Lane, ConnectivityError>)
        ensures
            match r {
                Ok(lane) => self@ && lane == lane_of(channel),
                Err(e) => !self@ && e@ == (ConnectivityErrorView::ChannelClosed { channel }),
            },
    {
        if self.open {
            Ok(for_channel(channel))
        } else {
            Err(ConnectivityError::ChannelClosed { channel })
        }
    }

    /// Closes the bus for good.
    pub fn close(&mut self)
        ensures
            !final(self)@,
    {
        self.open = false;
    }

    /// Whether the bus is closed.
    pub fn is_closed(&self) -> (r: bool)
        ensures
            r == !self@,
    {
        !self.open
    }
}

/// What a queue has to offer: an envelope, nothing yet, or nothing any more.
#[derive(Clone, Copy, Debug, PartialEq, Eq, Structural)]
pub enum Ready {
    Envelope,
    Pending,
    Closed,
}

/// What the dispatcher does next.
#[derive(Clone, Copy, Debug, PartialEq, Eq, Structural)]
pub enum DispatchStep {
    /// Takes the next envelope of a queue and delivers it.
    Deliver(Lane),
    /// Takes note that a queue is closed, and looks again.
    Retire(Lane),
    /// Waits until a queue has something to offer.
    Wait,
    /// Both queues are closed and empty.
    Stop,
}

/// Drains the two queues, the control queue always first.
#[derive(Clone, Copy, Debug, PartialEq, Eq, Structural)]
pub struct Dispatcher {
    pub control_open: bool,
    pub normal_open: bool,
}

/// What the dispatcher does next, given what the queues offer, and its state
/// after that.
pub open spec fn dispatched(d: Dispatcher, control: Ready, normal: Ready) -> (
    Dispatcher,
    DispatchStep,
) {
    if d.control_open && control == Ready::Envelope {
        (d, DispatchStep::Deliver(Lane::Control))
    } else if d.control_open && control == Ready::Closed {
        (Dispatcher { control_open: false, ..d }, DispatchStep::Retire(Lane::Control))
    } else if d.normal_open && normal == Ready::Envelope {
        (d, DispatchStep::Deliver(Lane::Normal))
    } else if d.normal_open && normal == Ready::Closed {
        (Dispatcher { normal_open: false, ..d }, DispatchStep::Retire(Lane::Normal))
    } else if d.control_open || d.normal_open {
        (d, DispatchStep::Wait)
    } else {
        (d, DispatchStep::Stop)
    }
}

impl Dispatcher {
    /// A dispatcher of two open queues.
    pub fn new() -> (r: Dispatcher)
        ensures
            r.control_open && r.normal_open,
    {
        Dispatcher { control_open: true, normal_open: true }
    }

    /// What to do next, given what the queues offer.
    pub fn step(&mut self, control: Ready, normal: Ready) -> (r: DispatchStep)
        ensures
            (*final(self), r) == dispatched(*old(self), control, normal),
    {
        if self.control_open && control == Ready::Envelope {
            return DispatchStep::Deliver(Lane::Control);
        }
        if self.control_open && control == Ready::Closed {
            self.control_open = false;
            return DispatchStep::Retire(Lane::Control);
        }
        if self.normal_open && normal == Ready::Envelope {
            return DispatchStep::Deliver(Lane::Normal);
        }
        if self.normal_open && normal == Ready::Closed {
            self.normal_open = false;
            return DispatchStep::Retire(Lane::Normal);
        }
        if self.control_open || self.normal_open {
            DispatchStep::Wait
        } else {
            DispatchStep::Stop
        }
    }
}

/// Control traffic is never starved: while a control envelope waits on an open
/// queue, no other is delivered.
pub proof fn law_control_goes_first(d: Dispatcher, normal: Ready)
    requires
        d.control_open,
    ensures
        dispatched(d, Ready::Envelope, normal).1 == DispatchStep::Deliver(Lane::Control),
{
}

/// Other traffic is delivered only when no control envelope waits.
pub proof fn law_normal_waits_for_control(d: Dispatcher, control: Ready, normal: Ready)
    requires
        dispatched(d, control, normal).1 == DispatchStep::Deliver(Lane::Normal),
    ensures
        !d.control_open || control == Ready::Pending,
{
}

/// The dispatcher stops exactly when both queues are closed, and then for good.
pub proof fn law_dispatcher_stops_when_drained(d: Dispatcher, control: Ready, normal: Ready)
    ensures
        dispatched(d, control, normal).1 == DispatchStep::Stop <==> !d.control_open
            && !d.normal_open,
        !d.control_open ==> !dispatched(d, control, normal).0.control_open,
        !d.normal_open ==> !dispatched(d, control, normal).0.normal_open,
{
}

/// Only the control channel goes by the control queue; every other goes by the normal one.
pub proof fn law_only_control_goes_first(channel: ChannelId)
    ensures
        lane_of(channel) == Lane::Control <==> channel == ChannelId::Control,
{
}

/// What waits is delivered: other traffic as soon as no control envelope waits, and nothing
/// is waited for while something can be done.
pub proof fn law_what_waits_is_delivered(d: Dispatcher, control: Ready, normal: Ready)
    ensures
        d.normal_open && normal == Ready::Envelope && (!d.control_open || control
            == Ready::Pending) ==> dispatched(d, control, normal).1 == DispatchStep::Deliver(
            Lane::Normal,
        ),
        dispatched(d, control, normal).1 == DispatchStep::Wait ==> (d.control_open ==> control
            == Ready::Pending) && (d.normal_open ==> normal == Ready::Pending),
        dispatched(d, control, normal).1 == DispatchStep::Deliver(Lane::Control) ==> dispatched(
            d,
            control,
            normal,
        ).0 == d,
{
}

} // verus!
