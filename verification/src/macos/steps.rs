//! The order in which things are done on the main run loop.
use vstd::prelude::*;

use crate::macos::connection::{
    ChannelAction, ChannelEnd, CloseOutcome, NextChannel, Retry, RetryOutcome,
};
use crate::macos::requests::Shutdown;
use crate::macos::scan::ScanStart;
use crate::macos::session::{ClosedSession, DroppedDevice, FailedSend, ListenerError};

verus! {

/// One step of what is left to do.
#[derive(Debug, PartialEq, Eq)]
pub enum Step {
    /// Lower this flag.
    LowerFlag(u64),
    /// Tell whom it concerns that this send failed.
    FailSend(FailedSend),
    /// Close this channel, and go on with [`crate::macos::session::finish_close`].
    CloseChannel { channel: u64, generation: usize },
    /// The channel is closed already; go on with [`crate::macos::session::finish_close`].
    FinishClose { generation: usize },
    /// Take the delegate of this channel away.
    Release(u64),
    /// Stop guarding the audio output against the device.
    StopAudioGuard,
    /// Stop guarding the audio output, whatever it is guarded against.
    StopEveryAudioGuard,
    /// Tell this listener of this error.
    Tell(ListenerError),
    /// Go on with [`crate::macos::connection::start_next_connection`] on a later turn.
    NextTurn,
    /// Ask for this channel to open.
    Open { device: u64, channel: u8, generation: usize },
    /// Stop this inquiry.
    StopInquiry(u64),
    /// Start an inquiry with this delegate.
    StartInquiry(u64),
}

/// How a session ends: nothing more is passed on, then its send fails, and then its channel is
/// closed.
pub open spec fn end_steps(end: ClosedSession) -> Seq<Step> {
    seq![Step::LowerFlag(end.active)] + (match end.failed_send {
        Some(failed) => seq![Step::FailSend(failed)],
        None => Seq::empty(),
    }) + (if end.close_channel {
        seq![Step::CloseChannel { channel: end.channel, generation: end.generation }]
    } else {
        seq![Step::FinishClose { generation: end.generation }]
    })
}

/// How a session ends, if there is one.
pub open spec fn end_steps_if_any(end: Option<ClosedSession>) -> Seq<Step> {
    match end {
        Some(end) => end_steps(end),
        None => Seq::empty(),
    }
}

/// How several sessions end, one after the other.
pub open spec fn all_end_steps(ends: Seq<ClosedSession>) -> Seq<Step>
    decreases ends.len(),
{
    if ends.len() == 0 {
        Seq::empty()
    } else {
        end_steps(ends[0]) + all_end_steps(ends.skip(1))
    }
}

/// What a listener is told, if anything.
pub open spec fn tell_steps(told: Option<ListenerError>) -> Seq<Step> {
    match told {
        Some(told) => seq![Step::Tell(told)],
        None => Seq::empty(),
    }
}

/// How a device is given up: its session ends, then its audio guard, then its listener is told,
/// and then the next device may have its turn.
pub open spec fn dropped_steps(gone: DroppedDevice) -> Seq<Step> {
    end_steps_if_any(gone.closed) + seq![Step::StopAudioGuard] + tell_steps(gone.told) + seq![
        Step::NextTurn,
    ]
}

/// What follows an attempt that failed: its session ends before anything else is done.
pub open spec fn retry_steps(retry: Retry) -> Seq<Step> {
    end_steps_if_any(retry.closed) + (match retry.outcome {
        RetryOutcome::NotConnecting => Seq::empty(),
        RetryOutcome::GivenUp(gone) => dropped_steps(gone),
        RetryOutcome::Queued => seq![Step::NextTurn],
    })
}

/// What is done for a connection whose turn it is: an earlier session ends before a channel is
/// asked to open.
pub open spec fn channel_steps(next: NextChannel) -> Seq<Step> {
    end_steps_if_any(next.closed) + (match next.action {
        ChannelAction::Nothing => Seq::empty(),
        ChannelAction::GivenUp(gone) => dropped_steps(gone),
        ChannelAction::Open { device, channel, generation } => seq![
            Step::Open { device, channel, generation },
        ],
    })
}

/// What follows a channel that the other side closed.
pub open spec fn channel_end_steps(end: ChannelEnd) -> Seq<Step> {
    (match end.released {
        Some(channel) => seq![Step::Release(channel)],
        None => Seq::empty(),
    }) + (match end.outcome {
        CloseOutcome::Ignored => Seq::empty(),
        CloseOutcome::Retried(closed, retry) => end_steps(closed) + retry_steps(retry),
        CloseOutcome::Disconnected(closed, told) => end_steps(closed) + seq![Step::StopAudioGuard]
            + tell_steps(told),
    })
}

/// What follows a disconnect: the session ends, then its audio guard, and then the next device may
/// have its turn.
pub open spec fn disconnect_steps(closed: Option<ClosedSession>) -> Seq<Step> {
    end_steps_if_any(closed) + seq![Step::StopAudioGuard, Step::NextTurn]
}

/// What follows a disconnect of every device: every session ends, and then the audio guard.
pub open spec fn disconnect_all_steps(closed: Seq<ClosedSession>) -> Seq<Step> {
    all_end_steps(closed) + seq![Step::StopEveryAudioGuard]
}

/// An inquiry that is stopped, if there is one.
pub open spec fn inquiry_stopped(inquiry: Option<u64>) -> Seq<Step> {
    match inquiry {
        Some(inquiry) => seq![Step::StopInquiry(inquiry)],
        None => Seq::empty(),
    }
}

/// How the backend shuts down: the scan is stopped before the devices are disconnected.
pub open spec fn shutdown_steps(end: Shutdown) -> Seq<Step> {
    inquiry_stopped(end.inquiry) + disconnect_all_steps(end.closed@)
}

/// How a scan begins: the inquiry of an earlier scan is stopped before another one is started.
pub open spec fn scan_steps(start: ScanStart) -> Seq<Step> {
    inquiry_stopped(start.stopped) + (match start.begun {
        Ok(delegate) => seq![Step::StartInquiry(delegate)],
        Err(_) => Seq::empty(),
    })
}

fn add_end(steps: &mut Vec<Step>, end: ClosedSession)
    ensures
        final(steps)@ == old(steps)@ + end_steps(end),
{
    steps.push(Step::LowerFlag(end.active));
    match end.failed_send {
        Some(failed) => {
            steps.push(Step::FailSend(failed));
        },
        None => {},
    }
    if end.close_channel {
        steps.push(Step::CloseChannel { channel: end.channel, generation: end.generation });
    } else {
        steps.push(Step::FinishClose { generation: end.generation });
    }
    assert(steps@ =~= old(steps)@ + end_steps(end));
}

fn add_end_if_any(steps: &mut Vec<Step>, end: Option<ClosedSession>)
    ensures
        final(steps)@ == old(steps)@ + end_steps_if_any(end),
{
    match end {
        Some(end) => {
            add_end(steps, end);
        },
        None => {},
    }
    assert(steps@ =~= old(steps)@ + end_steps_if_any(end));
}

fn add_tell(steps: &mut Vec<Step>, told: Option<ListenerError>)
    ensures
        final(steps)@ == old(steps)@ + tell_steps(told),
{
    match told {
        Some(told) => {
            steps.push(Step::Tell(told));
        },
        None => {},
    }
    assert(steps@ =~= old(steps)@ + tell_steps(told));
}

fn add_dropped(steps: &mut Vec<Step>, gone: DroppedDevice)
    ensures
        final(steps)@ == old(steps)@ + dropped_steps(gone),
{
    add_end_if_any(steps, gone.closed);
    steps.push(Step::StopAudioGuard);
    add_tell(steps, gone.told);
    steps.push(Step::NextTurn);
    assert(steps@ =~= old(steps)@ + dropped_steps(gone));
}

fn add_retry(steps: &mut Vec<Step>, retry: Retry)
    ensures
        final(steps)@ == old(steps)@ + retry_steps(retry),
{
    add_end_if_any(steps, retry.closed);
    match retry.outcome {
        RetryOutcome::NotConnecting => {},
        RetryOutcome::GivenUp(gone) => {
            add_dropped(steps, gone);
        },
        RetryOutcome::Queued => {
            steps.push(Step::NextTurn);
        },
    }
    assert(steps@ =~= old(steps)@ + retry_steps(retry));
}

fn add_inquiry(steps: &mut Vec<Step>, inquiry: Option<u64>)
    ensures
        final(steps)@ == old(steps)@ + inquiry_stopped(inquiry),
{
    match inquiry {
        Some(inquiry) => {
            steps.push(Step::StopInquiry(inquiry));
        },
        None => {},
    }
    assert(steps@ =~= old(steps)@ + inquiry_stopped(inquiry));
}

fn add_all_ends(steps: &mut Vec<Step>, closed: Vec<ClosedSession>)
    ensures
        final(steps)@ == old(steps)@ + disconnect_all_steps(closed@),
{
    let ghost start = steps@;
    let ghost all = all_end_steps(closed@);
    let mut left: Vec<ClosedSession> = closed;
    while left.len() > 0
        invariant
            steps@ + all_end_steps(left@) == start + all,
        decreases left@.len(),
    {
        let ghost before = left@;
        let ghost sofar = steps@;
        let end: ClosedSession = left.remove(0);
        add_end(steps, end);
        assert(left@ =~= before.skip(1));
        assert(steps@ + all_end_steps(left@) =~= sofar + all_end_steps(before));
    }
    assert(steps@ + all_end_steps(left@) =~= steps@);
    steps.push(Step::StopEveryAudioGuard);
    assert(steps@ =~= start + disconnect_all_steps(closed@));
}

impl ClosedSession {
    /// How the session ends.
    pub fn steps(self) -> (r: Vec<Step>)
        ensures
            r@ == end_steps(self),
    {
        let mut steps: Vec<Step> = Vec::new();
        add_end(&mut steps, self);
        assert(steps@ =~= end_steps(self));
        steps
    }
}

impl DroppedDevice {
    /// How the device is given up.
    pub fn steps(self) -> (r: Vec<Step>)
        ensures
            r@ == dropped_steps(self),
    {
        let mut steps: Vec<Step> = Vec::new();
        add_dropped(&mut steps, self);
        assert(steps@ =~= dropped_steps(self));
        steps
    }
}

impl Retry {
    /// What follows the attempt that failed.
    pub fn steps(self) -> (r: Vec<Step>)
        ensures
            r@ == retry_steps(self),
    {
        let mut steps: Vec<Step> = Vec::new();
        add_retry(&mut steps, self);
        assert(steps@ =~= retry_steps(self));
        steps
    }
}

impl NextChannel {
    /// What is done for the connection whose turn it is.
    pub fn steps(self) -> (r: Vec<Step>)
        ensures
            r@ == channel_steps(self),
    {
        let mut steps: Vec<Step> = Vec::new();
        add_end_if_any(&mut steps, self.closed);
        match self.action {
            ChannelAction::Nothing => {},
            ChannelAction::GivenUp(gone) => {
                add_dropped(&mut steps, gone);
            },
            ChannelAction::Open { device, channel, generation } => {
                steps.push(Step::Open { device, channel, generation });
            },
        }
        assert(steps@ =~= channel_steps(self));
        steps
    }
}

impl ChannelEnd {
    /// What follows the end of the channel.
    pub fn steps(self) -> (r: Vec<Step>)
        ensures
            r@ == channel_end_steps(self),
    {
        let mut steps: Vec<Step> = Vec::new();
        match self.released {
            Some(channel) => {
                steps.push(Step::Release(channel));
            },
            None => {},
        }
        match self.outcome {
            CloseOutcome::Ignored => {},
            CloseOutcome::Retried(closed, retry) => {
                add_end(&mut steps, closed);
                add_retry(&mut steps, retry);
            },
            CloseOutcome::Disconnected(closed, told) => {
                add_end(&mut steps, closed);
                steps.push(Step::StopAudioGuard);
                add_tell(&mut steps, told);
            },
        }
        assert(steps@ =~= channel_end_steps(self));
        steps
    }
}

impl Shutdown {
    /// How the backend shuts down.
    pub fn steps(self) -> (r: Vec<Step>)
        ensures
            r@ == shutdown_steps(self),
    {
        let mut steps: Vec<Step> = Vec::new();
        add_inquiry(&mut steps, self.inquiry);
        add_all_ends(&mut steps, self.closed);
        assert(steps@ =~= shutdown_steps(self));
        steps
    }
}

impl ScanStart {
    /// How the scan begins.
    pub fn steps(&self) -> (r: Vec<Step>)
        ensures
            r@ == scan_steps(*self),
    {
        let mut steps: Vec<Step> = Vec::new();
        add_inquiry(&mut steps, self.stopped);
        match &self.begun {
            Ok(delegate) => {
                steps.push(Step::StartInquiry(*delegate));
            },
            Err(_) => {},
        }
        assert(steps@ =~= scan_steps(*self));
        steps
    }
}

/// What follows a disconnect.
pub fn after_disconnect(closed: Option<ClosedSession>) -> (r: Vec<Step>)
    ensures
        r@ == disconnect_steps(closed),
{
    let mut steps: Vec<Step> = Vec::new();
    add_end_if_any(&mut steps, closed);
    steps.push(Step::StopAudioGuard);
    steps.push(Step::NextTurn);
    assert(steps@ =~= disconnect_steps(closed));
    steps
}

/// What follows a disconnect of every device.
pub fn after_disconnect_all(closed: Vec<ClosedSession>) -> (r: Vec<Step>)
    ensures
        r@ == disconnect_all_steps(closed@),
{
    let mut steps: Vec<Step> = Vec::new();
    add_all_ends(&mut steps, closed);
    assert(steps@ =~= disconnect_all_steps(closed@));
    steps
}

/// A session's flag is lowered before anything native is done, and its channel is closed last.
pub proof fn law_sessions_are_cut_off_first(end: ClosedSession)
    ensures
        end_steps(end)[0] == Step::LowerFlag(end.active),
        end_steps(end).last() is CloseChannel <==> end.close_channel,
        forall|i: int|
            0 <= i < end_steps(end).len() - 1 ==> !((#[trigger] end_steps(end)[i])
                is CloseChannel),
{
}

/// The next device has its turn only when everything else was done for one that is given up.
pub proof fn law_next_turn_comes_last(gone: DroppedDevice)
    ensures
        dropped_steps(gone).last() is NextTurn,
        forall|i: int|
            0 <= i < dropped_steps(gone).len() - 1 ==> !((#[trigger] dropped_steps(gone)[i])
                is NextTurn),
{
}

/// A session ends in two steps, or three where a send fails: its own flag is lowered, its own send
/// fails, and its own channel is closed, or was.
pub proof fn law_steps_of_a_session(end: ClosedSession, r: Vec<Step>)
    requires
        call_ensures(ClosedSession::steps, (end,), r),
    ensures
        r@[0] == Step::LowerFlag(end.active),
        end.failed_send is None ==> r@.len() == 2,
        end.failed_send matches Some(failed) ==> r@.len() == 3 && r@[1] == Step::FailSend(failed),
        end.close_channel ==> r@.last() == (Step::CloseChannel {
            channel: end.channel,
            generation: end.generation,
        }),
        !end.close_channel ==> r@.last() == (Step::FinishClose { generation: end.generation }),
{
}

/// A device is given up in this order: the session ends, the audio guard stops, the listener is
/// told, and the next device has its turn.
pub proof fn law_steps_of_a_dropped_device(
    gone: DroppedDevice,
    r: Vec<Step>,
    end: ClosedSession,
    first: Vec<Step>,
)
    requires
        call_ensures(DroppedDevice::steps, (gone,), r),
        call_ensures(ClosedSession::steps, (end,), first),
        gone.closed is Some ==> gone.closed == Some(end),
    ensures
        ({
            let n = if gone.closed is Some {
                first@.len() as int
            } else {
                0
            };
            &&& gone.closed is Some ==> r@.take(n) == first@
            &&& r@[n] == Step::StopAudioGuard
            &&& gone.told matches Some(told) ==> r@.len() == n + 3 && r@[n + 1] == Step::Tell(told)
            &&& gone.told is None ==> r@.len() == n + 2
            &&& r@.last() == Step::NextTurn
        }),
{
    if gone.closed is Some {
        assert(r@.take(first@.len() as int) =~= first@);
    }
}

/// What follows an attempt that failed: its session ends first; where the connection waits again,
/// the next device has its turn, and where it was given up, the device is given up.
pub proof fn law_steps_of_a_retry(
    retry: Retry,
    r: Vec<Step>,
    end: ClosedSession,
    first: Vec<Step>,
    gone: DroppedDevice,
    second: Vec<Step>,
)
    requires
        call_ensures(Retry::steps, (retry,), r),
        call_ensures(ClosedSession::steps, (end,), first),
        call_ensures(DroppedDevice::steps, (gone,), second),
        retry.closed is Some ==> retry.closed == Some(end),
        retry.outcome is GivenUp ==> retry.outcome == RetryOutcome::GivenUp(gone),
    ensures
        ({
            let n = if retry.closed is Some {
                first@.len() as int
            } else {
                0
            };
            &&& retry.closed is Some ==> r@.take(n) == first@
            &&& retry.outcome is NotConnecting ==> r@.len() == n
            &&& retry.outcome is Queued ==> r@.len() == n + 1 && r@[n] == Step::NextTurn
            &&& retry.outcome is GivenUp ==> r@.skip(n) == second@
        }),
{
    if retry.closed is Some {
        assert(r@.take(first@.len() as int) =~= first@);
        assert(r@.skip(first@.len() as int) =~= match retry.outcome {
            RetryOutcome::NotConnecting => Seq::empty(),
            RetryOutcome::GivenUp(gone) => dropped_steps(gone),
            RetryOutcome::Queued => seq![Step::NextTurn],
        });
    } else {
        assert(r@.skip(0) =~= r@);
        assert(r@ =~= match retry.outcome {
            RetryOutcome::NotConnecting => Seq::empty(),
            RetryOutcome::GivenUp(gone) => dropped_steps(gone),
            RetryOutcome::Queued => seq![Step::NextTurn],
        });
    }
}

/// What is done for a connection whose turn it is: an earlier session ends before the channel is
/// asked to open, on the device and under the number that were named for it.
pub proof fn law_steps_of_the_next_channel(
    next: NextChannel,
    r: Vec<Step>,
    end: ClosedSession,
    first: Vec<Step>,
    gone: DroppedDevice,
    second: Vec<Step>,
)
    requires
        call_ensures(NextChannel::steps, (next,), r),
        call_ensures(ClosedSession::steps, (end,), first),
        call_ensures(DroppedDevice::steps, (gone,), second),
        next.closed is Some ==> next.closed == Some(end),
        next.action is GivenUp ==> next.action == ChannelAction::GivenUp(gone),
    ensures
        ({
            let n = if next.closed is Some {
                first@.len() as int
            } else {
                0
            };
            &&& next.closed is Some ==> r@.take(n) == first@
            &&& next.action is Nothing ==> r@.len() == n
            &&& next.action matches ChannelAction::Open { device, channel, generation }
                ==> r@.len() == n + 1 && r@[n] == (Step::Open { device, channel, generation })
            &&& next.action is GivenUp ==> r@.skip(n) == second@
        }),
{
    let rest = match next.action {
        ChannelAction::Nothing => Seq::empty(),
        ChannelAction::GivenUp(gone) => dropped_steps(gone),
        ChannelAction::Open { device, channel, generation } => seq![
            Step::Open { device, channel, generation },
        ],
    };
    if next.closed is Some {
        assert(r@.take(first@.len() as int) =~= first@);
        assert(r@.skip(first@.len() as int) =~= rest);
    } else {
        assert(r@.skip(0) =~= r@);
        assert(r@ =~= rest);
    }
}

/// What follows a channel that the other side closed: a retiring session's delegate is taken away
/// first; a device that was connected has its session ended, its guard stopped and its listener
/// told, and one that was being connected goes on after its session has ended.
pub proof fn law_steps_of_a_closed_channel(
    end: ChannelEnd,
    r: Vec<Step>,
    closed: ClosedSession,
    first: Vec<Step>,
    retry: Retry,
    second: Vec<Step>,
)
    requires
        call_ensures(ChannelEnd::steps, (end,), r),
        call_ensures(ClosedSession::steps, (closed,), first),
        call_ensures(Retry::steps, (retry,), second),
        end.outcome matches CloseOutcome::Retried(c, t) ==> c == closed && t == retry,
        end.outcome matches CloseOutcome::Disconnected(c, t) ==> c == closed,
    ensures
        ({
            let n = if end.released is Some {
                1int
            } else {
                0
            };
            let m = n + first@.len();
            &&& end.released matches Some(channel) ==> r@[0] == Step::Release(channel)
            &&& end.outcome is Ignored ==> r@.len() == n
            &&& end.outcome is Retried ==> r@.skip(n) == first@ + second@
            &&& end.outcome matches CloseOutcome::Disconnected(c, told) ==> {
                &&& r@.subrange(n, m) == first@
                &&& r@[m] == Step::StopAudioGuard
                &&& told matches Some(news) ==> r@.len() == m + 2 && r@[m + 1] == Step::Tell(news)
                &&& told is None ==> r@.len() == m + 1
            }
        }),
{
    let n = if end.released is Some {
        1int
    } else {
        0
    };
    match end.outcome {
        CloseOutcome::Ignored => {},
        CloseOutcome::Retried(c, t) => {
            assert(r@.skip(n) =~= first@ + second@);
        },
        CloseOutcome::Disconnected(c, told) => {
            assert(r@.subrange(n, n + first@.len()) =~= first@);
        },
    }
}

/// What follows a disconnect, a disconnect of every device, a shutdown and the beginning of a scan.
pub proof fn law_steps_of_endings_and_beginnings(
    closed: Option<ClosedSession>,
    one: Vec<Step>,
    end: ClosedSession,
    first: Vec<Step>,
    ends: Vec<ClosedSession>,
    every: Vec<Step>,
    shutdown: Shutdown,
    down: Vec<Step>,
    start: &ScanStart,
    begun: Vec<Step>,
)
    requires
        call_ensures(after_disconnect, (closed,), one),
        call_ensures(ClosedSession::steps, (end,), first),
        call_ensures(after_disconnect_all, (ends,), every),
        call_ensures(Shutdown::steps, (shutdown,), down),
        call_ensures(ScanStart::steps, (start,), begun),
        closed is Some ==> closed == Some(end),
        shutdown.closed@ == ends@,
    ensures
        closed is None ==> one@ == seq![Step::StopAudioGuard, Step::NextTurn],
        closed is Some ==> one@ == first@ + seq![Step::StopAudioGuard, Step::NextTurn],
        ends@.len() == 0 ==> every@ == seq![Step::StopEveryAudioGuard],
        every@.last() == Step::StopEveryAudioGuard,
        shutdown.inquiry is None ==> down@ == every@,
        shutdown.inquiry matches Some(inquiry) ==> down@ == seq![Step::StopInquiry(inquiry)]
            + every@,
        start.begun is Err && start.stopped is None ==> begun@.len() == 0,
        start.begun is Err ==> (start.stopped matches Some(inquiry) ==> begun@ == seq![
            Step::StopInquiry(inquiry),
        ]),
        start.begun matches Ok(delegate) ==> (start.stopped is None ==> begun@ == seq![
            Step::StartInquiry(delegate),
        ]) && (start.stopped matches Some(inquiry) ==> begun@ == seq![
            Step::StopInquiry(inquiry),
            Step::StartInquiry(delegate),
        ]),
{
    assert(closed is None ==> one@ =~= seq![Step::StopAudioGuard, Step::NextTurn]);
    assert(closed is Some ==> one@ =~= first@ + seq![Step::StopAudioGuard, Step::NextTurn]);
    assert(ends@.len() == 0 ==> every@ =~= seq![Step::StopEveryAudioGuard]);
    assert(shutdown.inquiry is None ==> down@ =~= every@);
    match start.begun {
        Ok(delegate) => {
            match start.stopped {
                Some(inquiry) => {
                    assert(begun@ =~= seq![
                        Step::StopInquiry(inquiry),
                        Step::StartInquiry(delegate),
                    ]);
                },
                None => {
                    assert(begun@ =~= seq![Step::StartInquiry(delegate)]);
                },
            }
        },
        Err(_) => {
            match start.stopped {
                Some(inquiry) => {
                    assert(begun@ =~= seq![Step::StopInquiry(inquiry)]);
                },
                None => {
                    assert(begun@ =~= Seq::<Step>::empty());
                },
            }
        },
    }
}

/// When every device is disconnected, each session ends, one after the other: one more session at
/// the front is one more that ends first.
pub proof fn law_sessions_end_one_after_the_other(
    end: ClosedSession,
    first: Vec<Step>,
    ends: Vec<ClosedSession>,
    rest: Vec<Step>,
    all: Vec<ClosedSession>,
    every: Vec<Step>,
)
    requires
        call_ensures(ClosedSession::steps, (end,), first),
        call_ensures(after_disconnect_all, (ends,), rest),
        call_ensures(after_disconnect_all, (all,), every),
        all@ == seq![end] + ends@,
    ensures
        every@ == first@ + rest@,
{
    assert(all@.skip(1) =~= ends@);
    assert(every@ =~= first@ + rest@);
}

} // verus!
