//! One scan as a state machine. The session decides; its driver opens the
//! sockets, sends and reads, keeps time, and reports back what happened.

use vstd::prelude::*;
use crate::error::ErrorChain;
use crate::network::{is_station_list_of, rank_stations, Station, station_views, StationView};
use crate::nl80211::dump::{find_done, first_done};
use crate::nl80211::error::{DecodeError, scan_error_chain, ScanError};
use crate::nl80211::interface::{Interface, InterfaceView};
use crate::nl80211::message::{message_views, NlMessage, NlMessageView, parse_batch, parse_messages};
use crate::nl80211::scan::{
    acknowledgement, any_announces_scan_results, collect_interfaces, collect_stations, collected,
    create_get_interface_message, create_get_scan_message, find_interface, get_interface_request,
    get_scan_request, has_scan_results, interface_views, listing, position_of, read_acknowledgement,
    trigger_scan_message, trigger_scan_request,
};

verus! {

/// Seconds to wait for the announcement that a scan is complete.
pub const SCAN_TIMEOUT_SECONDS: u32 = 45;

/// Where a scan stands.
#[derive(Debug, Clone, Copy, PartialEq, Eq, Structural)]
pub enum ScanPhase {
    /// Finding the interface: first the control socket is opened, which gives
    /// the number of the family, then the interfaces are listed and the list
    /// is searched for the name.
    ResolvingInterface { opened: Option<u16> },
    /// The request to scan is sent and its acknowledgement awaited.
    Triggering { family: u16, index: u32 },
    /// The scan runs. The event channel is joined, then its announcements are
    /// read; `waited` counts the seconds that passed without one.
    AwaitingCompletion { family: u16, index: u32, subscribed: bool, waited: u32 },
    /// The dump of scan results is read.
    FetchingResults,
    /// The scan has ended and its stations are handed out.
    Done,
    /// The scan has failed.
    Failed,
}

/// What the driver reports to the session.
#[derive(Debug)]
pub enum ScanEvent {
    /// The control socket is open and the family has this number.
    ControlOpened(u16),
    /// The event channel is open and has joined the scan group.
    EventChannelOpened,
    /// A read from the control socket delivered these messages.
    ControlBatch(Vec<NlMessage>),
    /// A read from the event channel delivered these messages.
    EventBatch(Vec<NlMessage>),
    /// A second has passed with nothing to read on the event channel.
    Tick,
    /// A read delivered bytes that are no netlink messages.
    Malformed(DecodeError),
    /// Opening, resolving, sending or reading failed.
    TransportFailed,
}

/// What the session asks of its driver.
#[derive(Debug)]
pub enum ScanAction {
    /// Open the control socket and resolve the family, then report
    /// `ControlOpened`.
    OpenControl,
    /// Send the request on the control socket, read once from it, and report
    /// `ControlBatch`.
    SendRequest(NlMessage),
    /// Read once more from the control socket and report `ControlBatch`.
    ReadControl,
    /// Open the event channel and join the scan group, then report
    /// `EventChannelOpened`.
    OpenEventChannel,
    /// Read from the event channel for up to a second and report `EventBatch`
    /// or `Tick`.
    AwaitEvent,
    /// Close the sockets: the scan has ended with these stations.
    Complete(Vec<Station>),
    /// Close the sockets: the scan has failed with this error, in this phase.
    Fail { during: ScanPhase, error: ScanError },
}

/// One scan of one interface.
#[derive(Debug)]
pub struct ScanSession {
    /// Name of the interface to scan on.
    pub interface: String,
    pub phase: ScanPhase,
    /// The interfaces read out of their dump so far, in the order of arrival.
    pub interfaces: Vec<Interface>,
    /// The stations read out of their dump so far, in the order of arrival.
    pub stations: Vec<Station>,
}

/// A session as a value.
pub struct ScanSessionView {
    pub interface: Seq<char>,
    pub phase: ScanPhase,
    pub interfaces: Seq<InterfaceView>,
    pub stations: Seq<StationView>,
}

/// An event as a value.
pub enum ScanEventView {
    ControlOpened(u16),
    EventChannelOpened,
    ControlBatch(Seq<NlMessageView>),
    EventBatch(Seq<NlMessageView>),
    Tick,
    Malformed(DecodeError),
    TransportFailed,
}

/// An action as a value.
pub enum ScanActionView {
    OpenControl,
    SendRequest(NlMessageView),
    ReadControl,
    OpenEventChannel,
    AwaitEvent,
    Complete(Seq<StationView>),
    Fail { during: ScanPhase, error: ScanError },
}

impl View for ScanSession {
    type V = ScanSessionView;

    open spec fn view(&self) -> ScanSessionView {
        ScanSessionView {
            interface: self.interface@,
            phase: self.phase,
            interfaces: interface_views(self.interfaces@),
            stations: station_views(self.stations@),
        }
    }
}

impl View for ScanEvent {
    type V = ScanEventView;

    open spec fn view(&self) -> ScanEventView {
        match *self {
            ScanEvent::ControlOpened(family) => ScanEventView::ControlOpened(family),
            ScanEvent::EventChannelOpened => ScanEventView::EventChannelOpened,
            ScanEvent::ControlBatch(batch) => ScanEventView::ControlBatch(message_views(batch@)),
            ScanEvent::EventBatch(batch) => ScanEventView::EventBatch(message_views(batch@)),
            ScanEvent::Tick => ScanEventView::Tick,
            ScanEvent::Malformed(error) => ScanEventView::Malformed(error),
            ScanEvent::TransportFailed => ScanEventView::TransportFailed,
        }
    }
}

impl View for ScanAction {
    type V = ScanActionView;

    open spec fn view(&self) -> ScanActionView {
        match *self {
            ScanAction::OpenControl => ScanActionView::OpenControl,
            ScanAction::SendRequest(message) => ScanActionView::SendRequest(message@),
            ScanAction::ReadControl => ScanActionView::ReadControl,
            ScanAction::OpenEventChannel => ScanActionView::OpenEventChannel,
            ScanAction::AwaitEvent => ScanActionView::AwaitEvent,
            ScanAction::Complete(stations) => ScanActionView::Complete(station_views(stations@)),
            ScanAction::Fail { during, error } => ScanActionView::Fail { during, error },
        }
    }
}

/// The session that has failed, and the action that tells why. A failed
/// session keeps nothing of what it had collected.
pub open spec fn failure(before: ScanSessionView, error: ScanError) -> (
    ScanSessionView,
    ScanActionView,
) {
    (
        ScanSessionView {
            interface: before.interface,
            phase: ScanPhase::Failed,
            interfaces: Seq::empty(),
            stations: Seq::empty(),
        },
        ScanActionView::Fail { during: before.phase, error },
    )
}

/// The answer to an event that the session does not wait for.
pub open spec fn out_of_turn(before: ScanSessionView) -> ScanActionView {
    ScanActionView::Fail { during: before.phase, error: ScanError::OutOfTurn }
}

/// The session in another phase, and the action that goes with it.
pub open spec fn advance(before: ScanSessionView, phase: ScanPhase, action: ScanActionView) -> (
    ScanSessionView,
    ScanActionView,
) {
    (ScanSessionView { phase, ..before }, action)
}

/// While the interface is searched: what a batch of the interface dump leads
/// to. The messages before the end of the dump are added to the list; a
/// malformed one fails the scan. At the end of the dump the scan is triggered
/// on the first interface of the name, or fails for want of one. Without the
/// end, reading goes on.
pub open spec fn after_interface_batch(
    before: ScanSessionView,
    family: u16,
    batch: Seq<NlMessageView>,
) -> (ScanSessionView, ScanActionView) {
    let end = first_done(batch);
    match listing(before.interfaces, batch.take(end)) {
        Err(e) => failure(before, ScanError::Decode(e)),
        Ok(interfaces) => {
            let listed = ScanSessionView { interfaces, ..before };
            if end < batch.len() {
                match position_of(interfaces, before.interface) {
                    Some(at) => advance(
                        listed,
                        ScanPhase::Triggering { family, index: interfaces[at].index },
                        ScanActionView::SendRequest(
                            trigger_scan_request(family, interfaces[at].index),
                        ),
                    ),
                    None => failure(before, ScanError::InterfaceNotFound),
                }
            } else {
                (listed, ScanActionView::ReadControl)
            }
        },
    }
}

/// While the acknowledgement is awaited: what a batch leads to. The first
/// acknowledgement or error report among the messages decides: accepted, the
/// event channel is opened; rejected or malformed, the scan fails. Without
/// one, reading goes on.
pub open spec fn after_trigger_batch(
    before: ScanSessionView,
    family: u16,
    index: u32,
    batch: Seq<NlMessageView>,
) -> (ScanSessionView, ScanActionView) {
    match acknowledgement(batch) {
        Some(Ok(())) => advance(
            before,
            ScanPhase::AwaitingCompletion { family, index, subscribed: false, waited: 0 },
            ScanActionView::OpenEventChannel,
        ),
        Some(Err(error)) => failure(before, error),
        None => (before, ScanActionView::ReadControl),
    }
}

/// While the announcement is awaited: what a second without one leads to.
/// The last second of the time allowed fails the scan.
pub open spec fn after_tick(before: ScanSessionView, family: u16, index: u32, waited: u32) -> (
    ScanSessionView,
    ScanActionView,
) {
    if waited + 1 >= SCAN_TIMEOUT_SECONDS {
        failure(before, ScanError::ScanTimeout)
    } else {
        advance(
            before,
            ScanPhase::AwaitingCompletion {
                family,
                index,
                subscribed: true,
                waited: (waited + 1) as u32,
            },
            ScanActionView::AwaitEvent,
        )
    }
}

/// What follows from an event, for all events but the batch that ends the
/// dump of scan results. A session that is over answers everything with an
/// error and stays as it is; a failure of the transport fails the scan in
/// every phase, and so do bytes that are no messages; an event that the phase
/// does not wait for fails it too.
pub open spec fn next(before: ScanSessionView, event: ScanEventView) -> (
    ScanSessionView,
    ScanActionView,
) {
    match (before.phase, event) {
        (ScanPhase::Done, _) => (before, out_of_turn(before)),
        (ScanPhase::Failed, _) => (before, out_of_turn(before)),
        (_, ScanEventView::TransportFailed) => failure(before, ScanError::Transport),
        (_, ScanEventView::Malformed(error)) => failure(before, ScanError::Decode(error)),
        (ScanPhase::ResolvingInterface { opened: None }, ScanEventView::ControlOpened(family)) =>
            advance(
            before,
            ScanPhase::ResolvingInterface { opened: Some(family) },
            ScanActionView::SendRequest(get_interface_request(family)),
        ),
        (
            ScanPhase::ResolvingInterface { opened: Some(family) },
            ScanEventView::ControlBatch(batch),
        ) => after_interface_batch(before, family, batch),
        (ScanPhase::Triggering { family, index }, ScanEventView::ControlBatch(batch)) =>
            after_trigger_batch(before, family, index, batch),
        (
            ScanPhase::AwaitingCompletion { family, index, subscribed: false, waited },
            ScanEventView::EventChannelOpened,
        ) => advance(
            before,
            ScanPhase::AwaitingCompletion { family, index, subscribed: true, waited },
            ScanActionView::AwaitEvent,
        ),
        (
            ScanPhase::AwaitingCompletion { family, index, subscribed: true, waited },
            ScanEventView::EventBatch(batch),
        ) => if any_announces_scan_results(batch) {
            advance(
                before,
                ScanPhase::FetchingResults,
                ScanActionView::SendRequest(get_scan_request(family, index)),
            )
        } else {
            (before, ScanActionView::AwaitEvent)
        },
        (
            ScanPhase::AwaitingCompletion { family, index, subscribed: true, waited },
            ScanEventView::Tick,
        ) => after_tick(before, family, index, waited),
        (ScanPhase::FetchingResults, ScanEventView::ControlBatch(batch)) => (
            ScanSessionView {
                stations: collected(before.stations, batch.take(first_done(batch))),
                ..before
            },
            ScanActionView::ReadControl,
        ),
        _ => failure(before, ScanError::OutOfTurn),
    }
}

/// Whether an event ends the dump of scan results: the session is fetching
/// them and the batch holds the end of the dump.
pub open spec fn ends_the_dump(before: ScanSessionView, event: ScanEventView) -> bool {
    before.phase == ScanPhase::FetchingResults && match event {
        ScanEventView::ControlBatch(batch) => first_done(batch) < batch.len(),
        _ => false,
    }
}

/// Whether `list` is what a scan hands out for the stations it collected.
pub open spec fn completes_with(action: ScanActionView, collected: Seq<StationView>) -> bool {
    match action {
        ScanActionView::Complete(list) => is_station_list_of(list, collected),
        _ => false,
    }
}

/// Whether `after` and `action` are what follows when `event` is reported to
/// the session `before`. The batch that ends the dump of scan results
/// completes the scan with the station list of all that was collected;
/// everything else is given by `next`.
pub open spec fn follows(
    before: ScanSessionView,
    event: ScanEventView,
    after: ScanSessionView,
    action: ScanActionView,
) -> bool {
    if ends_the_dump(before, event) {
        let collected = next(before, event).0.stations;
        &&& after == (ScanSessionView { phase: ScanPhase::Done, stations: collected, ..before })
        &&& completes_with(action, collected)
    } else {
        (after, action) == next(before, event)
    }
}

/// What a read of `bytes` from the control socket is reported as: the
/// messages in them, or the error of decoding them.
pub fn control_read(bytes: &[u8]) -> (event: ScanEvent)
    ensures
        event@ == match parse_batch(bytes@) {
            Ok(batch) => ScanEventView::ControlBatch(batch),
            Err(error) => ScanEventView::Malformed(error),
        },
{
    match parse_messages(bytes) {
        Ok(batch) => ScanEvent::ControlBatch(batch),
        Err(error) => ScanEvent::Malformed(error),
    }
}

/// What a read of `bytes` from the event channel is reported as: the
/// messages in them, or the error of decoding them.
pub fn event_read(bytes: &[u8]) -> (event: ScanEvent)
    ensures
        event@ == match parse_batch(bytes@) {
            Ok(batch) => ScanEventView::EventBatch(batch),
            Err(error) => ScanEventView::Malformed(error),
        },
{
    match parse_messages(bytes) {
        Ok(batch) => ScanEvent::EventBatch(batch),
        Err(error) => ScanEvent::Malformed(error),
    }
}

/// Whether an event leaves a session that awaits the announcement waiting:
/// a second that passed, or a batch that announces no scan results.
pub open spec fn is_quiet(event: ScanEventView) -> bool {
    match event {
        ScanEventView::Tick => true,
        ScanEventView::EventBatch(batch) => !any_announces_scan_results(batch),
        _ => false,
    }
}

/// How many seconds pass in a sequence of events.
pub open spec fn ticks(events: Seq<ScanEventView>) -> nat
    decreases events.len(),
{
    if events.len() == 0 {
        0
    } else if events.last() is Tick {
        ticks(events.drop_last()) + 1
    } else {
        ticks(events.drop_last())
    }
}

/// The session after a sequence of events, none of which ends the dump of
/// scan results.
pub open spec fn run(before: ScanSessionView, events: Seq<ScanEventView>) -> ScanSessionView
    decreases events.len(),
{
    if events.len() == 0 {
        before
    } else {
        next(run(before, events.drop_last()), events.last()).0
    }
}

/// A session that awaits the announcement and hears none counts the seconds:
/// before the forty-fifth it still waits, the forty-fifth fails the scan with
/// a timeout, and failed it stays, however many batches without an
/// announcement arrive in between.
pub proof fn silence_times_out(
    before: ScanSessionView,
    family: u16,
    index: u32,
    events: Seq<ScanEventView>,
)
    requires
        before.phase == (ScanPhase::AwaitingCompletion {
            family,
            index,
            subscribed: true,
            waited: 0,
        }),
        forall|i: int| 0 <= i < events.len() ==> is_quiet(#[trigger] events[i]),
    ensures
        ticks(events) < SCAN_TIMEOUT_SECONDS ==> run(before, events) == (ScanSessionView {
            phase: ScanPhase::AwaitingCompletion {
                family,
                index,
                subscribed: true,
                waited: ticks(events) as u32,
            },
            ..before
        }),
        ticks(events) == SCAN_TIMEOUT_SECONDS - 1 ==> next(
            run(before, events),
            ScanEventView::Tick,
        ) == failure(run(before, events), ScanError::ScanTimeout),
        ticks(events) >= SCAN_TIMEOUT_SECONDS ==> run(before, events).phase == ScanPhase::Failed,
    decreases events.len(),
{
    if events.len() > 0 {
        let front = events.drop_last();
        assert forall|i: int| 0 <= i < front.len() implies is_quiet(#[trigger] front[i]) by {
            assert(front[i] == events[i]);
        }
        silence_times_out(before, family, index, front);
        assert(is_quiet(events[events.len() - 1]));
    }
}

/// A session that is over stays as it is and asks for nothing more, whatever
/// is reported to it.
pub proof fn over_stays_over(before: ScanSessionView, event: ScanEventView)
    requires
        before.phase == ScanPhase::Done || before.phase == ScanPhase::Failed,
    ensures
        !ends_the_dump(before, event),
        next(before, event) == (before, out_of_turn(before)),
{
}

/// What the step of a scan is called in which it failed.
pub open spec fn phase_text(phase: ScanPhase) -> Seq<char> {
    match phase {
        ScanPhase::ResolvingInterface { .. } => "Failed to get interfaces"@,
        ScanPhase::Triggering { .. } => "Failed to trigger scan"@,
        ScanPhase::AwaitingCompletion { .. } => "Failed to receive new scan results notification"@,
        ScanPhase::FetchingResults => "Failed to receive get scan results response"@,
        ScanPhase::Done => "Scan is complete"@,
        ScanPhase::Failed => "Scan has failed"@,
    }
}

/// What the step of a scan is called in which it failed.
pub fn phase_context(phase: ScanPhase) -> (text: &'static str)
    ensures
        text@ == phase_text(phase),
{
    match phase {
        ScanPhase::ResolvingInterface { .. } => "Failed to get interfaces",
        ScanPhase::Triggering { .. } => "Failed to trigger scan",
        ScanPhase::AwaitingCompletion { .. } => "Failed to receive new scan results notification",
        ScanPhase::FetchingResults => "Failed to receive get scan results response",
        ScanPhase::Done => "Scan is complete",
        ScanPhase::Failed => "Scan has failed",
    }
}

/// The messages of a scan that failed with `error` during `phase`: the step
/// that failed, and behind it the error and its cause.
pub fn describe_failure(during: ScanPhase, error: ScanError) -> (chain: ErrorChain)
    ensures
        chain@ == seq![phase_text(during)] + scan_error_chain(error),
{
    error.chain().context(phase_context(during).to_owned())
}

impl ScanSession {
    /// A scan of the interface of this name, and the first thing to do for
    /// it: to open the control socket.
    pub fn new(interface: String) -> (start: (ScanSession, ScanAction))
        ensures
            start.0@ == (ScanSessionView {
                interface: interface@,
                phase: ScanPhase::ResolvingInterface { opened: None },
                interfaces: Seq::empty(),
                stations: Seq::empty(),
            }),
            start.1@ == ScanActionView::OpenControl,
    {
        let session = ScanSession {
            interface,
            phase: ScanPhase::ResolvingInterface { opened: None },
            interfaces: Vec::new(),
            stations: Vec::new(),
        };
        assert(interface_views(session.interfaces@) =~= Seq::empty());
        assert(station_views(session.stations@) =~= Seq::empty());
        (session, ScanAction::OpenControl)
    }

    /// Whether the scan has ended, well or badly.
    pub fn is_over(&self) -> (over: bool)
        ensures
            over == (self.phase == ScanPhase::Done || self.phase == ScanPhase::Failed),
    {
        match self.phase {
            ScanPhase::Done => true,
            ScanPhase::Failed => true,
            _ => false,
        }
    }

    fn fail(&mut self, error: ScanError) -> (action: ScanAction)
        ensures
            (final(self)@, action@) == failure(old(self)@, error),
    {
        let during = self.phase;
        self.phase = ScanPhase::Failed;
        self.interfaces = Vec::new();
        self.stations = Vec::new();
        assert(interface_views(self.interfaces@) =~= Seq::empty());
        assert(station_views(self.stations@) =~= Seq::empty());
        ScanAction::Fail { during, error }
    }

    fn on_interface_batch(&mut self, family: u16, batch: &Vec<NlMessage>) -> (action: ScanAction)
        requires
            old(self).phase == (ScanPhase::ResolvingInterface { opened: Some(family) }),
        ensures
            (final(self)@, action@) == after_interface_batch(
                old(self)@,
                family,
                message_views(batch@),
            ),
    {
        let end = find_done(batch);
        match collect_interfaces(&mut self.interfaces, batch, end) {
            Err(e) => self.fail(ScanError::Decode(e)),
            Ok(()) => {
                if end < batch.len() {
                    match find_interface(&self.interfaces, self.interface.as_str()) {
                        Some(at) => {
                            let index: u32 = self.interfaces[at].index;
                            assert(interface_views(self.interfaces@)[at as int]
                                == self.interfaces@[at as int]@);
                            self.phase = ScanPhase::Triggering { family, index };
                            ScanAction::SendRequest(trigger_scan_message(family, index))
                        },
                        None => self.fail(ScanError::InterfaceNotFound),
                    }
                } else {
                    ScanAction::ReadControl
                }
            },
        }
    }

    fn on_results_batch(&mut self, batch: &Vec<NlMessage>) -> (action: ScanAction)
        requires
            old(self).phase == ScanPhase::FetchingResults,
        ensures
            follows(
                old(self)@,
                ScanEventView::ControlBatch(message_views(batch@)),
                final(self)@,
                action@,
            ),
    {
        let end = find_done(batch);
        collect_stations(&mut self.stations, batch, end);
        if end < batch.len() {
            let list = rank_stations(&self.stations);
            self.phase = ScanPhase::Done;
            ScanAction::Complete(list)
        } else {
            ScanAction::ReadControl
        }
    }

    /// Takes what the driver reports and tells what to do next.
    pub fn step(&mut self, event: ScanEvent) -> (action: ScanAction)
        ensures
            follows(old(self)@, event@, final(self)@, action@),
    {
        match self.phase {
            ScanPhase::Done => {
                return ScanAction::Fail { during: ScanPhase::Done, error: ScanError::OutOfTurn };
            },
            ScanPhase::Failed => {
                return ScanAction::Fail { during: ScanPhase::Failed, error: ScanError::OutOfTurn };
            },
            _ => {},
        }
        match event {
            ScanEvent::TransportFailed => self.fail(ScanError::Transport),
            ScanEvent::Malformed(error) => self.fail(ScanError::Decode(error)),
            ScanEvent::ControlOpened(family) => match self.phase {
                ScanPhase::ResolvingInterface { opened: None } => {
                    self.phase = ScanPhase::ResolvingInterface { opened: Some(family) };
                    ScanAction::SendRequest(create_get_interface_message(family))
                },
                _ => self.fail(ScanError::OutOfTurn),
            },
            ScanEvent::EventChannelOpened => match self.phase {
                ScanPhase::AwaitingCompletion { family, index, subscribed: false, waited } => {
                    self.phase =
                    ScanPhase::AwaitingCompletion { family, index, subscribed: true, waited };
                    ScanAction::AwaitEvent
                },
                _ => self.fail(ScanError::OutOfTurn),
            },
            ScanEvent::EventBatch(batch) => match self.phase {
                ScanPhase::AwaitingCompletion { family, index, subscribed: true, .. } => {
                    if has_scan_results(&batch) {
                        self.phase = ScanPhase::FetchingResults;
                        ScanAction::SendRequest(create_get_scan_message(family, index))
                    } else {
                        ScanAction::AwaitEvent
                    }
                },
                _ => self.fail(ScanError::OutOfTurn),
            },
            ScanEvent::Tick => match self.phase {
                ScanPhase::AwaitingCompletion { family, index, subscribed: true, waited } => {
                    if waited >= SCAN_TIMEOUT_SECONDS - 1 {
                        self.fail(ScanError::ScanTimeout)
                    } else {
                        self.phase = ScanPhase::AwaitingCompletion {
                            family,
                            index,
                            subscribed: true,
                            waited: waited + 1,
                        };
                        ScanAction::AwaitEvent
                    }
                },
                _ => self.fail(ScanError::OutOfTurn),
            },
            ScanEvent::ControlBatch(batch) => match self.phase {
                ScanPhase::ResolvingInterface { opened: Some(family) } => self.on_interface_batch(
                    family,
                    &batch,
                ),
                ScanPhase::Triggering { family, index } => match read_acknowledgement(&batch) {
                    Some(Ok(())) => {
                        self.phase = ScanPhase::AwaitingCompletion {
                            family,
                            index,
                            subscribed: false,
                            waited: 0,
                        };
                        ScanAction::OpenEventChannel
                    },
                    Some(Err(error)) => self.fail(error),
                    None => ScanAction::ReadControl,
                },
                ScanPhase::FetchingResults => self.on_results_batch(&batch),
                _ => self.fail(ScanError::OutOfTurn),
            },
        }
    }
}

} // verus!
