//! Sessions over time: what holds of every sequence of operations.
//!
//! A session is modelled as its two slots, and its history as a sequence of
//! steps. Each step changes the session as the operation of the same name
//! does, so what is proved here of steps holds of the operations.

use crate::callback::deliveries;
use crate::device::{ConnectionState, DeviceState, ReadEvent};
use crate::framing::{lemma_framing_splits_at_every_line_feed, lines_of};
use crate::link::LinkFailure;
use crate::text::text_prefix;
use vstd::prelude::*;

verus! {

/// A session as contracts see it: the device slot and the callback slot.
pub struct SessionState<P, C> {
    /// The device slot.
    pub device: DeviceState<P>,
    /// The registered callback, if there is one.
    pub callback: Option<C>,
}

/// One thing that happens to a session.
pub enum Step<P, C> {
    /// A callback is registered.
    Register(C),
    /// The host opens a port, and the transport reports a handle or a
    /// failure.
    Open(Seq<char>, Result<P, LinkFailure>),
    /// The host closes the session.
    Close,
    /// The reader takes the outcome of one read.
    Read(ReadEvent),
}

impl<P, C> SessionState<P, C> {
    /// The session before anything happened.
    pub open spec fn fresh() -> Self {
        SessionState { device: DeviceState::fresh(), callback: None }
    }

    /// The session after `step`.
    pub open spec fn after(self, step: Step<P, C>) -> Self {
        match step {
            Step::Register(callback) => SessionState { callback: Some(callback), ..self },
            Step::Open(port, Ok(handle)) => SessionState {
                device: self.device.installed(handle, port),
                ..self
            },
            Step::Open(_, Err(_)) => self,
            Step::Close => SessionState { device: self.device.closed(), callback: None },
            Step::Read(event) => SessionState { device: self.device.received(event), ..self },
        }
    }

    /// The lines that the reader decodes in `step`.
    pub open spec fn decoded_in(self, step: Step<P, C>) -> Seq<Seq<u8>> {
        match step {
            Step::Read(event) => self.device.decoded(event),
            _ => Seq::empty(),
        }
    }

    /// What `step` delivers, and to which callback.
    pub open spec fn delivered_in(self, step: Step<P, C>) -> Seq<(C, Seq<u8>)> {
        deliveries(self.callback, self.decoded_in(step))
    }

    /// True when `step` starts the reader.
    pub open spec fn starts_reader_in(self, step: Step<P, C>) -> bool {
        step matches Step::Open(_, Ok(_)) && self.device.starts_reader()
    }

    /// The session after `steps`, one after the other.
    pub open spec fn after_all(self, steps: Seq<Step<P, C>>) -> Self
        decreases steps.len(),
    {
        if steps.len() == 0 {
            self
        } else {
            self.after(steps[0]).after_all(steps.drop_first())
        }
    }

    /// The lines that the reader decodes over `steps`, in order.
    pub open spec fn decoded_over(self, steps: Seq<Step<P, C>>) -> Seq<Seq<u8>>
        decreases steps.len(),
    {
        if steps.len() == 0 {
            Seq::empty()
        } else {
            self.decoded_in(steps[0]) + self.after(steps[0]).decoded_over(steps.drop_first())
        }
    }

    /// What is delivered over `steps`, in order.
    pub open spec fn delivered_over(self, steps: Seq<Step<P, C>>) -> Seq<(C, Seq<u8>)>
        decreases steps.len(),
    {
        if steps.len() == 0 {
            Seq::empty()
        } else {
            self.delivered_in(steps[0]) + self.after(steps[0]).delivered_over(
                steps.drop_first(),
            )
        }
    }

    /// How often the reader is started over `steps`.
    pub open spec fn reader_starts_over(self, steps: Seq<Step<P, C>>) -> nat
        decreases steps.len(),
    {
        if steps.len() == 0 {
            0
        } else {
            (if self.starts_reader_in(steps[0]) {
                1nat
            } else {
                0nat
            }) + self.after(steps[0]).reader_starts_over(steps.drop_first())
        }
    }
}

/// True when no step of `steps` registers or removes a callback.
pub open spec fn keeps_callback<P, C>(steps: Seq<Step<P, C>>) -> bool {
    forall|i: int|
        0 <= i < steps.len() ==> !(#[trigger] steps[i] is Register) && !(steps[i] is Close)
}

/// Addressing lines to a callback keeps their order across a cut.
pub proof fn lemma_deliveries_concat<C>(
    callback: Option<C>,
    first: Seq<Seq<u8>>,
    second: Seq<Seq<u8>>,
)
    ensures
        deliveries(callback, first + second) == deliveries(callback, first) + deliveries(
            callback,
            second,
        ),
{
    assert(deliveries(callback, first + second) =~= deliveries(callback, first) + deliveries(
        callback,
        second,
    ));
}

/// While a callback stays registered, every line that the reader decodes is
/// delivered to it exactly once, unchanged and in the order of decoding.
pub proof fn law_registered_callback_gets_every_line<P, C>(
    session: SessionState<P, C>,
    callback: C,
    steps: Seq<Step<P, C>>,
)
    requires
        keeps_callback(steps),
    ensures
        session.after(Step::Register(callback)).delivered_over(steps) == deliveries(
            Some(callback),
            session.after(Step::Register(callback)).decoded_over(steps),
        ),
    decreases steps.len(),
{
    let registered = session.after(Step::Register(callback));
    if steps.len() == 0 {
        assert(deliveries(Some(callback), Seq::<Seq<u8>>::empty()) =~= Seq::empty());
    } else {
        let next = registered.after(steps[0]);
        let rest = steps.drop_first();
        assert(next.callback == Some(callback));
        assert(next == next.after(Step::Register(callback)));
        assert forall|i: int| 0 <= i < rest.len() implies !(#[trigger] rest[i] is Register)
            && !(rest[i] is Close) by {
            assert(rest[i] == steps[i + 1]);
        }
        law_registered_callback_gets_every_line(next, callback, rest);
        lemma_deliveries_concat(
            Some(callback),
            registered.decoded_in(steps[0]),
            next.decoded_over(rest),
        );
    }
}

/// Only the callback that was registered last receives lines: a
/// registration leaves nothing of the one before it.
pub proof fn law_latest_registration_wins<P, C>(
    session: SessionState<P, C>,
    earlier: C,
    later: C,
    steps: Seq<Step<P, C>>,
)
    requires
        keeps_callback(steps),
    ensures
        session.after(Step::Register(earlier)).after(Step::Register(later)) == session.after(
            Step::Register(later),
        ),
        session.after(Step::Register(earlier)).after(Step::Register(later)).delivered_over(steps)
            == deliveries(
            Some(later),
            session.after(Step::Register(later)).decoded_over(steps),
        ),
{
    law_registered_callback_gets_every_line(session, later, steps);
}

/// Without a callback nothing is delivered, whatever is decoded.
pub proof fn law_no_callback_no_delivery<P, C>(session: SessionState<P, C>, step: Step<P, C>)
    requires
        session.callback is None,
    ensures
        session.delivered_in(step) == Seq::<(C, Seq<u8>)>::empty(),
{
}

/// Lines are not kept for a callback that is registered later: what the
/// reader decodes while no callback is registered is delivered to nobody,
/// and the callback registered afterwards gets what is decoded from then on.
pub proof fn law_lines_before_registration_are_dropped<P, C>(
    session: SessionState<P, C>,
    before: ReadEvent,
    callback: C,
    after: ReadEvent,
)
    requires
        session.callback is None,
    ensures
        session.delivered_over(
            seq![Step::Read(before), Step::Register(callback), Step::Read(after)],
        ) == deliveries(Some(callback), session.device.received(before).decoded(after)),
{
    let steps = seq![Step::Read(before), Step::Register(callback), Step::Read(after)];
    let second = steps.drop_first();
    let third = second.drop_first();
    let first_state = session.after(steps[0]);
    let second_state = first_state.after(second[0]);
    reveal_with_fuel(SessionState::delivered_over, 4);
    assert(third.drop_first().len() == 0);
    assert(second_state.delivered_over(third) =~= second_state.delivered_in(third[0]));
    assert(first_state.delivered_over(second) =~= second_state.delivered_in(third[0]));
    assert(session.delivered_over(steps) =~= second_state.delivered_in(third[0]));
}

/// After a port is opened again, the connection is the later one, and the
/// reader decodes only what arrives on it: nothing that the earlier
/// connection left pending becomes part of a line.
pub proof fn law_reopening_leaves_the_later_connection<P, C>(
    session: SessionState<P, C>,
    earlier_port: Seq<char>,
    earlier: P,
    between: Seq<Step<P, C>>,
    later_port: Seq<char>,
    later: P,
    chunk: Vec<u8>,
)
    ensures
        ({
            let reopened = session.after(Step::Open(earlier_port, Ok(earlier))).after_all(
                between,
            ).after(Step::Open(later_port, Ok(later)));
            &&& reopened.device.connection == Some(
                ConnectionState { handle: later, port: later_port, pending: Seq::empty() },
            )
            &&& reopened.decoded_in(Step::Read(ReadEvent::Data(chunk))) == if reopened.device.reader
                is Reading {
                text_prefix(lines_of(chunk@))
            } else {
                Seq::empty()
            }
        }),
{
    assert(Seq::<u8>::empty() + chunk@ =~= chunk@);
}

/// True when no step of `steps` installs a connection.
pub open spec fn never_opens<P, C>(steps: Seq<Step<P, C>>) -> bool {
    forall|i: int| 0 <= i < steps.len() ==> !(#[trigger] steps[i] matches Step::Open(_, Ok(_)))
}

/// Closing a session in which no port was opened yet leaves the device slot
/// as it was at the start, and the whole session as it is where no callback
/// is registered.
pub proof fn law_close_before_open_changes_nothing<P, C>(steps: Seq<Step<P, C>>)
    requires
        never_opens(steps),
    ensures
        ({
            let session = SessionState::<P, C>::fresh().after_all(steps);
            &&& session.device == DeviceState::<P>::fresh()
            &&& session.after(Step::Close).device == session.device
            &&& session.callback is None ==> session.after(Step::Close) == session
        }),
{
    lemma_device_stays_fresh(SessionState::<P, C>::fresh(), steps);
}

/// Steps that install no connection leave a fresh device slot fresh.
pub proof fn lemma_device_stays_fresh<P, C>(session: SessionState<P, C>, steps: Seq<Step<P, C>>)
    requires
        session.device == DeviceState::<P>::fresh(),
        never_opens(steps),
    ensures
        session.after_all(steps).device == DeviceState::<P>::fresh(),
    decreases steps.len(),
{
    if steps.len() > 0 {
        let rest = steps.drop_first();
        assert(!(steps[0] matches Step::Open(_, Ok(_))));
        assert forall|i: int| 0 <= i < rest.len() implies !(#[trigger] rest[i] matches Step::Open(
            _,
            Ok(_),
        )) by {
            assert(rest[i] == steps[i + 1]);
        }
        lemma_device_stays_fresh(session.after(steps[0]), rest);
    }
}

/// Closing twice is closing once.
pub proof fn law_close_is_idempotent<P, C>(session: SessionState<P, C>)
    ensures
        session.after(Step::Close).after(Step::Close) == session.after(Step::Close),
{
}

/// Once a reader exists, no step starts another.
pub proof fn lemma_started_reader_stays<P, C>(
    session: SessionState<P, C>,
    steps: Seq<Step<P, C>>,
)
    requires
        !(session.device.reader is NotStarted),
    ensures
        session.reader_starts_over(steps) == 0,
    decreases steps.len(),
{
    if steps.len() > 0 {
        lemma_started_reader_stays(session.after(steps[0]), steps.drop_first());
    }
}

/// Over any sequence of operations the reader is started at most once.
pub proof fn law_reader_starts_at_most_once<P, C>(
    session: SessionState<P, C>,
    steps: Seq<Step<P, C>>,
)
    ensures
        session.reader_starts_over(steps) <= 1,
    decreases steps.len(),
{
    if steps.len() > 0 {
        if session.starts_reader_in(steps[0]) {
            lemma_started_reader_stays(session.after(steps[0]), steps.drop_first());
        } else {
            law_reader_starts_at_most_once(session.after(steps[0]), steps.drop_first());
        }
    }
}

/// Every step moves the reader along its state machine, or leaves it where
/// it is.
pub proof fn law_reader_follows_its_state_machine<P, C>(
    session: SessionState<P, C>,
    step: Step<P, C>,
)
    ensures
        session.device.reader.may_become(session.after(step).device.reader),
{
}

/// A reader that has ended stays ended, and decodes nothing more.
pub proof fn law_ended_reader_stays_ended<P, C>(
    session: SessionState<P, C>,
    steps: Seq<Step<P, C>>,
)
    requires
        session.device.reader is Terminated,
    ensures
        session.after_all(steps).device.reader is Terminated,
        session.decoded_over(steps) == Seq::<Seq<u8>>::empty(),
        session.delivered_over(steps) == Seq::<(C, Seq<u8>)>::empty(),
    decreases steps.len(),
{
    if steps.len() > 0 {
        law_ended_reader_stays_ended(session.after(steps[0]), steps.drop_first());
        assert(session.decoded_in(steps[0]) =~= Seq::empty());
        assert(session.delivered_in(steps[0]) =~= Seq::empty());
    }
}

/// Every step keeps the device slot consistent: a reader that reads has a
/// connection, a reader that idles or does not exist yet has none, and what
/// is pending holds no line feed.
pub proof fn law_steps_keep_the_device_consistent<P, C>(
    session: SessionState<P, C>,
    step: Step<P, C>,
)
    requires
        session.device.consistent(),
    ensures
        DeviceState::<P>::fresh().consistent(),
        session.after(step).device.consistent(),
{
    match step {
        Step::Read(ReadEvent::Data(chunk)) => {
            if session.device.reading() {
                lemma_framing_splits_at_every_line_feed(
                    session.device.connection->0.pending + chunk@,
                );
            }
        },
        _ => {},
    }
}

} // verus!
