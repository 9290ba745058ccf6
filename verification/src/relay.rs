//! The relay's course through one event: the session is forwarded, the names
//! of its players are looked up one after the other, and the name map is
//! forwarded. The relay performs no request itself. It says which one is due,
//! and is told how it ended.

use vstd::prelude::*;
use vstd::seq_lib::seq_to_set_is_finite;
use vstd::set_lib::lemma_len_subset;
use crate::endpoint::{
    names_collector_address, names_collector_url, session_collector_address, session_collector_url,
    summoner_address, summoner_url,
};
use crate::error::{ForwardError, LookupError, RelayError};
use crate::json::json_text;
use crate::names::{
    answered_name, inserted, is_name_map, law_insert_keeps_bot, lemma_position, name_of, names_json,
    read_answer, NameMap,
};
use crate::session::{decode_frame, decoded_frame, roster_of, DecodedFrame, FrameValue};

verus! {

/// What the relay waits for.
#[derive(Clone, Copy, Debug, PartialEq, Eq, Structural)]
pub enum Pending {
    /// The next frame of the event stream.
    Frame,
    /// The outcome of forwarding the session.
    SessionPost,
    /// The answer to the lookup of one summoner.
    Lookup,
    /// The outcome of forwarding the name map.
    NamesPost,
}

/// What happened outside the relay.
#[derive(Clone, Debug, PartialEq, Eq)]
pub enum Event {
    /// A frame arrived, with this text.
    Frame(String),
    /// The collector took what was posted.
    Delivered,
    /// The post failed.
    Undelivered,
    /// The local client answered a lookup with success, and this body.
    Answer(String),
    /// The lookup failed, or was answered with an error status.
    Unanswered,
}

/// What is to be done next, as a mathematical value.
pub enum ActionValue {
    ReadFrame,
    PostSession { url: Seq<char>, body: Seq<char> },
    GetSummoner { url: Seq<char> },
    PostNames { url: Seq<char>, body: Seq<char> },
    Continue,
}

/// What is to be done next.
#[derive(Clone, Debug, PartialEq, Eq)]
pub enum Action {
    /// Read the next frame from the event stream.
    ReadFrame,
    /// Post the session to the collector.
    PostSession { url: String, body: String },
    /// Ask the local client for one summoner.
    GetSummoner { url: String },
    /// Post the name map to the collector.
    PostNames { url: String, body: String },
    /// Go on with what was under way: the event was not the awaited one.
    Continue,
}

impl View for Action {
    type V = ActionValue;

    open spec fn view(&self) -> ActionValue {
        match self {
            Action::ReadFrame => ActionValue::ReadFrame,
            Action::PostSession { url, body } => ActionValue::PostSession { url: url@, body: body@ },
            Action::GetSummoner { url } => ActionValue::GetSummoner { url: url@ },
            Action::PostNames { url, body } => ActionValue::PostNames { url: url@, body: body@ },
            Action::Continue => ActionValue::Continue,
        }
    }
}

/// What there is to report about an event.
#[derive(Clone, Copy, Debug, PartialEq, Eq, Structural)]
pub enum Notice {
    /// Nothing.
    Quiet,
    /// The event's processing ended with a failure.
    Failed(RelayError),
    /// Session and name map have both been forwarded.
    Completed,
    /// The event was not the awaited one and was passed over.
    Unexpected,
}

/// The relay's answer to an event, as a mathematical value.
pub struct StepValue {
    pub notice: Notice,
    pub action: ActionValue,
}

/// The relay's answer to an event.
#[derive(Clone, Debug, PartialEq, Eq)]
pub struct Step {
    pub notice: Notice,
    pub action: Action,
}

impl View for Step {
    type V = StepValue;

    open spec fn view(&self) -> StepValue {
        StepValue { notice: self.notice, action: self.action@ }
    }
}

/// The relay's state, as a mathematical value.
pub struct RelayValue {
    /// The local client's port.
    pub port: u32,
    /// What the relay waits for.
    pub pending: Pending,
    /// The summoner identifiers of the session under way.
    pub roster: Seq<i64>,
    /// The place in the roster up to which names have been looked up.
    pub cursor: int,
    /// The names recorded so far.
    pub names: Seq<(i64, Seq<char>)>,
}

/// The state between two events: the relay waits for a frame and holds
/// nothing of the frames before.
pub open spec fn idle(port: u32) -> RelayValue {
    RelayValue {
        port,
        pending: Pending::Frame,
        roster: Seq::empty(),
        cursor: 0,
        names: seq![(0i64, "Bot"@)],
    }
}

/// The answer that ends an event with a failure.
pub open spec fn failed(error: RelayError) -> StepValue {
    StepValue { notice: Notice::Failed(error), action: ActionValue::ReadFrame }
}

/// The first place at or after `from` whose summoner is human, or the length
/// of the roster where there is none.
pub open spec fn next_human(roster: Seq<i64>, from: int) -> int
    decreases roster.len() - from,
{
    if from < 0 || from >= roster.len() {
        roster.len() as int
    } else if roster[from] != 0 {
        from
    } else {
        next_human(roster, from + 1)
    }
}

/// State and answer when the lookups go on at the place `from`: the next
/// human summoner is looked up; where none is left, the name map is posted.
pub open spec fn resolve_from(
    port: u32,
    roster: Seq<i64>,
    names: Seq<(i64, Seq<char>)>,
    from: int,
) -> (RelayValue, StepValue) {
    let at = next_human(roster, from);
    if at < roster.len() {
        (
            RelayValue { port, pending: Pending::Lookup, roster, cursor: at, names },
            StepValue {
                notice: Notice::Quiet,
                action: ActionValue::GetSummoner { url: summoner_address(port, roster[at]) },
            },
        )
    } else {
        (
            RelayValue { port, pending: Pending::NamesPost, roster, cursor: at, names },
            StepValue {
                notice: Notice::Quiet,
                action: ActionValue::PostNames {
                    url: names_collector_address(),
                    body: json_text(names_json(names)),
                },
            },
        )
    }
}

/// State and answer once a frame has been decoded. An empty frame is passed
/// over and a malformed one is reported; either way the relay goes on
/// waiting for a frame. A session is posted at once.
pub open spec fn on_frame(port: u32, frame: FrameValue) -> (RelayValue, StepValue) {
    match frame {
        FrameValue::Skipped => (
            idle(port),
            StepValue { notice: Notice::Quiet, action: ActionValue::ReadFrame },
        ),
        FrameValue::Dropped(e) => (idle(port), failed(RelayError::Parse(e))),
        FrameValue::Session(session) => (
            RelayValue {
                port,
                pending: Pending::SessionPost,
                roster: roster_of(session),
                cursor: 0,
                names: seq![(0i64, "Bot"@)],
            },
            StepValue {
                notice: Notice::Quiet,
                action: ActionValue::PostSession {
                    url: session_collector_address(),
                    body: json_text(session.payload),
                },
            },
        ),
    }
}

/// State and answer once a lookup has ended. A name is recorded and the
/// lookups go on. A failure ends the event: nothing more is looked up and no
/// name map is posted.
pub open spec fn on_answer(state: RelayValue, answer: Result<Seq<char>, LookupError>) -> (
    RelayValue,
    StepValue,
) {
    match answer {
        Ok(name) => resolve_from(
            state.port,
            state.roster,
            inserted(state.names, state.roster[state.cursor], name),
            state.cursor + 1,
        ),
        Err(e) => (idle(state.port), failed(RelayError::Lookup(e))),
    }
}

/// The answer to a lookup that an event stands for.
pub open spec fn answer_of(event: Event) -> Result<Seq<char>, LookupError> {
    match event {
        Event::Answer(body) => answered_name(body@),
        _ => Err(LookupError::Unanswered),
    }
}

/// State and answer after an event.
pub open spec fn after(state: RelayValue, event: Event) -> (RelayValue, StepValue) {
    match (state.pending, event) {
        (Pending::Frame, Event::Frame(text)) => on_frame(state.port, decoded_frame(text@)),
        (Pending::SessionPost, Event::Delivered) => resolve_from(
            state.port,
            state.roster,
            state.names,
            0,
        ),
        (Pending::SessionPost, Event::Undelivered) => (
            idle(state.port),
            failed(RelayError::Forward(ForwardError::Session)),
        ),
        (Pending::Lookup, Event::Answer(_)) => on_answer(state, answer_of(event)),
        (Pending::Lookup, Event::Unanswered) => on_answer(state, answer_of(event)),
        (Pending::NamesPost, Event::Delivered) => (
            idle(state.port),
            StepValue { notice: Notice::Completed, action: ActionValue::ReadFrame },
        ),
        (Pending::NamesPost, Event::Undelivered) => (
            idle(state.port),
            failed(RelayError::Forward(ForwardError::Names)),
        ),
        _ => (state, StepValue { notice: Notice::Unexpected, action: ActionValue::Continue }),
    }
}

/// The summoner identifiers of a roster that are not zero.
pub open spec fn human_ids(roster: Seq<i64>) -> Set<i64> {
    Set::new(|id: i64| id != 0 && roster.contains(id))
}

/// What holds of every state that the relay reaches.
pub open spec fn reachable(state: RelayValue) -> bool {
    &&& is_name_map(state.names)
    &&& 0 <= state.cursor <= state.roster.len()
    &&& forall|i: int|
        0 <= i < state.names.len() ==> (#[trigger] state.names[i]).0 == 0 || exists|k: int|
            0 <= k < state.cursor && #[trigger] state.roster[k] == state.names[i].0
    &&& state.pending is Frame ==> state == idle(state.port)
    &&& state.pending is SessionPost ==> state.cursor == 0
    &&& state.pending is Lookup ==> state.cursor < state.roster.len() && state.roster[state.cursor]
        != 0
}

/// Where the next human summoner stands.
pub proof fn lemma_next_human(roster: Seq<i64>, from: int)
    requires
        0 <= from <= roster.len(),
    ensures
        from <= next_human(roster, from) <= roster.len(),
        next_human(roster, from) < roster.len() ==> roster[next_human(roster, from)] != 0,
        forall|k: int| from <= k < next_human(roster, from) ==> roster[k] == 0,
    decreases roster.len() - from,
{
    if from < roster.len() && roster[from] == 0 {
        lemma_next_human(roster, from + 1);
    }
}

/// The states that lookups go on in are reachable.
proof fn lemma_resolve_reachable(
    port: u32,
    roster: Seq<i64>,
    names: Seq<(i64, Seq<char>)>,
    from: int,
)
    requires
        0 <= from <= roster.len(),
        is_name_map(names),
        forall|i: int|
            0 <= i < names.len() ==> (#[trigger] names[i]).0 == 0 || exists|k: int|
                0 <= k < from && #[trigger] roster[k] == names[i].0,
    ensures
        reachable(resolve_from(port, roster, names, from).0),
{
    lemma_next_human(roster, from);
}

/// The state between two events is reachable.
pub proof fn law_idle_reachable(port: u32)
    ensures
        reachable(idle(port)),
{
}

/// Every state that follows a reachable state is reachable.
pub proof fn law_reachable_preserved(state: RelayValue, event: Event)
    requires
        reachable(state),
    ensures
        reachable(after(state, event).0),
{
    let next = after(state, event).0;
    match (state.pending, event) {
        (Pending::Frame, Event::Frame(text)) => {
            assert(reachable(idle(state.port)));
        },
        (Pending::SessionPost, Event::Delivered) => {
            lemma_resolve_reachable(state.port, state.roster, state.names, 0);
        },
        (Pending::Lookup, Event::Answer(_)) | (Pending::Lookup, Event::Unanswered) => {
            match answer_of(event) {
                Ok(name) => {
                    let id = state.roster[state.cursor];
                    let names = inserted(state.names, id, name);
                    law_insert_keeps_bot(state.names, id, name);
                    assert forall|i: int| 0 <= i < names.len() implies (#[trigger] names[i]).0 == 0
                        || exists|k: int|
                        0 <= k < state.cursor + 1 && #[trigger] state.roster[k] == names[i].0 by {
                        if names[i].0 == id {
                            assert(state.roster[state.cursor] == names[i].0);
                        } else {
                            assert(names[i] == state.names[i]);
                        }
                    }
                    lemma_resolve_reachable(state.port, state.roster, names, state.cursor + 1);
                },
                Err(_) => {
                    assert(reachable(idle(state.port)));
                },
            }
        },
        _ => {
            assert(reachable(idle(state.port)));
        },
    }
}

/// In every reachable state the identifier zero has the name `Bot`, whether
/// or not a player of the session has that identifier.
pub proof fn law_names_hold_bot(state: RelayValue)
    requires
        reachable(state),
    ensures
        name_of(state.names, 0) == Some("Bot"@),
{
    lemma_position(state.names, 0);
}

/// In every reachable state the name map has at most one entry more than the
/// roster has distinct identifiers that are not zero.
pub proof fn law_names_bounded(state: RelayValue)
    requires
        reachable(state),
    ensures
        human_ids(state.roster).finite(),
        state.names.len() <= 1 + human_ids(state.roster).len(),
{
    let ids = state.names.map_values(|e: (i64, Seq<char>)| e.0);
    assert(ids.no_duplicates()) by {
        assert forall|i: int, j: int| 0 <= i < ids.len() && 0 <= j < ids.len() && i != j implies ids[i]
            != ids[j] by {
            if i < j {
                assert(state.names[i].0 != state.names[j].0);
            } else {
                assert(state.names[j].0 != state.names[i].0);
            }
        }
    }
    ids.unique_seq_to_set();
    let humans = human_ids(state.roster);
    seq_to_set_is_finite(state.roster);
    assert(humans.subset_of(state.roster.to_set()));
    lemma_len_subset(humans, state.roster.to_set());
    let bound = humans.insert(0i64);
    assert forall|id: i64| ids.to_set().contains(id) implies bound.contains(id) by {
        let i = choose|i: int| 0 <= i < ids.len() && ids[i] == id;
        assert(state.names[i].0 == id);
        if id != 0 {
            let k = choose|k: int| 0 <= k < state.cursor && state.roster[k] == state.names[i].0;
            assert(state.roster[k] == id);
        }
    }
    lemma_len_subset(ids.to_set(), bound);
}

/// The name map that is posted for a session is the one that the relay then
/// holds. In it the identifier zero has the name `Bot`, and it has at most
/// one entry more than the session's roster has distinct identifiers that are
/// not zero.
pub proof fn law_posted_names(state: RelayValue, event: Event)
    requires
        reachable(state),
        after(state, event).1.action is PostNames,
    ensures
        ({
            let (next, step) = after(state, event);
            &&& step.action->PostNames_body == json_text(names_json(next.names))
            &&& step.action->PostNames_url == names_collector_address()
            &&& next.roster == state.roster
            &&& name_of(next.names, 0) == Some("Bot"@)
            &&& next.names.len() <= 1 + human_ids(next.roster).len()
        }),
{
    law_reachable_preserved(state, event);
    law_names_hold_bot(after(state, event).0);
    law_names_bounded(after(state, event).0);
}

/// An empty frame changes nothing and asks for no request but the next read,
/// whatever a decoder would make of its text.
pub proof fn law_empty_frame(state: RelayValue, text: String)
    requires
        reachable(state),
        state.pending is Frame,
        text@.len() == 0,
    ensures
        after(state, Event::Frame(text)) == (
            state,
            StepValue { notice: Notice::Quiet, action: ActionValue::ReadFrame },
        ),
{
}

/// A frame that cannot be decoded is reported as a parse error. Nothing is
/// forwarded, and the relay waits for the next frame as it did before.
pub proof fn law_malformed_frame(state: RelayValue, text: String)
    requires
        reachable(state),
        state.pending is Frame,
        decoded_frame(text@) is Dropped,
    ensures
        after(state, Event::Frame(text)) == (
            state,
            failed(RelayError::Parse(decoded_frame(text@)->Dropped_0)),
        ),
{
}

/// A lookup that fails ends the event: the failure is reported, no name map
/// is posted, and the next frame is handled as by a relay that has seen no
/// frame before.
pub proof fn law_lookup_failure(state: RelayValue, event: Event, next: String)
    requires
        reachable(state),
        state.pending is Lookup,
        event is Answer || event is Unanswered,
        answer_of(event) is Err,
    ensures
        after(state, event) == (
            idle(state.port),
            failed(RelayError::Lookup(answer_of(event)->Err_0)),
        ),
        after(after(state, event).0, Event::Frame(next)) == after(
            idle(state.port),
            Event::Frame(next),
        ),
{
}

/// The session is forwarded before the name map: a session is posted only in
/// answer to a frame, and a name map only while the event of a forwarded
/// session is under way.
pub proof fn law_forward_order(state: RelayValue, event: Event)
    requires
        reachable(state),
    ensures
        after(state, event).1.action is PostSession ==> state.pending is Frame,
        after(state, event).1.action is PostNames ==> state.pending is SessionPost
            || state.pending is Lookup,
        after(state, event).1.action is GetSummoner ==> state.pending is SessionPost
            || state.pending is Lookup,
{
}

/// The relay: which request is under way, and what has been gathered for the
/// event that it belongs to.
#[derive(Debug, PartialEq, Eq)]
pub struct Relay {
    port: u32,
    pending: Pending,
    roster: Vec<i64>,
    cursor: usize,
    names: NameMap,
}

impl View for Relay {
    type V = RelayValue;

    closed spec fn view(&self) -> RelayValue {
        RelayValue {
            port: self.port,
            pending: self.pending,
            roster: self.roster@,
            cursor: self.cursor as int,
            names: self.names@,
        }
    }
}

impl Relay {
    #[verifier::type_invariant]
    spec fn wf(self) -> bool {
        reachable(self@)
    }

    /// A relay for the local client at `port`, waiting for the first frame.
    pub fn new(port: u32) -> (r: Relay)
        ensures
            r@ == idle(port),
            reachable(r@),
    {
        Relay { port, pending: Pending::Frame, roster: Vec::new(), cursor: 0, names: NameMap::seeded() }
    }

    /// The local client's port.
    pub fn port(&self) -> (r: u32)
        ensures
            r == self@.port,
    {
        self.port
    }

    /// What the relay waits for.
    pub fn pending(&self) -> (r: Pending)
        ensures
            r == self@.pending,
    {
        self.pending
    }

    /// The summoner identifiers of the session under way.
    pub fn roster(&self) -> (r: &Vec<i64>)
        ensures
            r@ == self@.roster,
    {
        &self.roster
    }

    /// The names recorded so far. The identifier zero has the name `Bot`,
    /// and there is at most one entry more than the roster has distinct
    /// identifiers that are not zero.
    pub fn names(&self) -> (r: &NameMap)
        ensures
            r@ == self@.names,
            reachable(self@),
            name_of(r@, 0) == Some("Bot"@),
            r@.len() <= 1 + human_ids(self@.roster).len(),
    {
        proof {
            use_type_invariant(self);
            law_names_hold_bot(self@);
            law_names_bounded(self@);
        }
        &self.names
    }

    /// Goes on with the lookups at the place `from`.
    fn resume(port: u32, roster: Vec<i64>, names: NameMap, from: usize) -> (r: (Relay, Step))
        requires
            from <= roster@.len(),
            is_name_map(names@),
            forall|i: int|
                0 <= i < names@.len() ==> (#[trigger] names@[i]).0 == 0 || exists|k: int|
                    0 <= k < from && #[trigger] roster@[k] == names@[i].0,
        ensures
            (r.0@, r.1@) == resolve_from(port, roster@, names@, from as int),
    {
        let mut at: usize = from;
        while at < roster.len() && roster[at] == 0
            invariant
                from <= at <= roster@.len(),
                next_human(roster@, from as int) == next_human(roster@, at as int),
            decreases roster@.len() - at,
        {
            at = at + 1;
        }
        proof {
            lemma_resolve_reachable(port, roster@, names@, from as int);
        }
        if at < roster.len() {
            let url = summoner_url(port, roster[at]);
            (
                Relay { port, pending: Pending::Lookup, roster, cursor: at, names },
                Step { notice: Notice::Quiet, action: Action::GetSummoner { url } },
            )
        } else {
            let body = names.body();
            (
                Relay { port, pending: Pending::NamesPost, roster, cursor: at, names },
                Step {
                    notice: Notice::Quiet,
                    action: Action::PostNames { url: names_collector_url(), body },
                },
            )
        }
    }

    /// The relay between two events, with the report of a failure.
    fn give_up(port: u32, error: RelayError) -> (r: (Relay, Step))
        ensures
            (r.0@, r.1@) == (idle(port), failed(error)),
    {
        (Relay::new(port), Step { notice: Notice::Failed(error), action: Action::ReadFrame })
    }

    /// Takes up a decoded frame: a session is posted, anything else leaves
    /// the relay waiting for the next frame.
    pub fn frame_decoded(port: u32, frame: DecodedFrame) -> (r: (Relay, Step))
        ensures
            (r.0@, r.1@) == on_frame(port, frame@),
    {
        match frame {
            DecodedFrame::Skipped => (
                Relay::new(port),
                Step { notice: Notice::Quiet, action: Action::ReadFrame },
            ),
            DecodedFrame::Dropped(e) => Relay::give_up(port, RelayError::Parse(e)),
            DecodedFrame::Session(session) => {
                let roster = session.roster();
                let body = session.body();
                (
                    Relay {
                        port,
                        pending: Pending::SessionPost,
                        roster,
                        cursor: 0,
                        names: NameMap::seeded(),
                    },
                    Step {
                        notice: Notice::Quiet,
                        action: Action::PostSession { url: session_collector_url(), body },
                    },
                )
            },
        }
    }

    /// Takes up the outcome of the lookup under way: a name is recorded and
    /// the lookups go on, a failure ends the event. Where no lookup is under
    /// way the outcome is passed over.
    pub fn lookup_answered(self, answer: Result<String, LookupError>) -> (r: (Relay, Step))
        ensures
            self@.pending is Lookup ==> (r.0@, r.1@) == on_answer(
                self@,
                match answer {
                    Ok(name) => Ok(name@),
                    Err(e) => Err(e),
                },
            ),
            !(self@.pending is Lookup) ==> (r.0@, r.1@) == (
                self@,
                StepValue { notice: Notice::Unexpected, action: ActionValue::Continue },
            ),
            reachable(self@),
    {
        proof {
            use_type_invariant(&self);
        }
        match self.pending {
            Pending::Lookup => {
                match answer {
                    Ok(name) => {
                        let id = self.roster[self.cursor];
                        let count: usize = self.roster.len();
                        assert(self.cursor < count);
                        let next: usize = self.cursor + 1;
                        proof {
                            law_insert_keeps_bot(self@.names, id, name@);
                            let names = inserted(self@.names, id, name@);
                            assert forall|i: int| 0 <= i < names.len() implies (
                            #[trigger] names[i]).0 == 0 || exists|k: int|
                                0 <= k < self.cursor + 1 && #[trigger] self.roster@[k]
                                    == names[i].0 by {
                                if names[i].0 == id {
                                    assert(self.roster@[self.cursor as int] == names[i].0);
                                } else {
                                    assert(names[i] == self@.names[i]);
                                }
                            }
                        }
                        let names = self.names.insert(id, name);
                        Relay::resume(self.port, self.roster, names, next)
                    },
                    Err(e) => Relay::give_up(self.port, RelayError::Lookup(e)),
                }
            },
            _ => (self, Step { notice: Notice::Unexpected, action: Action::Continue }),
        }
    }

    /// Takes up an event and says what is to be done next.
    pub fn handle(self, event: Event) -> (r: (Relay, Step))
        ensures
            (r.0@, r.1@) == after(self@, event),
            reachable(self@),
            reachable(r.0@),
    {
        proof {
            use_type_invariant(&self);
            law_reachable_preserved(self@, event);
        }
        match self.pending {
            Pending::Frame => match event {
                Event::Frame(text) => {
                    let frame = decode_frame(text.as_str());
                    Relay::frame_decoded(self.port, frame)
                },
                _ => (self, Step { notice: Notice::Unexpected, action: Action::Continue }),
            },
            Pending::SessionPost => match event {
                Event::Delivered => Relay::resume(self.port, self.roster, self.names, 0),
                Event::Undelivered => Relay::give_up(
                    self.port,
                    RelayError::Forward(ForwardError::Session),
                ),
                _ => (self, Step { notice: Notice::Unexpected, action: Action::Continue }),
            },
            Pending::Lookup => match event {
                Event::Answer(body) => {
                    let answer = read_answer(body.as_str());
                    self.lookup_answered(answer)
                },
                Event::Unanswered => self.lookup_answered(Err(LookupError::Unanswered)),
                _ => (self, Step { notice: Notice::Unexpected, action: Action::Continue }),
            },
            Pending::NamesPost => match event {
                Event::Delivered => (
                    Relay::new(self.port),
                    Step { notice: Notice::Completed, action: Action::ReadFrame },
                ),
                Event::Undelivered => Relay::give_up(
                    self.port,
                    RelayError::Forward(ForwardError::Names),
                ),
                _ => (self, Step { notice: Notice::Unexpected, action: Action::Continue }),
            },
        }
    }
}

} // verus!
