//! The intent router: decode, reserve, resolve, dispatch, record.
//!
//! An intent passes through the states of [`IntentState`]. A message that
//! does not decode is rejected before the replay guard is consulted. One
//! that decodes is reserved in the guard, and from then on the router runs
//! to a settled record whatever happens: an unknown action and a failed
//! adapter both leave the record `Failed`, a returned outcome leaves it
//! `Succeeded`.
//!
//! [`IntentRouter::handle`] does all of this in one call. Where the adapter
//! cannot be called from inside the router, [`IntentRouter::prepare`] stops
//! at the point of dispatch and [`IntentRouter::settle`] takes the
//! adapter's result.

use crate::adapter::{may_return, Adapter, AdapterError, Outcome};
use crate::codec::{
    envelope, lemma_parse_of_envelope, parse, CodecError, Intent, IntentView, MessageCodec,
    SCHEMA_VERSION,
};
use crate::registry::{ActionRegistry, AdapterHandle};
use crate::replay::{
    can_finalize, pending, ExecutionStatus, Ledger, RecordState, ReplayError, ReplayGuard,
    ResultSummary,
};
use crate::tag::{ActionTag, MAX_ACTION_TAG_LEN};
use vstd::prelude::*;
use vstd::utf8::encode_utf8;

verus! {

/// Why the router did not return an outcome.
#[derive(Debug, Clone, Copy, PartialEq, Eq, Structural)]
pub enum RouterError {
    /// The message is no well-formed envelope.
    Codec(CodecError),
    /// The intent was seen before.
    Replay(ReplayError),
    /// No adapter is registered for the intent's action.
    UnknownAction,
    /// The adapter was called and failed.
    Adapter(AdapterError),
}

/// The states an intent passes through in the router.
#[derive(Debug, Clone, Copy, PartialEq, Eq, Structural)]
pub enum IntentState {
    Received,
    Decoded,
    ReplayChecked,
    Dispatched,
    FinalizedSucceeded,
    FinalizedFailed,
    RejectedCodec,
    RejectedReplay,
    RejectedUnknownAction,
}

impl IntentState {
    /// Whether the router is done with an intent in this state.
    pub open spec fn terminal(self) -> bool {
        !(self is Received || self is Decoded || self is ReplayChecked || self is Dispatched)
    }

    /// Executable form of [`IntentState::terminal`].
    pub fn is_terminal(self) -> (yes: bool)
        ensures
            yes == self.terminal(),
    {
        match self {
            IntentState::Received => false,
            IntentState::Decoded => false,
            IntentState::ReplayChecked => false,
            IntentState::Dispatched => false,
            _ => true,
        }
    }
}

/// Whether the router can take an intent from state `from` to state `to` in
/// one step: the edges of
///
/// ```text
/// Received -> Decoded -> ReplayChecked -> Dispatched -> Finalized*
///     |           |            |
///     v           v            v
/// RejectedCodec RejectedReplay RejectedUnknownAction
/// ```
pub open spec fn steps_to(from: IntentState, to: IntentState) -> bool {
    match from {
        IntentState::Received => to is Decoded || to is RejectedCodec,
        IntentState::Decoded => to is ReplayChecked || to is RejectedReplay,
        IntentState::ReplayChecked => to is Dispatched || to is RejectedUnknownAction,
        IntentState::Dispatched => to is FinalizedSucceeded || to is FinalizedFailed,
        _ => false,
    }
}

/// The states an intent went through to end in `end`.
pub open spec fn path_to(end: IntentState) -> Seq<IntentState> {
    match end {
        IntentState::Received => seq![IntentState::Received],
        IntentState::RejectedCodec => seq![IntentState::Received, end],
        IntentState::Decoded => seq![IntentState::Received, end],
        IntentState::RejectedReplay => seq![IntentState::Received, IntentState::Decoded, end],
        IntentState::ReplayChecked => seq![IntentState::Received, IntentState::Decoded, end],
        IntentState::RejectedUnknownAction => seq![
            IntentState::Received,
            IntentState::Decoded,
            IntentState::ReplayChecked,
            end,
        ],
        IntentState::Dispatched => seq![
            IntentState::Received,
            IntentState::Decoded,
            IntentState::ReplayChecked,
            end,
        ],
        _ => seq![
            IntentState::Received,
            IntentState::Decoded,
            IntentState::ReplayChecked,
            IntentState::Dispatched,
            end,
        ],
    }
}

/// Every state is reached from `Received` by steps of the state machine,
/// along one path only, and a terminal state is left by no step.
pub proof fn lemma_paths_follow_the_state_machine(end: IntentState)
    ensures
        path_to(end).first() == IntentState::Received,
        path_to(end).last() == end,
        forall|i: int|
            0 <= i < path_to(end).len() - 1 ==> steps_to(
                #[trigger] path_to(end)[i],
                path_to(end)[i + 1],
            ),
        forall|before: IntentState| #[trigger]
            steps_to(before, end) ==> path_to(end) == path_to(before).push(end),
        end.terminal() ==> forall|next: IntentState| !#[trigger] steps_to(end, next),
{
    assert forall|before: IntentState| #[trigger] steps_to(before, end) implies path_to(end)
        == path_to(before).push(end) by {
        assert(path_to(end) =~= path_to(before).push(end));
    }
}

/// The state in which an intent ended, going by what the router returned.
pub open spec fn final_state(res: Result<Outcome, RouterError>) -> IntentState {
    match res {
        Ok(_) => IntentState::FinalizedSucceeded,
        Err(RouterError::Codec(_)) => IntentState::RejectedCodec,
        Err(RouterError::Replay(_)) => IntentState::RejectedReplay,
        Err(RouterError::UnknownAction) => IntentState::RejectedUnknownAction,
        Err(RouterError::Adapter(_)) => IntentState::FinalizedFailed,
    }
}

/// Executable form of [`final_state`].
pub fn terminal_state(res: &Result<Outcome, RouterError>) -> (state: IntentState)
    ensures
        state == final_state(*res),
        state.terminal(),
{
    match res {
        Ok(_) => IntentState::FinalizedSucceeded,
        Err(RouterError::Codec(_)) => IntentState::RejectedCodec,
        Err(RouterError::Replay(_)) => IntentState::RejectedReplay,
        Err(RouterError::UnknownAction) => IntentState::RejectedUnknownAction,
        Err(RouterError::Adapter(_)) => IntentState::FinalizedFailed,
    }
}

/// A reserved and resolved intent at the point of dispatch: whom to call,
/// and with what.
#[derive(Debug)]
pub struct Dispatch {
    /// Identifier under which the intent is reserved.
    pub id: Vec<u8>,
    /// The adapter registered for the intent's action.
    pub handle: AdapterHandle,
    /// The bytes to hand to the adapter.
    pub payload: Vec<u8>,
}

/// What a [`Dispatch`] holds, as mathematical values.
pub ghost struct DispatchView {
    pub id: Seq<u8>,
    pub handle: AdapterHandle,
    pub payload: Seq<u8>,
}

impl View for Dispatch {
    type V = DispatchView;

    open spec fn view(&self) -> DispatchView {
        DispatchView { id: self.id@, handle: self.handle, payload: self.payload@ }
    }
}

/// The mathematical content of what `prepare` returned.
pub open spec fn preparation_view(res: Result<Dispatch, RouterError>) -> Result<
    DispatchView,
    RouterError,
> {
    match res {
        Ok(d) => Ok(d@),
        Err(e) => Err(e),
    }
}

/// The state of a record that was settled because no adapter was found.
pub open spec fn unknown_action_state() -> RecordState {
    RecordState { status: ExecutionStatus::Failed, summary: ResultSummary::UnknownAction }
}

/// The state in which an adapter's result leaves the record.
pub open spec fn settled_state(result: Result<Outcome, AdapterError>) -> RecordState {
    match result {
        Ok(outcome) => RecordState {
            status: ExecutionStatus::Succeeded,
            summary: ResultSummary::Completed { outcome_len: outcome.data@.len() as usize },
        },
        Err(e) => RecordState {
            status: ExecutionStatus::Failed,
            summary: ResultSummary::AdapterFailed { code: e.code },
        },
    }
}

/// What the router returns for an adapter's result.
pub open spec fn settle_answer(result: Result<Outcome, AdapterError>) -> Result<
    Outcome,
    RouterError,
> {
    match result {
        Ok(outcome) => Ok(outcome),
        Err(e) => Err(RouterError::Adapter(e)),
    }
}

/// What preparing a decoded intent answers: `Duplicate` where the
/// identifier has a record, else `UnknownAction` where no adapter is
/// registered for the action, else the dispatch to that adapter.
pub open spec fn prepare_intent_answer(
    tags: Seq<Seq<u8>>,
    ledger: Ledger,
    intent: IntentView,
) -> Result<DispatchView, RouterError> {
    if ledger.contains_key(intent.id) {
        Err(RouterError::Replay(ReplayError::Duplicate))
    } else if !tags.contains(intent.action) {
        Err(RouterError::UnknownAction)
    } else {
        Ok(
            DispatchView {
                id: intent.id,
                handle: AdapterHandle { index: tags.index_of(intent.action) as usize },
                payload: intent.payload,
            },
        )
    }
}

/// The ledger after preparing a decoded intent: unchanged for a
/// duplicate, with a failed record for an unknown action, and with a
/// pending record for a dispatch.
pub open spec fn ledger_after_prepare_intent(
    tags: Seq<Seq<u8>>,
    ledger: Ledger,
    intent: IntentView,
) -> Ledger {
    if ledger.contains_key(intent.id) {
        ledger
    } else if !tags.contains(intent.action) {
        ledger.insert(intent.id, unknown_action_state())
    } else {
        ledger.insert(intent.id, pending())
    }
}

/// What preparing a raw message answers: the codec's error where it
/// does not decode, and else what [`prepare_intent_answer`] says of the
/// decoded intent.
pub open spec fn prepare_answer(
    max_payload_len: nat,
    tags: Seq<Seq<u8>>,
    ledger: Ledger,
    raw: Seq<u8>,
) -> Result<DispatchView, RouterError> {
    match parse(raw, max_payload_len) {
        Err(e) => Err(RouterError::Codec(e)),
        Ok(intent) => prepare_intent_answer(tags, ledger, intent),
    }
}

/// The ledger after preparing a raw message: unchanged where it does not
/// decode.
pub open spec fn ledger_after_prepare(
    max_payload_len: nat,
    tags: Seq<Seq<u8>>,
    ledger: Ledger,
    raw: Seq<u8>,
) -> Ledger {
    match parse(raw, max_payload_len) {
        Err(_) => ledger,
        Ok(intent) => ledger_after_prepare_intent(tags, ledger, intent),
    }
}

/// What handling a message can change: the records of the replay guard and
/// the states of the registered adapters.
pub ghost struct HubState<A> {
    pub ledger: Ledger,
    pub adapters: Seq<A>,
}

/// Whether an intent whose preparation answered `prepared` and left the hub
/// in state `reserved` may end with `res` and the hub in state `after`.
///
/// A rejection is returned as it is and nothing changes further: no adapter
/// is called. After a dispatch the adapter decides: the adapter that the
/// dispatch names executed the dispatch's payload, every other adapter is
/// as it was, the router returns what the adapter returned, and the record
/// is settled accordingly.
pub open spec fn ended<A: Adapter>(
    prepared: Result<DispatchView, RouterError>,
    reserved: HubState<A>,
    res: Result<Outcome, RouterError>,
    after: HubState<A>,
) -> bool {
    match prepared {
        Err(e) => res == Err::<Outcome, RouterError>(e) && after == reserved,
        Ok(dispatch) => exists|result: Result<Outcome, AdapterError>|
            {
                let called = dispatch.handle.index as int;
                &&& may_return(
                    reserved.adapters[called],
                    dispatch.payload,
                    result,
                    after.adapters[called],
                )
                &&& after.adapters == reserved.adapters.update(called, after.adapters[called])
                &&& res == #[trigger] settle_answer(result)
                &&& after.ledger == reserved.ledger.insert(dispatch.id, settled_state(result))
            },
    }
}

/// Whether handling the decoded `intent` may end with `res` and take the
/// hub from `before` to `after`.
pub open spec fn handles_intent<A: Adapter>(
    tags: Seq<Seq<u8>>,
    before: HubState<A>,
    intent: IntentView,
    res: Result<Outcome, RouterError>,
    after: HubState<A>,
) -> bool {
    ended(
        prepare_intent_answer(tags, before.ledger, intent),
        HubState {
            ledger: ledger_after_prepare_intent(tags, before.ledger, intent),
            adapters: before.adapters,
        },
        res,
        after,
    )
}

/// Whether handling the message `raw` may end with `res` and take the hub
/// from `before` to `after`.
///
/// 1. A message that does not decode is rejected with the codec's error and
///    changes nothing.
/// 2. An intent whose identifier has a record is rejected as `Duplicate`
///    and changes nothing.
/// 3. An intent whose action has no adapter is rejected as `UnknownAction`
///    and leaves a failed record.
/// 4. Any other intent is dispatched: the adapter of its action executes
///    its payload. An outcome is returned with the record left
///    `Succeeded`; an error is returned with the record left `Failed`.
///
/// No adapter changes in 1 to 3, and no other adapter in 4.
pub open spec fn handles<A: Adapter>(
    max_payload_len: nat,
    tags: Seq<Seq<u8>>,
    before: HubState<A>,
    raw: Seq<u8>,
    res: Result<Outcome, RouterError>,
    after: HubState<A>,
) -> bool {
    match parse(raw, max_payload_len) {
        Err(e) => res == Err::<Outcome, RouterError>(RouterError::Codec(e)) && after == before,
        Ok(intent) => handles_intent(tags, before, intent, res, after),
    }
}

/// Ties codec, replay guard and registry together.
///
/// The registry is taken by value and never lent out mutably: the actions
/// a router knows are fixed when it is made.
#[derive(Debug)]
pub struct IntentRouter<A> {
    codec: MessageCodec,
    registry: ActionRegistry<A>,
    guard: ReplayGuard,
}

impl<A> IntentRouter<A> {
    /// The router's codec.
    pub closed spec fn codec_spec(&self) -> MessageCodec {
        self.codec
    }

    /// The router's registry.
    pub closed spec fn registry_spec(&self) -> ActionRegistry<A> {
        self.registry
    }

    /// The router's replay guard.
    pub closed spec fn guard_spec(&self) -> ReplayGuard {
        self.guard
    }

    /// Longest payload the router's codec accepts.
    pub open spec fn limit(&self) -> nat {
        self.codec_spec().max_payload_len as nat
    }

    /// The tags the router can dispatch.
    pub open spec fn tags(&self) -> Seq<Seq<u8>> {
        self.registry_spec().tags()
    }

    /// The records of the router's replay guard.
    pub open spec fn ledger(&self) -> Ledger {
        self.guard_spec()@
    }

    /// What handling a message can change.
    pub open spec fn state(&self) -> HubState<A> {
        HubState { ledger: self.ledger(), adapters: self.registry_spec().adapters() }
    }

    /// Whether two routers have the same codec and the same registry, with
    /// every adapter in the same state.
    pub open spec fn same_setup(&self, other: &Self) -> bool {
        self.codec_spec() == other.codec_spec() && self.registry_spec() == other.registry_spec()
    }

    /// Whether two routers have the same codec and the same registered
    /// tags. The states of their adapters may differ.
    pub open spec fn same_actions(&self, other: &Self) -> bool {
        self.codec_spec() == other.codec_spec() && self.tags() == other.tags()
    }

    /// A router over `registry`, which is fixed from here on, with the
    /// records of `guard`.
    pub fn new(codec: MessageCodec, registry: ActionRegistry<A>, guard: ReplayGuard) -> (router:
        Self)
        ensures
            router.codec_spec() == codec,
            router.registry_spec() == registry,
            router.guard_spec() == guard,
    {
        IntentRouter { codec, registry, guard }
    }

    /// The codec in use.
    pub fn codec(&self) -> (codec: &MessageCodec)
        ensures
            *codec == self.codec_spec(),
    {
        &self.codec
    }

    /// The registry, for reading.
    pub fn registry(&self) -> (registry: &ActionRegistry<A>)
        ensures
            *registry == self.registry_spec(),
    {
        &self.registry
    }

    /// The replay guard, for reading.
    pub fn guard(&self) -> (guard: &ReplayGuard)
        ensures
            *guard == self.guard_spec(),
    {
        &self.guard
    }

    /// Reserves a decoded intent and resolves its action.
    ///
    /// Answers the dispatch for the adapter to call, leaving the record
    /// pending until [`IntentRouter::settle`] is told the result, or the
    /// rejection. A duplicate changes nothing; an unknown action leaves a
    /// failed record. The registry is not touched.
    pub fn prepare_intent(&mut self, intent: Intent) -> (res: Result<Dispatch, RouterError>)
        ensures
            final(self).same_setup(old(self)),
            preparation_view(res) == prepare_intent_answer(
                old(self).tags(),
                old(self).ledger(),
                intent@,
            ),
            final(self).ledger() == ledger_after_prepare_intent(
                old(self).tags(),
                old(self).ledger(),
                intent@,
            ),
            res matches Ok(d) ==> d.handle.index < old(self).tags().len() && can_finalize(
                final(self).ledger(),
                d.id@,
            ),
    {
        match self.guard.check_and_reserve(intent.id()) {
            Err(e) => {
                return Err(RouterError::Replay(e));
            },
            Ok(()) => {},
        }
        match self.registry.resolve(intent.action()) {
            None => {
                self.guard.finalize(
                    intent.id(),
                    ExecutionStatus::Failed,
                    ResultSummary::UnknownAction,
                );
                assert(self.guard@ =~= old(self).ledger().insert(
                    intent@.id,
                    unknown_action_state(),
                ));
                Err(RouterError::UnknownAction)
            },
            Some(handle) => {
                let (id, payload) = intent.into_id_and_payload();
                Ok(Dispatch { id, handle, payload })
            },
        }
    }

    /// Decodes `raw`, reserves the intent and resolves its action.
    ///
    /// A message that does not decode is rejected with the codec's error
    /// and leaves no record. The registry is not touched.
    pub fn prepare(&mut self, raw: &[u8]) -> (res: Result<Dispatch, RouterError>)
        ensures
            final(self).same_setup(old(self)),
            preparation_view(res) == prepare_answer(
                old(self).limit(),
                old(self).tags(),
                old(self).ledger(),
                raw@,
            ),
            final(self).ledger() == ledger_after_prepare(
                old(self).limit(),
                old(self).tags(),
                old(self).ledger(),
                raw@,
            ),
            res matches Ok(d) ==> d.handle.index < old(self).tags().len() && can_finalize(
                final(self).ledger(),
                d.id@,
            ),
    {
        match self.codec.decode(raw) {
            Err(e) => Err(RouterError::Codec(e)),
            Ok(intent) => self.prepare_intent(intent),
        }
    }

    /// Records what the adapter returned for the intent reserved under
    /// `id`, and passes it on.
    ///
    /// The record must be pending, as it is after a preparation that
    /// answered a dispatch.
    pub fn settle(&mut self, id: &[u8], result: Result<Outcome, AdapterError>) -> (res: Result<
        Outcome,
        RouterError,
    >)
        requires
            can_finalize(old(self).ledger(), id@),
        ensures
            final(self).same_setup(old(self)),
            res == settle_answer(result),
            final(self).ledger() == old(self).ledger().insert(id@, settled_state(result)),
    {
        match result {
            Ok(outcome) => {
                self.guard.finalize(
                    id,
                    ExecutionStatus::Succeeded,
                    ResultSummary::Completed { outcome_len: outcome.data.len() },
                );
                Ok(outcome)
            },
            Err(e) => {
                self.guard.finalize(
                    id,
                    ExecutionStatus::Failed,
                    ResultSummary::AdapterFailed { code: e.code },
                );
                Err(RouterError::Adapter(e))
            },
        }
    }
}

impl<A: Adapter> IntentRouter<A> {
    /// Calls the adapter of a prepared intent, once, and settles the
    /// record with what it returned.
    fn dispatch(&mut self, dispatch: Dispatch) -> (res: Result<Outcome, RouterError>)
        requires
            dispatch.handle.index < old(self).tags().len(),
            can_finalize(old(self).ledger(), dispatch.id@),
        ensures
            final(self).same_actions(old(self)),
            ended(Ok(dispatch@), old(self).state(), res, final(self).state()),
    {
        let result = self.registry.execute(dispatch.handle, dispatch.payload.as_slice());
        let ghost returned = result;
        let res = self.settle(dispatch.id.as_slice(), result);
        assert(res == settle_answer(returned));
        res
    }

    /// Handles a decoded intent: reserve, resolve, dispatch, settle.
    ///
    /// Ends as [`handles_intent`] says.
    pub fn handle_intent(&mut self, intent: Intent) -> (res: Result<Outcome, RouterError>)
        ensures
            final(self).same_actions(old(self)),
            handles_intent(old(self).tags(), old(self).state(), intent@, res, final(self).state()),
    {
        match self.prepare_intent(intent) {
            Err(e) => Err(e),
            Ok(dispatch) => self.dispatch(dispatch),
        }
    }

    /// Handles one inbound message from raw bytes to a settled record.
    ///
    /// * A message that does not decode is rejected with the codec's error;
    ///   the replay guard is not touched.
    /// * An intent that was seen before is rejected as `Duplicate`; nothing
    ///   changes and no adapter is called.
    /// * An intent whose action has no adapter is rejected as
    ///   `UnknownAction`; its record is left `Failed` and no adapter is
    ///   called.
    /// * Else the adapter is called once with the payload. Its outcome is
    ///   returned and the record left `Succeeded`, or its error is returned
    ///   and the record left `Failed`. Nothing is tried again.
    pub fn handle(&mut self, raw: &[u8]) -> (res: Result<Outcome, RouterError>)
        ensures
            final(self).same_actions(old(self)),
            handles(
                old(self).limit(),
                old(self).tags(),
                old(self).state(),
                raw@,
                res,
                final(self).state(),
            ),
    {
        match self.prepare(raw) {
            Err(e) => Err(e),
            Ok(dispatch) => self.dispatch(dispatch),
        }
    }
}

/// What framing an action name and a payload gives: the envelope of the
/// current schema version, or the codec error of the field that does not
/// fit.
pub open spec fn framed(action: Seq<u8>, payload: Seq<u8>, max_payload_len: nat) -> Result<
    Seq<u8>,
    CodecError,
> {
    if action.len() > MAX_ACTION_TAG_LEN {
        Err(CodecError::InvalidAction)
    } else if payload.len() > max_payload_len {
        Err(CodecError::Truncated)
    } else {
        Ok(envelope(SCHEMA_VERSION, action, payload))
    }
}

/// Sets up a hub that has seen no intent yet: a router over `registry`
/// whose codec accepts payloads of up to `max_payload_len` bytes.
pub fn initialize<A: Adapter>(max_payload_len: u32, registry: ActionRegistry<A>) -> (router:
    IntentRouter<A>)
    ensures
        router.limit() == max_payload_len,
        router.registry_spec() == registry,
        router.ledger() == Map::<Seq<u8>, RecordState>::empty(),
{
    IntentRouter::new(MessageCodec::new(max_payload_len), registry, ReplayGuard::new())
}

/// Receives an action name with its payload and handles it as the intent
/// that carries them under the current schema version.
///
/// An action name of more than [`MAX_ACTION_TAG_LEN`] bytes is rejected
/// as `InvalidAction`, and else a payload longer than the codec allows as
/// `Truncated`; neither changes anything. Everything else ends as
/// [`IntentRouter::handle`] ends for the envelope of the two.
pub fn receive_message<A: Adapter>(
    router: &mut IntentRouter<A>,
    action: String,
    data: Vec<u8>,
) -> (res: Result<Outcome, RouterError>)
    ensures
        final(router).same_actions(old(router)),
        match framed(encode_utf8(action@), data@, old(router).limit()) {
            Err(e) => res == Err::<Outcome, RouterError>(RouterError::Codec(e))
                && final(router).state() == old(router).state(),
            Ok(raw) => handles(
                old(router).limit(),
                old(router).tags(),
                old(router).state(),
                raw,
                res,
                final(router).state(),
            ),
        },
{
    let tag = match ActionTag::from_name(action.as_str()) {
        Some(tag) => tag,
        None => {
            return Err(RouterError::Codec(CodecError::InvalidAction));
        },
    };
    if data.len() > router.codec().max_payload_len as usize {
        return Err(RouterError::Codec(CodecError::Truncated));
    }
    let ghost payload = data@;
    let ghost name = tag@;
    let intent = match Intent::new(SCHEMA_VERSION, tag, data) {
        Ok(intent) => intent,
        Err(e) => {
            return Err(RouterError::Codec(e));
        },
    };
    proof {
        lemma_parse_of_envelope(SCHEMA_VERSION, name, payload, Seq::empty(), old(router).limit());
        assert(envelope(SCHEMA_VERSION, name, payload) + Seq::<u8>::empty() =~= envelope(
            SCHEMA_VERSION,
            name,
            payload,
        ));
    }
    router.handle_intent(intent)
}

/// A message whose action has no adapter, and which was not seen before,
/// ends as `UnknownAction` with a failed record, and every adapter is as
/// it was: none was called.
pub proof fn lemma_unknown_action_is_rejected<A: Adapter>(
    max_payload_len: nat,
    tags: Seq<Seq<u8>>,
    before: HubState<A>,
    raw: Seq<u8>,
    res: Result<Outcome, RouterError>,
    after: HubState<A>,
)
    requires
        parse(raw, max_payload_len) matches Ok(intent) && !tags.contains(intent.action)
            && !before.ledger.contains_key(intent.id),
        handles(max_payload_len, tags, before, raw, res, after),
    ensures
        res == Err::<Outcome, RouterError>(RouterError::UnknownAction),
        final_state(res) == IntentState::RejectedUnknownAction,
        after.ledger == before.ledger.insert(
            parse(raw, max_payload_len)->Ok_0.id,
            unknown_action_state(),
        ),
        after.adapters == before.adapters,
{
}

/// A message that does not decode ends as a codec rejection and changes
/// nothing: no record is made and no adapter is called. So whatever is
/// submitted afterwards, a corrected message among it, is handled as if
/// the malformed one had never come.
pub proof fn lemma_malformed_changes_nothing<A: Adapter>(
    max_payload_len: nat,
    tags: Seq<Seq<u8>>,
    before: HubState<A>,
    raw: Seq<u8>,
    res: Result<Outcome, RouterError>,
    after: HubState<A>,
)
    requires
        parse(raw, max_payload_len) is Err,
        handles(max_payload_len, tags, before, raw, res, after),
    ensures
        res == Err::<Outcome, RouterError>(
            RouterError::Codec(parse(raw, max_payload_len)->Err_0),
        ),
        final_state(res) == IntentState::RejectedCodec,
        after == before,
        forall|later: Seq<u8>, end: Result<Outcome, RouterError>, last: HubState<A>| #[trigger]
            handles(max_payload_len, tags, after, later, end, last) == handles(
                max_payload_len,
                tags,
                before,
                later,
                end,
                last,
            ),
{
}

/// A message that is handled a second time is rejected as a duplicate,
/// however the first time ended, and changes nothing: whatever the adapter
/// did the first time, it is not called again.
pub proof fn lemma_resubmission_is_duplicate<A: Adapter>(
    max_payload_len: nat,
    tags: Seq<Seq<u8>>,
    before: HubState<A>,
    raw: Seq<u8>,
    first: Result<Outcome, RouterError>,
    between: HubState<A>,
    second: Result<Outcome, RouterError>,
    after: HubState<A>,
)
    requires
        parse(raw, max_payload_len) is Ok,
        handles(max_payload_len, tags, before, raw, first, between),
        handles(max_payload_len, tags, between, raw, second, after),
    ensures
        second == Err::<Outcome, RouterError>(RouterError::Replay(ReplayError::Duplicate)),
        final_state(second) == IntentState::RejectedReplay,
        after == between,
{
}

/// An intent that was not seen before and whose action is registered is
/// dispatched to the adapter of that action, and to no other: the outcome
/// or the error comes from that adapter's execution of the payload, and
/// the record ends `Succeeded` exactly when an outcome is returned.
pub proof fn lemma_known_action_is_dispatched<A: Adapter>(
    max_payload_len: nat,
    tags: Seq<Seq<u8>>,
    before: HubState<A>,
    raw: Seq<u8>,
    res: Result<Outcome, RouterError>,
    after: HubState<A>,
)
    requires
        tags.len() <= usize::MAX,
        parse(raw, max_payload_len) matches Ok(intent) && tags.contains(intent.action)
            && !before.ledger.contains_key(intent.id),
        handles(max_payload_len, tags, before, raw, res, after),
    ensures
        ({
            let intent = parse(raw, max_payload_len)->Ok_0;
            let called = tags.index_of(intent.action);
            &&& 0 <= called < tags.len() && tags[called] == intent.action
            &&& exists|result: Result<Outcome, AdapterError>|
                {
                    &&& may_return(
                        before.adapters[called],
                        intent.payload,
                        result,
                        after.adapters[called],
                    )
                    &&& res == #[trigger] settle_answer(result)
                    &&& after.ledger == before.ledger.insert(intent.id, settled_state(result))
                }
            &&& after.adapters == before.adapters.update(called, after.adapters[called])
            &&& (res is Ok || (res is Err && res->Err_0 is Adapter))
            &&& after.ledger[intent.id].status == if res is Ok {
                ExecutionStatus::Succeeded
            } else {
                ExecutionStatus::Failed
            }
        }),
{
    let intent = parse(raw, max_payload_len)->Ok_0;
    let called = tags.index_of(intent.action);
    assert(0 <= called < tags.len() && tags[called] == intent.action);
    assert(called as usize as int == called);
    let reserved = before.ledger.insert(intent.id, pending());
    let result = choose|result: Result<Outcome, AdapterError>|
        {
            &&& may_return(before.adapters[called], intent.payload, result, after.adapters[called])
            &&& after.adapters == before.adapters.update(called, after.adapters[called])
            &&& res == #[trigger] settle_answer(result)
            &&& after.ledger == reserved.insert(intent.id, settled_state(result))
        };
    assert(after.ledger =~= before.ledger.insert(intent.id, settled_state(result)));
}

} // verus!
