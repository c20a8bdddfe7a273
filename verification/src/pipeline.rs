//! The pipeline: what happens to one message, step by step.
//!
//! The pipeline itself talks to nobody. [`on_message`] decides whether a
//! message is classified and hands out the request; the caller sends it to
//! the classifier and comes back with the outcome; [`on_reply`] then plans
//! the actions, which the caller carries out in order. An action that fails
//! is the caller's to log: the actions after it are carried out all the same.

use vstd::prelude::*;
use crate::filter::{check_eligibility, eligibility, eligible, Eligibility};
use crate::identifier::{fresh_identifier, is_canonical_identifier};
use crate::message::{option_string_view, ChatKind, InboundMessage, InboundMessageView};
use crate::prompt::{build_request, classification_request, ClassificationRequest, ContentPartView};
use crate::sample::{SampleRecord, SampleRecordView};
use crate::verdict::{extract_verdict, verdict_in, Verdict};

verus! {

/// One part of a candidate reply. Only text is read.
#[derive(Clone, Debug, PartialEq, Eq)]
pub enum ReplyPart {
    Text(String),
    Other,
}

/// One candidate reply of the classifier: its parts, in order.
#[derive(Clone, Debug, PartialEq, Eq)]
pub struct Candidate {
    pub parts: Vec<ReplyPart>,
}

/// What the classifier answered: no, one or several candidates.
#[derive(Clone, Debug, PartialEq, Eq)]
pub struct ModelReply {
    pub candidates: Vec<Candidate>,
}

/// How the call of the classifier ended.
#[derive(Clone, Debug, PartialEq, Eq)]
pub enum GatewayOutcome {
    Replied(ModelReply),
    /// The call failed before a reply was there.
    Failed,
}

/// What the caller is asked to do.
#[derive(Clone, Debug, PartialEq, Eq)]
pub enum Action {
    /// Append this record to the sample log.
    RecordSample(SampleRecord),
    /// Ask the chat platform to delete this message.
    DeleteMessage { chat_id: i64, message_id: i32 },
}

/// The mathematical model of a [`ReplyPart`].
pub ghost enum ReplyPartView {
    Text(Seq<char>),
    Other,
}

/// The mathematical model of a [`GatewayOutcome`].
pub ghost enum GatewayOutcomeView {
    Replied(Seq<Seq<ReplyPartView>>),
    Failed,
}

/// The mathematical model of an [`Action`].
pub ghost enum ActionView {
    RecordSample(SampleRecordView),
    DeleteMessage { chat_id: i64, message_id: i32 },
}

impl View for ReplyPart {
    type V = ReplyPartView;

    open spec fn view(&self) -> ReplyPartView {
        match self {
            ReplyPart::Text(text) => ReplyPartView::Text(text@),
            ReplyPart::Other => ReplyPartView::Other,
        }
    }
}

impl View for Candidate {
    type V = Seq<ReplyPartView>;

    open spec fn view(&self) -> Seq<ReplyPartView> {
        self.parts@.map_values(|part: ReplyPart| part@)
    }
}

impl View for ModelReply {
    type V = Seq<Seq<ReplyPartView>>;

    open spec fn view(&self) -> Seq<Seq<ReplyPartView>> {
        self.candidates@.map_values(|candidate: Candidate| candidate@)
    }
}

impl View for GatewayOutcome {
    type V = GatewayOutcomeView;

    open spec fn view(&self) -> GatewayOutcomeView {
        match self {
            GatewayOutcome::Replied(reply) => GatewayOutcomeView::Replied(reply@),
            GatewayOutcome::Failed => GatewayOutcomeView::Failed,
        }
    }
}

impl View for Action {
    type V = ActionView;

    open spec fn view(&self) -> ActionView {
        match self {
            Action::RecordSample(record) => ActionView::RecordSample(record@),
            Action::DeleteMessage { chat_id, message_id } => ActionView::DeleteMessage {
                chat_id: *chat_id,
                message_id: *message_id,
            },
        }
    }
}

/// The models of a list of actions.
pub open spec fn actions_view(actions: Seq<Action>) -> Seq<ActionView> {
    actions.map_values(|action: Action| action@)
}

/// A message whose request is with the classifier.
///
/// Only [`on_message`] makes one, and only for an eligible message;
/// [`on_reply`] uses it up. So no message is classified twice, and nothing
/// is planned for a message that the filter turned away.
#[derive(Debug, PartialEq, Eq)]
pub struct Pending {
    message: InboundMessage,
    serialized: String,
}

/// The mathematical model of a [`Pending`].
pub ghost struct PendingView {
    pub message: InboundMessageView,
    pub serialized: Seq<char>,
}

impl View for Pending {
    type V = PendingView;

    closed spec fn view(&self) -> PendingView {
        PendingView { message: self.message@, serialized: self.serialized@ }
    }
}

impl Pending {
    #[verifier::type_invariant]
    spec fn holds_eligible_message(self) -> bool {
        eligible(self.message@)
    }

    /// The message that is being classified. It passed the filter.
    pub fn message(&self) -> (message: &InboundMessage)
        ensures
            message@ == self@.message,
            eligible(message@),
    {
        proof {
            use_type_invariant(self);
        }
        &self.message
    }

    /// The message as it was shown to the classifier.
    pub fn serialized(&self) -> (serialized: &str)
        ensures
            serialized@ == self@.serialized,
    {
        self.serialized.as_str()
    }
}

/// What [`on_message`] decided.
#[derive(Debug, PartialEq, Eq)]
pub enum Intake {
    /// The filter turned the message away, by the rule given. Nothing more
    /// happens to it.
    Skip(Eligibility),
    /// The message is classified: send `request` to the classifier, and hand
    /// `pending` to [`on_reply`] with the outcome.
    Classify { request: ClassificationRequest, pending: Pending },
}

/// The mathematical model of an [`Intake`].
pub ghost enum IntakeView {
    Skip(Eligibility),
    Classify { request: Seq<ContentPartView>, pending: PendingView },
}

impl View for Intake {
    type V = IntakeView;

    open spec fn view(&self) -> IntakeView {
        match self {
            Intake::Skip(reason) => IntakeView::Skip(*reason),
            Intake::Classify { request, pending } => IntakeView::Classify {
                request: request@,
                pending: pending@,
            },
        }
    }
}

/// The text that stands for the message: its serialised form, or the empty
/// text where serialising failed.
pub open spec fn serialized_body(serialized: Option<Seq<char>>) -> Seq<char> {
    match serialized {
        Some(text) => text,
        None => Seq::empty(),
    }
}

/// What happens to a message on arrival: an eligible one goes to the
/// classifier, any other is skipped with the rule that turned it away.
pub open spec fn intake(message: InboundMessageView, serialized: Option<Seq<char>>) -> IntakeView {
    if eligible(message) {
        IntakeView::Classify {
            request: classification_request(serialized_body(serialized)),
            pending: PendingView { message, serialized: serialized_body(serialized) },
        }
    } else {
        IntakeView::Skip(eligibility(message))
    }
}

/// Takes a message in. `serialized` is the message in the form in which the
/// classifier is to see it, `None` where serialising it failed.
pub fn on_message(message: InboundMessage, serialized: Option<String>) -> (decision: Intake)
    ensures
        decision@ == intake(message@, option_string_view(serialized)),
{
    let reason = check_eligibility(&message);
    if reason == Eligibility::Eligible {
        let body = match serialized {
            Some(text) => text,
            None => String::new(),
        };
        let request = build_request(body.as_str());
        Intake::Classify { request, pending: Pending { message, serialized: body } }
    } else {
        Intake::Skip(reason)
    }
}

/// The verdicts found in the parts of one candidate, in order. A part that is
/// no text, or whose text carries no verdict, adds none.
pub open spec fn part_verdicts(parts: Seq<ReplyPartView>) -> Seq<Verdict>
    decreases parts.len(),
{
    if parts.len() == 0 {
        Seq::empty()
    } else {
        let before = part_verdicts(parts.drop_last());
        match parts.last() {
            ReplyPartView::Text(text) => match verdict_in(text) {
                Some(verdict) => before.push(verdict),
                None => before,
            },
            ReplyPartView::Other => before,
        }
    }
}

/// The verdicts found in a reply: those of its candidates, in order.
pub open spec fn reply_verdicts(candidates: Seq<Seq<ReplyPartView>>) -> Seq<Verdict>
    decreases candidates.len(),
{
    if candidates.len() == 0 {
        Seq::empty()
    } else {
        reply_verdicts(candidates.drop_last()) + part_verdicts(candidates.last())
    }
}

/// The verdicts that a call of the classifier brought. A failed call brought
/// none.
pub open spec fn outcome_verdicts(outcome: GatewayOutcomeView) -> Seq<Verdict> {
    match outcome {
        GatewayOutcomeView::Replied(candidates) => reply_verdicts(candidates),
        GatewayOutcomeView::Failed => Seq::empty(),
    }
}

/// What one verdict asks for: the sample is recorded whatever the verdict,
/// and after that the message is deleted if it is spam.
pub open spec fn verdict_actions(
    message: InboundMessageView,
    serialized: Seq<char>,
    verdict: Verdict,
    id: Seq<char>,
) -> Seq<ActionView> {
    let record = ActionView::RecordSample(
        SampleRecordView { message: serialized, is_spam: verdict.is_spam, id },
    );
    if verdict.is_spam {
        seq![
            record,
            ActionView::DeleteMessage { chat_id: message.chat_id, message_id: message.message_id },
        ]
    } else {
        seq![record]
    }
}

/// What a list of verdicts asks for, verdict by verdict; `ids` gives each
/// verdict the identifier of its record.
pub open spec fn plan(
    message: InboundMessageView,
    serialized: Seq<char>,
    verdicts: Seq<Verdict>,
    ids: Seq<Seq<char>>,
) -> Seq<ActionView>
    recommends
        ids.len() == verdicts.len(),
    decreases verdicts.len(),
{
    if verdicts.len() == 0 {
        Seq::empty()
    } else {
        plan(message, serialized, verdicts.drop_last(), ids.drop_last()) + verdict_actions(
            message,
            serialized,
            verdicts.last(),
            ids.last(),
        )
    }
}

/// Reads the verdicts out of a reply.
pub fn verdicts_in_reply(reply: &ModelReply) -> (verdicts: Vec<Verdict>)
    ensures
        verdicts@ == reply_verdicts(reply@),
{
    let mut verdicts: Vec<Verdict> = Vec::new();
    let mut i: usize = 0;
    while i < reply.candidates.len()
        invariant
            i <= reply.candidates@.len(),
            verdicts@ == reply_verdicts(reply@.take(i as int)),
        decreases reply.candidates@.len() - i,
    {
        let candidate = &reply.candidates[i];
        let ghost done = verdicts@;
        let mut j: usize = 0;
        while j < candidate.parts.len()
            invariant
                j <= candidate.parts@.len(),
                verdicts@ == done + part_verdicts(candidate@.take(j as int)),
            decreases candidate.parts@.len() - j,
        {
            proof {
                let seen = candidate@.take(j + 1);
                assert(seen.drop_last() == candidate@.take(j as int));
                assert(seen.last() == candidate.parts@[j as int]@);
            }
            match &candidate.parts[j] {
                ReplyPart::Text(text) => {
                    match extract_verdict(text.as_str()) {
                        Some(verdict) => {
                            verdicts.push(verdict);
                        },
                        None => {},
                    }
                },
                ReplyPart::Other => {},
            }
            j = j + 1;
        }
        proof {
            let seen = reply@.take(i + 1);
            assert(seen.drop_last() == reply@.take(i as int));
            assert(seen.last() == candidate@);
            assert(candidate@.take(candidate.parts@.len() as int) == candidate@);
        }
        i = i + 1;
    }
    assert(reply@.take(reply.candidates@.len() as int) == reply@);
    verdicts
}

/// Plans what one verdict asks for, given the identifier of its record.
pub fn actions_for_verdict(
    message: &InboundMessage,
    serialized: &str,
    verdict: Verdict,
    id: String,
) -> (actions: Vec<Action>)
    ensures
        actions_view(actions@) == verdict_actions(message@, serialized@, verdict, id@),
{
    let record = SampleRecord {
        message: serialized.to_owned(),
        is_spam: verdict.is_spam,
        id,
    };
    let mut actions: Vec<Action> = Vec::new();
    actions.push(Action::RecordSample(record));
    if verdict.is_spam {
        actions.push(
            Action::DeleteMessage { chat_id: message.chat_id, message_id: message.message_id },
        );
    }
    assert(actions_view(actions@) =~= verdict_actions(message@, serialized@, verdict, id@));
    actions
}

/// Plans what is to be done once the call of the classifier has ended.
///
/// A failed call asks for nothing. A reply asks for what its verdicts ask
/// for, in the order of the reply; each record gets a fresh identifier,
/// of which only the form is known.
pub fn on_reply(pending: Pending, outcome: GatewayOutcome) -> (actions: Vec<Action>)
    ensures
        outcome is Failed ==> actions@.len() == 0,
        exists|ids: Seq<Seq<char>>|
            {
                &&& ids.len() == outcome_verdicts(outcome@).len()
                &&& forall|i: int|
                    0 <= i < ids.len() ==> is_canonical_identifier(#[trigger] ids[i])
                &&& actions_view(actions@) == plan(
                    pending@.message,
                    pending@.serialized,
                    outcome_verdicts(outcome@),
                    ids,
                )
            },
{
    let mut actions: Vec<Action> = Vec::new();
    let ghost mut ids: Seq<Seq<char>> = Seq::empty();
    match outcome {
        GatewayOutcome::Failed => {},
        GatewayOutcome::Replied(reply) => {
            let verdicts = verdicts_in_reply(&reply);
            let mut i: usize = 0;
            while i < verdicts.len()
                invariant
                    i <= verdicts@.len(),
                    ids.len() == i,
                    forall|k: int| 0 <= k < ids.len() ==> is_canonical_identifier(#[trigger] ids[k]),
                    actions_view(actions@) == plan(
                        pending@.message,
                        pending@.serialized,
                        verdicts@.take(i as int),
                        ids,
                    ),
                decreases verdicts@.len() - i,
            {
                let id = fresh_identifier();
                let ghost next_ids = ids.push(id@);
                let mut step = actions_for_verdict(
                    &pending.message,
                    pending.serialized.as_str(),
                    verdicts[i],
                    id,
                );
                proof {
                    let seen = verdicts@.take(i + 1);
                    assert(seen.drop_last() == verdicts@.take(i as int));
                    assert(seen.last() == verdicts@[i as int]);
                    assert(next_ids.drop_last() == ids);
                    assert(actions_view(actions@ + step@) =~= actions_view(actions@) + actions_view(
                        step@,
                    ));
                    ids = next_ids;
                }
                actions.append(&mut step);
                i = i + 1;
            }
            assert(verdicts@.take(verdicts@.len() as int) == verdicts@);
        },
    }
    assert(actions_view(actions@) =~= plan(
        pending@.message,
        pending@.serialized,
        outcome_verdicts(outcome@),
        ids,
    ));
    actions
}

/// A message without text is skipped, whatever else holds of it: no request
/// is made for it, and with no pending message nothing can be planned.
pub proof fn lemma_message_without_text_is_skipped(
    message: InboundMessageView,
    serialized: Option<Seq<char>>,
)
    requires
        message.text is None,
    ensures
        !eligible(message),
        intake(message, serialized) == IntakeView::Skip(Eligibility::NoText),
{
}

/// An automatic forward is skipped. Where it has text and stands in a group
/// or supergroup, the forward flag is the rule that turns it away.
pub proof fn lemma_automatic_forward_is_skipped(
    message: InboundMessageView,
    serialized: Option<Seq<char>>,
)
    requires
        message.is_automatic_forward,
    ensures
        !eligible(message),
        intake(message, serialized) is Skip,
        message.text is Some && message.chat_kind.is_moderated() ==> intake(message, serialized)
            == IntakeView::Skip(Eligibility::AutomaticForward),
{
}

/// A message from a chat that is neither a group nor a supergroup is skipped.
pub proof fn lemma_unmoderated_chat_is_skipped(
    message: InboundMessageView,
    serialized: Option<Seq<char>>,
)
    requires
        message.chat_kind != ChatKind::Group,
        message.chat_kind != ChatKind::Supergroup,
    ensures
        !eligible(message),
        intake(message, serialized) is Skip,
        message.text is Some ==> intake(message, serialized) == IntakeView::Skip(
            Eligibility::UnmoderatedChat,
        ),
{
}

/// A message is classified exactly when it is eligible, and then the request
/// is the policy instruction followed by the message.
pub proof fn lemma_eligible_message_is_classified(
    message: InboundMessageView,
    serialized: Option<Seq<char>>,
)
    ensures
        intake(message, serialized) is Classify <==> eligible(message),
        eligible(message) ==> intake(message, serialized)->request == classification_request(
            serialized_body(serialized),
        ),
{
}

/// A failed call of the classifier asks for nothing: no record, no deletion.
pub proof fn lemma_failed_call_asks_nothing(
    message: InboundMessageView,
    serialized: Seq<char>,
    ids: Seq<Seq<char>>,
)
    ensures
        plan(message, serialized, outcome_verdicts(GatewayOutcomeView::Failed), ids)
            == Seq::<ActionView>::empty(),
{
}

/// A reply with one verdict asks for what that verdict asks for.
pub proof fn lemma_single_verdict_plan(
    message: InboundMessageView,
    serialized: Seq<char>,
    verdict: Verdict,
    id: Seq<char>,
)
    ensures
        plan(message, serialized, seq![verdict], seq![id]) == verdict_actions(
            message,
            serialized,
            verdict,
            id,
        ),
{
    let verdicts = seq![verdict];
    let ids = seq![id];
    assert(verdicts.drop_last() =~= Seq::<Verdict>::empty());
    assert(plan(message, serialized, verdicts.drop_last(), ids.drop_last())
        == Seq::<ActionView>::empty());
    assert(plan(message, serialized, verdicts, ids) =~= verdict_actions(
        message,
        serialized,
        verdict,
        id,
    ));
}

/// Every deletion in a plan is of the message that was classified.
pub proof fn lemma_deletions_target_the_message(
    message: InboundMessageView,
    serialized: Seq<char>,
    verdicts: Seq<Verdict>,
    ids: Seq<Seq<char>>,
)
    ensures
        forall|k: int|
            0 <= k < plan(message, serialized, verdicts, ids).len() ==> (#[trigger] plan(
                message,
                serialized,
                verdicts,
                ids,
            )[k] matches ActionView::DeleteMessage { chat_id, message_id } ==> chat_id
                == message.chat_id && message_id == message.message_id),
    decreases verdicts.len(),
{
    if verdicts.len() > 0 {
        lemma_deletions_target_the_message(
            message,
            serialized,
            verdicts.drop_last(),
            ids.drop_last(),
        );
    }
}

/// Where no verdict is spam, nothing is deleted: the plan holds one record
/// for each verdict and nothing else.
pub proof fn lemma_no_spam_no_deletion(
    message: InboundMessageView,
    serialized: Seq<char>,
    verdicts: Seq<Verdict>,
    ids: Seq<Seq<char>>,
)
    requires
        ids.len() == verdicts.len(),
        forall|i: int| 0 <= i < verdicts.len() ==> !(#[trigger] verdicts[i]).is_spam,
    ensures
        plan(message, serialized, verdicts, ids).len() == verdicts.len(),
        forall|k: int|
            0 <= k < verdicts.len() ==> #[trigger] plan(message, serialized, verdicts, ids)[k]
                == ActionView::RecordSample(
                SampleRecordView { message: serialized, is_spam: false, id: ids[k] },
            ),
    decreases verdicts.len(),
{
    if verdicts.len() > 0 {
        lemma_no_spam_no_deletion(message, serialized, verdicts.drop_last(), ids.drop_last());
        assert(!verdicts[verdicts.len() - 1].is_spam);
    }
}

/// The records of a list of actions, in order.
pub open spec fn records_in(actions: Seq<ActionView>) -> Seq<SampleRecordView>
    decreases actions.len(),
{
    if actions.len() == 0 {
        Seq::empty()
    } else {
        let before = records_in(actions.drop_last());
        match actions.last() {
            ActionView::RecordSample(record) => before.push(record),
            ActionView::DeleteMessage { .. } => before,
        }
    }
}

/// The deletions of a list of actions, counted.
pub open spec fn deletions_in(actions: Seq<ActionView>) -> nat
    decreases actions.len(),
{
    if actions.len() == 0 {
        0
    } else {
        let before = deletions_in(actions.drop_last());
        match actions.last() {
            ActionView::RecordSample(_) => before,
            ActionView::DeleteMessage { .. } => before + 1,
        }
    }
}

/// The verdicts of a list that say spam, counted.
pub open spec fn spam_count(verdicts: Seq<Verdict>) -> nat
    decreases verdicts.len(),
{
    if verdicts.len() == 0 {
        0
    } else if verdicts.last().is_spam {
        spam_count(verdicts.drop_last()) + 1
    } else {
        spam_count(verdicts.drop_last())
    }
}

proof fn lemma_records_of_joined(first: Seq<ActionView>, second: Seq<ActionView>)
    ensures
        records_in(first + second) == records_in(first) + records_in(second),
        deletions_in(first + second) == deletions_in(first) + deletions_in(second),
    decreases second.len(),
{
    if second.len() == 0 {
        assert(first + second =~= first);
        assert(records_in(first) + records_in(second) =~= records_in(first));
    } else {
        lemma_records_of_joined(first, second.drop_last());
        assert((first + second).drop_last() =~= first + second.drop_last());
        assert((first + second).last() == second.last());
        assert(records_in(first + second) =~= records_in(first) + records_in(second));
    }
}

proof fn lemma_records_of_step(
    message: InboundMessageView,
    serialized: Seq<char>,
    verdict: Verdict,
    id: Seq<char>,
)
    ensures
        records_in(verdict_actions(message, serialized, verdict, id)) == seq![
            SampleRecordView { message: serialized, is_spam: verdict.is_spam, id },
        ],
        deletions_in(verdict_actions(message, serialized, verdict, id)) == (if verdict.is_spam {
            1nat
        } else {
            0nat
        }),
{
    reveal_with_fuel(records_in, 3);
    reveal_with_fuel(deletions_in, 3);
    let step = verdict_actions(message, serialized, verdict, id);
    let record = SampleRecordView { message: serialized, is_spam: verdict.is_spam, id };
    if verdict.is_spam {
        assert(step.drop_last() =~= seq![ActionView::RecordSample(record)]);
        assert(step.drop_last().drop_last() =~= Seq::<ActionView>::empty());
    } else {
        assert(step.drop_last() =~= Seq::<ActionView>::empty());
    }
    assert(records_in(step) =~= seq![record]);
}

/// One record is kept for each verdict, whatever the verdict says: the
/// records of a plan are the verdicts, each with the message's text and its
/// identifier, in order. And the message is deleted once for each verdict
/// that says spam.
pub proof fn lemma_plan_records_every_verdict(
    message: InboundMessageView,
    serialized: Seq<char>,
    verdicts: Seq<Verdict>,
    ids: Seq<Seq<char>>,
)
    requires
        ids.len() == verdicts.len(),
    ensures
        records_in(plan(message, serialized, verdicts, ids)).len() == verdicts.len(),
        forall|k: int|
            0 <= k < verdicts.len() ==> #[trigger] records_in(
                plan(message, serialized, verdicts, ids),
            )[k] == (SampleRecordView {
                message: serialized,
                is_spam: verdicts[k].is_spam,
                id: ids[k],
            }),
        deletions_in(plan(message, serialized, verdicts, ids)) == spam_count(verdicts),
    decreases verdicts.len(),
{
    if verdicts.len() > 0 {
        let before = plan(message, serialized, verdicts.drop_last(), ids.drop_last());
        let step = verdict_actions(message, serialized, verdicts.last(), ids.last());
        lemma_plan_records_every_verdict(message, serialized, verdicts.drop_last(), ids.drop_last());
        lemma_records_of_joined(before, step);
        lemma_records_of_step(message, serialized, verdicts.last(), ids.last());
    }
}

} // verus!
