//! The mailbox poller: one run over the unseen messages of a mailbox.
//!
//! The run does no network or process work itself. It is a state machine: the caller hands
//! it what happened, and is told what to do next. A run starts by waiting for the list of
//! unseen messages, fetches them one by one, lowest identifier first, carries out the
//! verdict on each thing that the server gives for a message, and ends by logging out.

use crate::command::{command_lines, commands_of, results, results_of, Outcome, OutcomeView};
use crate::dispatch::{
    applying, changes_of, dispose, disposition, is_echo, is_request, lemma_changes_of_applying,
    lemma_echo_is_kept, lemma_request_is_consumed, plan, plan_of, record_text, Action,
    ActionView, Disposition, DispositionView, FetchedMessage, FetchedMessageView, MessageRecord,
    MessageRecordView,
};
use crate::mailbox::{
    after_all, keeping, lemma_fetch_then_keeping, lemma_removal_removes, removal, seen_by_fetch,
    Flags, MailboxOp,
};
use crate::extract::extract_plain_text;
use crate::order::{ascending, lemma_ascending, processing_order, strictly_ascending};
use crate::reply::{compose_reply, reply_for};
use vstd::prelude::*;

verus! {

/// Something that happened, of which the run is told.
#[derive(Clone, Debug)]
pub enum Event {
    /// The server listed these messages as unseen.
    Listed(Vec<u32>),
    /// The server gave these for the message that was to be fetched, in this order. Mostly
    /// it is one; it is none where the message is gone.
    Fetched(Vec<FetchedMessage>),
    /// The commands were run, with these outcomes, one for each command and in their order.
    Ran(Vec<Outcome>),
    /// The last action was carried out.
    Done,
    /// The last action could not be carried out.
    Failed,
}

/// The model of an [`Event`].
pub enum EventView {
    Listed(Seq<u32>),
    Fetched(Seq<FetchedMessageView>),
    Ran(Seq<OutcomeView>),
    Done,
    Failed,
}

impl View for Event {
    type V = EventView;

    open spec fn view(&self) -> EventView {
        match self {
            Event::Listed(ids) => EventView::Listed(ids@),
            Event::Fetched(fetched) => EventView::Fetched(fetched.deep_view()),
            Event::Ran(results) => EventView::Ran(results.deep_view()),
            Event::Done => EventView::Done,
            Event::Failed => EventView::Failed,
        }
    }
}

/// Where a run stands: what it has asked for last.
#[derive(Clone, Copy, Debug, PartialEq, Eq, Structural)]
pub enum Stage {
    /// Nothing yet: the run waits for the list of unseen messages.
    Listing,
    /// This message is being fetched.
    Fetching(u32),
    /// An action on the mailbox or for the operator is under way.
    Working,
    /// The commands of a request are running.
    Running,
    /// The reply to a request is being sent.
    Sending,
    /// The session is being closed.
    Closing,
    /// The run is over.
    Finished,
}

/// One run of the mailbox poller.
#[derive(Debug)]
pub struct PollRun {
    tag: String,
    queue: Vec<u32>,
    next: usize,
    at_hand: u32,
    items: Vec<FetchedMessage>,
    pending: Vec<Action>,
    open: Option<MessageRecord>,
    stage: Stage,
}

/// The model of a [`PollRun`].
pub struct PollRunView {
    /// The configured command tag.
    pub tag: Seq<char>,
    /// The unseen messages in the order of processing.
    pub queue: Seq<u32>,
    /// How many messages of the queue have been fetched.
    pub next: nat,
    /// The message that was fetched last.
    pub at_hand: u32,
    /// What the server gave for the message at hand and has no verdict yet, in order.
    pub items: Seq<FetchedMessageView>,
    /// The actions still to be taken on the last verdict, in order.
    pub pending: Seq<ActionView>,
    /// The request whose commands are running.
    pub open: Option<MessageRecordView>,
    pub stage: Stage,
}

impl View for PollRun {
    type V = PollRunView;

    closed spec fn view(&self) -> PollRunView {
        PollRunView {
            tag: self.tag@,
            queue: self.queue@,
            next: self.next as nat,
            at_hand: self.at_hand,
            items: self.items.deep_view(),
            pending: self.pending.deep_view(),
            open: self.open.deep_view(),
            stage: self.stage,
        }
    }
}

/// A run that has not begun, with the command tag `tag`.
pub open spec fn initial(tag: Seq<char>) -> PollRunView {
    PollRunView {
        tag,
        queue: Seq::empty(),
        next: 0,
        at_hand: 0,
        items: Seq::empty(),
        pending: Seq::empty(),
        open: None,
        stage: Stage::Listing,
    }
}

/// The stage that a run is in once it has asked for `action`.
pub open spec fn stage_after(action: ActionView) -> Stage {
    match action {
        ActionView::Run(_) => Stage::Running,
        ActionView::Send(_) => Stage::Sending,
        _ => Stage::Working,
    }
}

/// The request that stays open while the commands of `verdict` run.
pub open spec fn opened(verdict: DispositionView) -> Option<MessageRecordView> {
    match verdict {
        DispositionView::Execute(record) => Some(record),
        _ => None,
    }
}

/// The next thing to do where nothing is awaited: the next action on the last verdict; with
/// none left, the first action on the verdict on the next thing that the server gave for
/// the message at hand; with none left, the fetching of the next message; with none left,
/// the logout.
pub open spec fn advance(run: PollRunView) -> (PollRunView, ActionView)
    decreases run.items.len(),
{
    if run.pending.len() > 0 {
        let action = run.pending.first();
        (
            PollRunView { pending: run.pending.drop_first(), stage: stage_after(action), ..run },
            action,
        )
    } else if run.items.len() > 0 {
        let verdict = disposition(run.at_hand, run.items.first(), run.tag);
        advance(
            PollRunView {
                items: run.items.drop_first(),
                pending: plan_of(run.at_hand, verdict),
                open: opened(verdict),
                ..run
            },
        )
    } else if run.next < run.queue.len() {
        let id = run.queue[run.next as int];
        (
            PollRunView { next: run.next + 1, stage: Stage::Fetching(id), ..run },
            ActionView::Fetch(id),
        )
    } else {
        (PollRunView { stage: Stage::Closing, ..run }, ActionView::Logout)
    }
}

/// The end of a run.
pub open spec fn finish(run: PollRunView) -> (PollRunView, ActionView) {
    (
        PollRunView {
            items: Seq::empty(),
            pending: Seq::empty(),
            open: None,
            stage: Stage::Finished,
            ..run
        },
        ActionView::Stop,
    )
}

/// What a run does when it is told of `event`: its next state, and the action it asks for.
///
/// - The list of unseen messages is put in the order of processing, and the first message
///   is fetched.
/// - Each thing that the server gave for a fetched message gets its verdict, whose actions
///   are taken one by one.
/// - The outcomes of the commands of a request, one for each command, go into the reply,
///   which is sent.
/// - A reply that could not be sent is given up; the run goes on with the next message.
/// - Any other failure, and any event that the run did not wait for, ends the run.
pub open spec fn step_of(run: PollRunView, event: EventView) -> (PollRunView, ActionView) {
    match run.stage {
        Stage::Listing => match event {
            EventView::Listed(ids) => advance(
                PollRunView { queue: ascending(ids), next: 0, ..run },
            ),
            _ => finish(run),
        },
        Stage::Fetching(id) => match event {
            EventView::Fetched(items) => advance(
                PollRunView { at_hand: id, items, pending: Seq::empty(), open: None, ..run },
            ),
            _ => finish(run),
        },
        Stage::Working => match event {
            EventView::Done => advance(run),
            _ => finish(run),
        },
        Stage::Running => match event {
            EventView::Ran(outcomes) => match run.open {
                Some(record) => match results_of(commands_of(record_text(record)), outcomes) {
                    Some(results) => match reply_for(
                        results,
                        record.envelope,
                        record_text(record),
                    ) {
                        Some(reply) => (
                            PollRunView { open: None, stage: Stage::Sending, ..run },
                            ActionView::Send(reply),
                        ),
                        None => advance(PollRunView { open: None, ..run }),
                    },
                    None => finish(run),
                },
                None => advance(run),
            },
            _ => finish(run),
        },
        Stage::Sending => match event {
            EventView::Done => advance(run),
            EventView::Failed => advance(run),
            _ => finish(run),
        },
        Stage::Closing => finish(run),
        Stage::Finished => finish(run),
    }
}

impl PollRun {
    /// A run that has not begun, with the command tag `tag`.
    pub fn new(tag: String) -> (run: PollRun)
        ensures
            run@ == initial(tag@),
    {
        let run = PollRun {
            tag,
            queue: Vec::new(),
            next: 0,
            at_hand: 0,
            items: Vec::new(),
            pending: Vec::new(),
            open: None,
            stage: Stage::Listing,
        };
        assert(run.pending.deep_view() =~= Seq::<ActionView>::empty());
        assert(run.items.deep_view() =~= Seq::<FetchedMessageView>::empty());
        run
    }

    /// Where the run stands.
    pub fn stage(&self) -> (stage: Stage)
        ensures
            stage == self@.stage,
    {
        self.stage
    }

    /// Whether the run is over.
    pub fn is_finished(&self) -> (over: bool)
        ensures
            over == (self@.stage == Stage::Finished),
    {
        self.stage == Stage::Finished
    }

    fn advance(&mut self) -> (action: Action)
        ensures
            (final(self)@, action@) == advance(old(self)@),
    {
        let ghost start = self@;
        loop
            invariant
                start == old(self)@,
                advance(self@) == advance(start),
            decreases self.items.len(),
        {
            let ghost before = self@;
            if self.pending.len() > 0 {
                let action = self.pending.remove(0);
                self.stage = match &action {
                    Action::Run(_) => Stage::Running,
                    Action::Send(_) => Stage::Sending,
                    _ => Stage::Working,
                };
                assert(self.pending.deep_view() =~= before.pending.drop_first());
                assert(action@ == before.pending.first());
                return action;
            } else if self.items.len() > 0 {
                let item = self.items.remove(0);
                assert(item@ == before.items.first());
                let verdict = dispose(self.at_hand, item, self.tag.as_str());
                self.pending = plan(self.at_hand, &verdict);
                self.open = match verdict {
                    Disposition::Execute(record) => Some(record),
                    _ => None,
                };
                assert(self.items.deep_view() =~= before.items.drop_first());
            } else if self.next < self.queue.len() {
                let id: u32 = self.queue[self.next];
                self.next = self.next + 1;
                self.stage = Stage::Fetching(id);
                return Action::Fetch(id);
            } else {
                self.stage = Stage::Closing;
                return Action::Logout;
            }
        }
    }

    fn finish(&mut self) -> (action: Action)
        ensures
            (final(self)@, action@) == finish(old(self)@),
    {
        self.items = Vec::new();
        self.pending = Vec::new();
        self.open = None;
        self.stage = Stage::Finished;
        assert(self.pending.deep_view() =~= Seq::<ActionView>::empty());
        assert(self.items.deep_view() =~= Seq::<FetchedMessageView>::empty());
        Action::Stop
    }

    /// Tells the run of `event`, and returns what is to be done next.
    pub fn step(&mut self, event: Event) -> (action: Action)
        ensures
            (final(self)@, action@) == step_of(old(self)@, event@),
    {
        match self.stage {
            Stage::Listing => match event {
                Event::Listed(ids) => {
                    self.queue = processing_order(&ids);
                    self.next = 0;
                    self.advance()
                },
                _ => self.finish(),
            },
            Stage::Fetching(id) => match event {
                Event::Fetched(items) => {
                    self.at_hand = id;
                    self.items = items;
                    self.pending = Vec::new();
                    self.open = None;
                    assert(self.pending.deep_view() =~= Seq::<ActionView>::empty());
                    self.advance()
                },
                _ => self.finish(),
            },
            Stage::Working => match event {
                Event::Done => self.advance(),
                _ => self.finish(),
            },
            Stage::Running => match event {
                Event::Ran(outcomes) => {
                    let open = self.open.take();
                    match open {
                        Some(record) => {
                            let text = extract_plain_text(record.raw_body.as_slice());
                            let commands = command_lines(text.as_str());
                            match results(commands, outcomes) {
                                Some(paired) => match compose_reply(
                                    &paired,
                                    &record.envelope,
                                    text.as_str(),
                                ) {
                                    Some(reply) => {
                                        self.stage = Stage::Sending;
                                        Action::Send(reply)
                                    },
                                    None => self.advance(),
                                },
                                None => self.finish(),
                            }
                        },
                        None => self.advance(),
                    }
                },
                _ => self.finish(),
            },
            Stage::Sending => match event {
                Event::Done => self.advance(),
                Event::Failed => self.advance(),
                _ => self.finish(),
            },
            Stage::Closing => self.finish(),
            Stage::Finished => self.finish(),
        }
    }
}

/// The actions that a run asks for, one after each of `events`, in order.
pub open spec fn run_of(run: PollRunView, events: Seq<EventView>) -> Seq<ActionView>
    decreases events.len(),
{
    if events.len() == 0 {
        Seq::empty()
    } else {
        let (next, action) = step_of(run, events.first());
        seq![action] + run_of(next, events.drop_first())
    }
}

/// The messages that `actions` fetch, in order.
pub open spec fn fetched_ids(actions: Seq<ActionView>) -> Seq<u32>
    decreases actions.len(),
{
    if actions.len() == 0 {
        Seq::empty()
    } else {
        match actions.first() {
            ActionView::Fetch(id) => seq![id] + fetched_ids(actions.drop_first()),
            _ => fetched_ids(actions.drop_first()),
        }
    }
}

/// `n` times the event that the last action was carried out.
pub open spec fn confirmations(n: nat) -> Seq<EventView> {
    Seq::new(n, |i: int| EventView::Done)
}

/// `action` is for the message at hand: it neither fetches another nor closes the session.
pub open spec fn for_message(action: ActionView) -> bool {
    !(action is Fetch) && !(action is Logout)
}

/// The run has fetched no more than its queue holds, and what is pending is for the message
/// at hand.
pub open spec fn orderly(run: PollRunView) -> bool {
    &&& run.next <= run.queue.len()
    &&& forall|i: int| 0 <= i < run.pending.len() ==> for_message(#[trigger] run.pending[i])
}

/// Every plan has an action. Every action of a plan is for the message at hand, and in
/// every plan only the last action is one whose outcome the run waits for.
pub proof fn lemma_plan_shape(id: u32, verdict: DispositionView)
    ensures
        plan_of(id, verdict).len() > 0,
        forall|i: int|
            0 <= i < plan_of(id, verdict).len() ==> for_message(#[trigger] plan_of(id, verdict)[i]),
        forall|i: int|
            0 <= i < plan_of(id, verdict).len() - 1 ==> stage_after(
                #[trigger] plan_of(id, verdict)[i],
            ) == Stage::Working,
{
}

/// Going on keeps the queue as it is, and either fetches the next message of the queue or
/// fetches nothing; the session is closed only when the queue is empty.
proof fn lemma_advance_keeps_order(run: PollRunView)
    requires
        orderly(run),
    ensures
        ({
            let (next, action) = advance(run);
            &&& orderly(next)
            &&& next.stage != Stage::Listing
            &&& next.queue == run.queue
            &&& match action {
                ActionView::Fetch(id) => run.next < run.queue.len() && id
                    == run.queue[run.next as int] && next.next == run.next + 1,
                ActionView::Logout => next.next == run.next && run.next == run.queue.len(),
                _ => next.next == run.next,
            }
        }),
    decreases run.items.len(),
{
    if run.pending.len() > 0 {
        assert(for_message(run.pending[0]));
        assert forall|i: int| 0 <= i < run.pending.drop_first().len() implies for_message(
            #[trigger] run.pending.drop_first()[i],
        ) by {
            assert(run.pending.drop_first()[i] == run.pending[i + 1]);
        }
    } else if run.items.len() > 0 {
        let verdict = disposition(run.at_hand, run.items.first(), run.tag);
        lemma_plan_shape(run.at_hand, verdict);
        lemma_advance_keeps_order(
            PollRunView {
                items: run.items.drop_first(),
                pending: plan_of(run.at_hand, verdict),
                open: opened(verdict),
                ..run
            },
        );
    }
}

/// One step of a run that has its list: the queue stays as it is, and the run either
/// fetches the next message of the queue or fetches nothing.
proof fn lemma_step_keeps_order(run: PollRunView, event: EventView)
    requires
        orderly(run),
        run.stage != Stage::Listing,
    ensures
        ({
            let (next, action) = step_of(run, event);
            &&& orderly(next)
            &&& next.stage != Stage::Listing
            &&& next.queue == run.queue
            &&& match action {
                ActionView::Fetch(id) => run.next < run.queue.len() && id
                    == run.queue[run.next as int] && next.next == run.next + 1,
                ActionView::Logout => next.next == run.next && run.next == run.queue.len(),
                _ => next.next == run.next,
            }
        }),
{
    lemma_advance_keeps_order(run);
    lemma_advance_keeps_order(PollRunView { open: None, ..run });
    match event {
        EventView::Fetched(items) => {
            match run.stage {
                Stage::Fetching(id) => {
                    let fetched = PollRunView {
                        at_hand: id,
                        items,
                        pending: Seq::empty(),
                        open: None,
                        ..run
                    };
                    lemma_advance_keeps_order(fetched);
                },
                _ => {},
            }
        },
        _ => {},
    }
}

/// From a run that has its list, whatever happens, the messages fetched are the next ones of
/// the queue, in the order of the queue.
proof fn lemma_fetches_follow_queue(run: PollRunView, events: Seq<EventView>)
    requires
        orderly(run),
        run.stage != Stage::Listing,
    ensures
        ({
            let fetched = fetched_ids(run_of(run, events));
            &&& run.next + fetched.len() <= run.queue.len()
            &&& forall|k: int| 0 <= k < fetched.len() ==> fetched[k] == run.queue[run.next + k]
        }),
    decreases events.len(),
{
    if events.len() > 0 {
        let (next, action) = step_of(run, events.first());
        lemma_step_keeps_order(run, events.first());
        lemma_fetches_follow_queue(next, events.drop_first());
        let rest = run_of(next, events.drop_first());
        let all = run_of(run, events);
        assert(all.first() == action);
        assert(all.drop_first() =~= rest);
    }
}

/// Whatever the server lists and whatever happens during a run, the messages are fetched in
/// strictly ascending order of their identifiers. Where the run begins with the list `ids`,
/// as it should, the messages fetched are the first of `ids` in the order of processing,
/// none left out between them.
pub proof fn lemma_fetches_ascend(tag: Seq<char>, events: Seq<EventView>)
    ensures
        strictly_ascending(fetched_ids(run_of(initial(tag), events))),
        events.len() > 0 ==> (events[0] matches EventView::Listed(ids) ==> {
            let fetched = fetched_ids(run_of(initial(tag), events));
            &&& fetched.len() <= ascending(ids).len()
            &&& fetched == ascending(ids).subrange(0, fetched.len() as int)
        }),
{
    let run = initial(tag);
    let all = run_of(run, events);
    let fetched = fetched_ids(all);
    if events.len() > 0 {
        let (next, action) = step_of(run, events.first());
        let rest = run_of(next, events.drop_first());
        assert(all.first() == action);
        assert(all.drop_first() =~= rest);
        match events.first() {
            EventView::Listed(ids) => {
                lemma_ascending(ids);
                lemma_advance_keeps_order(PollRunView { queue: ascending(ids), next: 0, ..run });
                lemma_fetches_follow_queue(next, events.drop_first());
                assert(fetched =~= ascending(ids).subrange(0, fetched.len() as int));
            },
            _ => {
                lemma_fetches_follow_queue(next, events.drop_first());
                assert(fetched =~= Seq::<u32>::empty());
            },
        }
    }
}

/// From a run that has its list, by the time the session is closed every message that was
/// still in the queue has been fetched.
proof fn lemma_queue_is_drained(run: PollRunView, events: Seq<EventView>, k: int)
    requires
        orderly(run),
        run.stage != Stage::Listing,
        0 <= k < run_of(run, events).len(),
        run_of(run, events)[k] is Logout,
    ensures
        fetched_ids(run_of(run, events).take(k)) == run.queue.subrange(
            run.next as int,
            run.queue.len() as int,
        ),
    decreases events.len(),
{
    let (next, action) = step_of(run, events.first());
    let rest = run_of(next, events.drop_first());
    let all = run_of(run, events);
    lemma_step_keeps_order(run, events.first());
    assert(all.first() == action);
    assert(all.drop_first() =~= rest);
    if k == 0 {
        assert(all.take(0) =~= Seq::<ActionView>::empty());
        assert(fetched_ids(all.take(0)) =~= run.queue.subrange(
            run.next as int,
            run.queue.len() as int,
        ));
    } else {
        assert(rest[k - 1] == all[k]);
        lemma_queue_is_drained(next, events.drop_first(), k - 1);
        assert(all.take(k).first() == action);
        assert(all.take(k).drop_first() =~= rest.take(k - 1));
        assert(fetched_ids(all.take(k)) =~= run.queue.subrange(
            run.next as int,
            run.queue.len() as int,
        ));
    }
}

/// A run that begins with the list `ids` and comes to close the session has by then fetched
/// every message of the list, each once, lowest identifier first.
pub proof fn lemma_all_are_fetched_before_logout(
    tag: Seq<char>,
    ids: Seq<u32>,
    events: Seq<EventView>,
    k: int,
)
    requires
        0 <= k < run_of(initial(tag), seq![EventView::Listed(ids)] + events).len(),
        run_of(initial(tag), seq![EventView::Listed(ids)] + events)[k] is Logout,
    ensures
        fetched_ids(run_of(initial(tag), seq![EventView::Listed(ids)] + events).take(k))
            == ascending(ids),
{
    let run = initial(tag);
    let whole = seq![EventView::Listed(ids)] + events;
    let (next, action) = step_of(run, whole.first());
    assert(whole.drop_first() =~= events);
    let rest = run_of(next, events);
    let all = run_of(run, whole);
    assert(all.first() == action);
    assert(all.drop_first() =~= rest);
    lemma_advance_keeps_order(PollRunView { queue: ascending(ids), next: 0, ..run });
    if k == 0 {
        assert(all.take(0) =~= Seq::<ActionView>::empty());
        assert(fetched_ids(all.take(0)) =~= ascending(ids));
    } else {
        assert(rest[k - 1] == all[k]);
        lemma_queue_is_drained(next, events, k - 1);
        assert(all.take(k).first() == action);
        assert(all.take(k).drop_first() =~= rest.take(k - 1));
        assert(fetched_ids(all.take(k)) =~= ascending(ids));
    }
}

/// With the last action confirmed each time, a run takes the pending actions one by one,
/// in order.
proof fn lemma_pending_is_carried_out(run: PollRunView)
    requires
        run.stage == Stage::Working,
        run.pending.len() > 0,
        forall|i: int|
            0 <= i < run.pending.len() - 1 ==> stage_after(#[trigger] run.pending[i])
                == Stage::Working,
    ensures
        run_of(run, confirmations(run.pending.len())) == run.pending,
    decreases run.pending.len(),
{
    let events = confirmations(run.pending.len());
    let (next, action) = step_of(run, events.first());
    let later = events.drop_first();
    assert(later =~= confirmations((run.pending.len() - 1) as nat));
    if run.pending.len() == 1 {
        assert(run_of(next, later) =~= Seq::<ActionView>::empty());
        assert(run_of(run, events) =~= run.pending);
    } else {
        assert(stage_after(run.pending[0]) == Stage::Working);
        assert forall|i: int| 0 <= i < next.pending.len() - 1 implies stage_after(
            #[trigger] next.pending[i],
        ) == Stage::Working by {
            assert(next.pending[i] == run.pending[i + 1]);
        }
        lemma_pending_is_carried_out(next);
        assert(run_of(run, events) =~= run.pending);
    }
}

/// Once a message is fetched, and as long as each action is confirmed, the run first takes
/// the actions of the plan for the first thing that the server gave, and no others, in the
/// order of the plan.
pub proof fn lemma_plan_is_carried_out(run: PollRunView, id: u32, items: Seq<FetchedMessageView>)
    requires
        run.stage == Stage::Fetching(id),
        items.len() > 0,
    ensures
        ({
            let planned = plan_of(id, disposition(id, items[0], run.tag));
            &&& planned.len() > 0
            &&& run_of(
                run,
                seq![EventView::Fetched(items)] + confirmations((planned.len() - 1) as nat),
            ) == planned
        }),
{
    let verdict = disposition(id, items[0], run.tag);
    let planned = plan_of(id, verdict);
    lemma_plan_shape(id, verdict);
    let events = seq![EventView::Fetched(items)] + confirmations((planned.len() - 1) as nat);
    let fetched = PollRunView { at_hand: id, items, pending: Seq::empty(), open: None, ..run };
    let judged = PollRunView {
        items: items.drop_first(),
        pending: planned,
        open: opened(verdict),
        ..fetched
    };
    assert(advance(fetched) == advance(judged));
    let (next, action) = step_of(run, events.first());
    assert(action == planned[0]);
    assert(next.pending == planned.drop_first());
    let later = events.drop_first();
    assert(later =~= confirmations((planned.len() - 1) as nat));
    if planned.len() == 1 {
        assert(run_of(next, later) =~= Seq::<ActionView>::empty());
        assert(run_of(run, events) =~= planned);
    } else {
        assert(stage_after(planned[0]) == Stage::Working);
        assert forall|i: int| 0 <= i < next.pending.len() - 1 implies stage_after(
            #[trigger] next.pending[i],
        ) == Stage::Working by {
            assert(next.pending[i] == planned[i + 1]);
        }
        lemma_pending_is_carried_out(next);
        assert(run_of(run, events) =~= planned);
    }
}

/// What a run asks for after its first events does not depend on what happens later.
pub proof fn lemma_run_prefix(run: PollRunView, first: Seq<EventView>, later: Seq<EventView>)
    ensures
        run_of(run, first + later).len() == first.len() + later.len(),
        run_of(run, first + later).subrange(0, first.len() as int) == run_of(run, first),
    decreases first.len(),
{
    lemma_run_len(run, first + later);
    if first.len() == 0 {
        assert(run_of(run, first + later).subrange(0, 0) =~= run_of(run, first));
    } else {
        let (next, action) = step_of(run, first.first());
        assert((first + later).first() == first.first());
        assert((first + later).drop_first() =~= first.drop_first() + later);
        lemma_run_prefix(next, first.drop_first(), later);
        lemma_run_len(next, first.drop_first() + later);
        assert(run_of(run, first + later).subrange(0, first.len() as int) =~= run_of(run, first));
    }
}

/// A run asks for one action after each event.
pub proof fn lemma_run_len(run: PollRunView, events: Seq<EventView>)
    ensures
        run_of(run, events).len() == events.len(),
    decreases events.len(),
{
    if events.len() > 0 {
        let (next, action) = step_of(run, events.first());
        lemma_run_len(next, events.drop_first());
    }
}

/// A command request is removed from the mailbox before anything else is done with it.
/// Once it is fetched, and with the server doing as it is asked, the first three actions of
/// the run are those of its removal, after which the message is gone. Nothing that happens
/// later can change this: not what becomes of the commands, and not what becomes of the
/// reply.
pub proof fn lemma_request_is_removed_first(
    run: PollRunView,
    id: u32,
    items: Seq<FetchedMessageView>,
    later: Seq<EventView>,
    mailbox: Map<u32, Flags>,
)
    requires
        run.stage == Stage::Fetching(id),
        items.len() > 0,
        is_request(items[0], run.tag),
    ensures
        ({
            let events = seq![EventView::Fetched(items), EventView::Done, EventView::Done] + later;
            let actions = run_of(run, events);
            &&& actions.len() == 3 + later.len()
            &&& actions.subrange(0, 3) == applying(removal(id))
            &&& !after_all(
                seen_by_fetch(mailbox, id),
                changes_of(actions.subrange(0, 3)),
            ).contains_key(id)
        }),
{
    let first = seq![EventView::Fetched(items), EventView::Done, EventView::Done];
    let planned = plan_of(id, disposition(id, items[0], run.tag));
    lemma_request_is_consumed(id, items[0], run.tag, mailbox);
    lemma_plan_is_carried_out(run, id, items);
    let whole = seq![EventView::Fetched(items)] + confirmations(3);
    assert(whole =~= first + seq![EventView::Done]);
    lemma_run_prefix(run, first, seq![EventView::Done]);
    lemma_run_prefix(run, first, later);
    assert(run_of(run, first) == planned.subrange(0, 3));
    lemma_changes_of_applying(removal(id));
    lemma_removal_removes(seen_by_fetch(mailbox, id), id);
}

/// A command echo is marked unseen and nothing else is done with it. Once it is fetched,
/// the run asks for that one change, whatever happens later, and has nothing more to do on
/// this verdict; a mailbox in which the message was unseen before the fetch is then as it
/// was before.
pub proof fn lemma_echo_is_only_marked_unseen(
    run: PollRunView,
    id: u32,
    items: Seq<FetchedMessageView>,
    later: Seq<EventView>,
    mailbox: Map<u32, Flags>,
)
    requires
        run.stage == Stage::Fetching(id),
        items.len() > 0,
        is_echo(items[0], run.tag),
        mailbox.contains_key(id),
        !mailbox[id].seen,
    ensures
        ({
            let events = seq![EventView::Fetched(items)] + later;
            let actions = run_of(run, events);
            &&& actions.len() == 1 + later.len()
            &&& actions[0] == ActionView::Apply(MailboxOp::MarkUnseen(id))
            &&& step_of(run, EventView::Fetched(items)).0.pending.len() == 0
            &&& after_all(seen_by_fetch(mailbox, id), changes_of(actions.subrange(0, 1)))
                == mailbox
        }),
{
    let first = seq![EventView::Fetched(items)];
    lemma_echo_is_kept(id, items[0], run.tag, mailbox);
    lemma_plan_is_carried_out(run, id, items);
    assert(first + confirmations(0) =~= first);
    lemma_run_prefix(run, first, later);
    let actions = run_of(run, first + later);
    assert(actions.subrange(0, 1) == applying(keeping(id)));
    assert(actions[0] == actions.subrange(0, 1)[0]);
    lemma_changes_of_applying(keeping(id));
    lemma_fetch_then_keeping(mailbox, id);
    let fetched = PollRunView { at_hand: id, items, pending: Seq::empty(), open: None, ..run };
    let verdict = disposition(id, items[0], run.tag);
    let judged = PollRunView {
        items: items.drop_first(),
        pending: plan_of(id, verdict),
        open: opened(verdict),
        ..fetched
    };
    assert(advance(fetched) == advance(judged));
}

/// A reply that could not be sent changes nothing in what the run does next: the request
/// was consumed before, and the run goes on as after a reply that was sent.
pub proof fn lemma_lost_reply_is_given_up(run: PollRunView)
    requires
        run.stage == Stage::Sending,
    ensures
        step_of(run, EventView::Failed) == step_of(run, EventView::Done),
        step_of(run, EventView::Failed) == advance(run),
{
}

} // verus!
