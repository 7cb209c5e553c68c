//! What the agent asks of the mailbox, and a model of the mailbox that says what becomes of
//! a message when the server does as it is asked.

use vstd::prelude::*;
use vstd::string::StringExecFns;

verus! {

/// One change that the agent asks the mail server to make.
#[derive(Clone, Copy, Debug, PartialEq, Eq, Structural)]
pub enum MailboxOp {
    /// Mark the message as read.
    MarkSeen(u32),
    /// Mark the message as not read.
    MarkUnseen(u32),
    /// Mark the message for removal.
    MarkDeleted(u32),
    /// Remove for good every message that is marked for removal.
    Expunge,
}

/// The flag change by which the server is asked for `op`, in the words of the protocol.
/// Expunging changes no flag and has none.
pub open spec fn flag_change(op: MailboxOp) -> Option<Seq<char>> {
    match op {
        MailboxOp::MarkSeen(_) => Some("+FLAGS (\\Seen)"@),
        MailboxOp::MarkUnseen(_) => Some("-FLAGS (\\Seen)"@),
        MailboxOp::MarkDeleted(_) => Some("+FLAGS (\\Deleted)"@),
        MailboxOp::Expunge => None,
    }
}

/// The folder that the agent reads.
pub fn inbox() -> (name: String)
    ensures
        name@ == "INBOX"@,
{
    String::from_str("INBOX")
}

/// The search by which the server lists the messages to process: those not yet seen.
pub fn unseen_query() -> (query: String)
    ensures
        query@ == "UNSEEN"@,
{
    String::from_str("UNSEEN")
}

/// What is asked of the server for each message: its whole body and its envelope. The
/// server marks a message as seen when it hands out the body.
pub fn fetch_items() -> (items: String)
    ensures
        items@ == "(BODY[] ENVELOPE)"@,
{
    String::from_str("(BODY[] ENVELOPE)")
}

impl MailboxOp {
    /// The message that the change is made to. Expunging names none.
    pub fn target(&self) -> (id: Option<u32>)
        ensures
            id == match *self {
                MailboxOp::MarkSeen(n) => Some(n),
                MailboxOp::MarkUnseen(n) => Some(n),
                MailboxOp::MarkDeleted(n) => Some(n),
                MailboxOp::Expunge => None,
            },
    {
        match self {
            MailboxOp::MarkSeen(n) => Some(*n),
            MailboxOp::MarkUnseen(n) => Some(*n),
            MailboxOp::MarkDeleted(n) => Some(*n),
            MailboxOp::Expunge => None,
        }
    }

    /// The flag change to ask the server for.
    pub fn flags(&self) -> (change: Option<String>)
        ensures
            change.deep_view() == flag_change(*self),
    {
        match self {
            MailboxOp::MarkSeen(_) => Some(String::from_str("+FLAGS (\\Seen)")),
            MailboxOp::MarkUnseen(_) => Some(String::from_str("-FLAGS (\\Seen)")),
            MailboxOp::MarkDeleted(_) => Some(String::from_str("+FLAGS (\\Deleted)")),
            MailboxOp::Expunge => None,
        }
    }
}

/// The state of one message on the server.
pub struct Flags {
    pub seen: bool,
    pub deleted: bool,
}

/// The mailbox after the server has carried out `op`. A change to a message that is not
/// there changes nothing.
pub open spec fn after(mailbox: Map<u32, Flags>, op: MailboxOp) -> Map<u32, Flags> {
    match op {
        MailboxOp::MarkSeen(id) => if mailbox.contains_key(id) {
            mailbox.insert(id, Flags { seen: true, deleted: mailbox[id].deleted })
        } else {
            mailbox
        },
        MailboxOp::MarkUnseen(id) => if mailbox.contains_key(id) {
            mailbox.insert(id, Flags { seen: false, deleted: mailbox[id].deleted })
        } else {
            mailbox
        },
        MailboxOp::MarkDeleted(id) => if mailbox.contains_key(id) {
            mailbox.insert(id, Flags { seen: mailbox[id].seen, deleted: true })
        } else {
            mailbox
        },
        MailboxOp::Expunge => Map::new(
            |id: u32| mailbox.contains_key(id) && !mailbox[id].deleted,
            |id: u32| mailbox[id],
        ),
    }
}

/// The mailbox after the message `id` was fetched with its whole body: the server marks a
/// message that it hands out in this way as seen.
pub open spec fn seen_by_fetch(mailbox: Map<u32, Flags>, id: u32) -> Map<u32, Flags> {
    after(mailbox, MailboxOp::MarkSeen(id))
}

/// The mailbox after the server has carried out `ops`, one after the other.
pub open spec fn after_all(mailbox: Map<u32, Flags>, ops: Seq<MailboxOp>) -> Map<u32, Flags>
    decreases ops.len(),
{
    if ops.len() == 0 {
        mailbox
    } else {
        after_all(after(mailbox, ops.first()), ops.drop_first())
    }
}

/// The changes that consume the message `id`: seen, marked for removal, expunged.
pub open spec fn removal(id: u32) -> Seq<MailboxOp> {
    seq![MailboxOp::MarkSeen(id), MailboxOp::MarkDeleted(id), MailboxOp::Expunge]
}

/// The change that leaves the message `id` in place for the next run.
pub open spec fn keeping(id: u32) -> Seq<MailboxOp> {
    seq![MailboxOp::MarkUnseen(id)]
}

/// After its removal a message is gone from the mailbox, whatever state it was in. A
/// message that was not marked for removal is still there, as it was.
pub proof fn lemma_removal_removes(mailbox: Map<u32, Flags>, id: u32)
    ensures
        !after_all(mailbox, removal(id)).contains_key(id),
        forall|other: u32|
            other != id && mailbox.contains_key(other) && !mailbox[other].deleted
                ==> #[trigger] after_all(mailbox, removal(id)).contains_key(other) && after_all(
                mailbox,
                removal(id),
            )[other] == mailbox[other],
{
    let ops = removal(id);
    let m1 = after(mailbox, ops[0]);
    let m2 = after(m1, ops[1]);
    let m3 = after(m2, ops[2]);
    assert(ops.drop_first() =~= seq![MailboxOp::MarkDeleted(id), MailboxOp::Expunge]);
    assert(ops.drop_first().drop_first() =~= seq![MailboxOp::Expunge]);
    assert(ops.drop_first().drop_first().drop_first() =~= Seq::<MailboxOp>::empty());
    reveal_with_fuel(after_all, 4);
    assert(after_all(mailbox, ops) == m3);
}

/// Marking a message unseen leaves every other message as it was, and the message itself
/// unseen with nothing else about it changed. A message that was unseen before is left
/// exactly as it was, so the mailbox as a whole is unchanged.
pub proof fn lemma_keeping_keeps(mailbox: Map<u32, Flags>, id: u32)
    ensures
        after_all(mailbox, keeping(id)).dom() == mailbox.dom(),
        forall|other: u32|
            other != id && mailbox.contains_key(other) ==> #[trigger] after_all(
                mailbox,
                keeping(id),
            )[other] == mailbox[other],
        mailbox.contains_key(id) ==> !after_all(mailbox, keeping(id))[id].seen && after_all(
            mailbox,
            keeping(id),
        )[id].deleted == mailbox[id].deleted,
        mailbox.contains_key(id) && !mailbox[id].seen ==> after_all(mailbox, keeping(id))
            == mailbox,
{
    let ops = keeping(id);
    let m1 = after(mailbox, ops[0]);
    assert(ops.drop_first() =~= Seq::<MailboxOp>::empty());
    reveal_with_fuel(after_all, 2);
    assert(after_all(mailbox, ops) == m1);
    assert(m1.dom() =~= mailbox.dom());
    if mailbox.contains_key(id) && !mailbox[id].seen {
        assert(m1 =~= mailbox);
    }
}

/// A message that was unseen, then fetched, then marked unseen is as it was before the
/// fetch, and so is the mailbox as a whole.
pub proof fn lemma_fetch_then_keeping(mailbox: Map<u32, Flags>, id: u32)
    requires
        mailbox.contains_key(id),
        !mailbox[id].seen,
    ensures
        after_all(seen_by_fetch(mailbox, id), keeping(id)) == mailbox,
{
    let fetched = seen_by_fetch(mailbox, id);
    lemma_keeping_keeps(fetched, id);
    assert(after_all(fetched, keeping(id)) =~= mailbox);
}

/// Changes made one run after the other are the changes of both runs in a row.
pub proof fn lemma_after_all_concat(
    mailbox: Map<u32, Flags>,
    first: Seq<MailboxOp>,
    second: Seq<MailboxOp>,
)
    ensures
        after_all(mailbox, first + second) == after_all(after_all(mailbox, first), second),
    decreases first.len(),
{
    if first.len() == 0 {
        assert(first + second =~= second);
    } else {
        assert((first + second).first() == first.first());
        assert((first + second).drop_first() =~= first.drop_first() + second);
        lemma_after_all_concat(after(mailbox, first.first()), first.drop_first(), second);
    }
}

/// Keeping a message that is gone brings nothing back.
pub proof fn lemma_keeping_of_absent(mailbox: Map<u32, Flags>, id: u32)
    requires
        !mailbox.contains_key(id),
    ensures
        after_all(mailbox, keeping(id)) == mailbox,
{
    assert(keeping(id).drop_first() =~= Seq::<MailboxOp>::empty());
    reveal_with_fuel(after_all, 2);
}

/// Marking a message unseen a second time changes nothing more: however often a message is
/// met and kept, the mailbox is as after the first time.
pub proof fn lemma_keeping_idempotent(mailbox: Map<u32, Flags>, id: u32)
    ensures
        after_all(after_all(mailbox, keeping(id)), keeping(id)) == after_all(mailbox, keeping(id)),
{
    let once = after_all(mailbox, keeping(id));
    lemma_keeping_keeps(mailbox, id);
    lemma_keeping_keeps(once, id);
    if mailbox.contains_key(id) {
        assert(once.contains_key(id));
    } else {
        let ops = keeping(id);
        assert(ops.drop_first() =~= Seq::<MailboxOp>::empty());
        reveal_with_fuel(after_all, 2);
        assert(once == mailbox);
        assert(after_all(once, ops) == once);
    }
}

} // verus!
