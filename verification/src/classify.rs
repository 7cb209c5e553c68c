//! Classification of an unseen message by its subject.
//!
//! A command request carries the subject `Command (<tag>)` with the configured tag. Any other
//! subject that begins like a command, or like a reply to one, is a command echo: it is most
//! likely one of the agent's own replies coming back, and must be neither run nor discarded.
//! All comparisons ignore the case of ASCII letters.

use crate::text::{
    chars_of, eq_ignore_case, lemma_lowered_concat, lower_all, lowered, matches_at,
    same_ignoring_case, starts_with,
};
use vstd::prelude::*;
use vstd::string::StringExecFns;

verus! {

/// How an unseen message is treated, decided from its subject alone.
#[derive(Clone, Copy, Debug, PartialEq, Eq, Structural)]
pub enum Classification {
    /// The body holds shell commands to run and to answer.
    CommandRequest,
    /// A command subject that is not the request: left on the server, marked unseen.
    CommandEcho,
    /// Any other mail: shown to the operator and removed.
    Informational,
}

/// The subject that a command request for `tag` carries.
pub open spec fn request_subject(tag: Seq<char>) -> Seq<char> {
    "Command ("@ + tag + ")"@
}

/// `subject`, in lower case, begins like a command or like a reply to one.
pub open spec fn looks_like_command(subject: Seq<char>) -> bool {
    ||| starts_with(lowered(subject), "command ("@)
    ||| starts_with(lowered(subject), "re: command ("@)
}

/// The classification of a message with `subject` where `tag` is configured.
pub open spec fn classification(subject: Seq<char>, tag: Seq<char>) -> Classification {
    if eq_ignore_case(subject, request_subject(tag)) {
        Classification::CommandRequest
    } else if looks_like_command(subject) {
        Classification::CommandEcho
    } else {
        Classification::Informational
    }
}

/// Classifies a message with `subject` where `tag` is configured.
pub fn classify(subject: &str, tag: &str) -> (c: Classification)
    ensures
        c == classification(subject@, tag@),
{
    let given = chars_of(subject);
    let mut wanted = String::from_str("Command (");
    wanted.append(tag);
    wanted.append(")");
    let wanted = chars_of(wanted.as_str());
    if same_ignoring_case(given.as_slice(), wanted.as_slice()) {
        return Classification::CommandRequest;
    }
    let low = lower_all(given.as_slice());
    let command = chars_of("command (");
    let reply = chars_of("re: command (");
    if matches_at(low.as_slice(), command.as_slice(), 0) || matches_at(
        low.as_slice(),
        reply.as_slice(),
        0,
    ) {
        Classification::CommandEcho
    } else {
        Classification::Informational
    }
}

/// A subject of the form `Command (T)` is a command request exactly when `T` is the
/// configured tag up to the case of ASCII letters; with any other `T` it is a command echo,
/// never informational.
pub proof fn lemma_tagged_subject(t: Seq<char>, tag: Seq<char>)
    ensures
        classification(request_subject(t), tag) == if eq_ignore_case(t, tag) {
            Classification::CommandRequest
        } else {
            Classification::CommandEcho
        },
{
    reveal_strlit("Command (");
    reveal_strlit("command (");
    reveal_strlit(")");
    let open = "Command ("@;
    let close = ")"@;
    lemma_lowered_concat(open + t, close);
    lemma_lowered_concat(open, t);
    lemma_lowered_concat(open + tag, close);
    lemma_lowered_concat(open, tag);
    let lt = lowered(t);
    let ltag = lowered(tag);
    let a = lowered(open) + lt + lowered(close);
    let b = lowered(open) + ltag + lowered(close);
    assert(lowered(request_subject(t)) == a);
    assert(lowered(request_subject(tag)) == b);
    if a == b {
        assert(lt.len() == ltag.len());
        assert forall|i: int| 0 <= i < lt.len() implies lt[i] == ltag[i] by {
            assert(a[open.len() + i] == lt[i]);
            assert(b[open.len() + i] == ltag[i]);
        }
        assert(lt =~= ltag);
    }
    assert(lowered(open) =~= "command ("@);
    assert(a.subrange(0, 9) =~= "command ("@);
}

} // verus!
