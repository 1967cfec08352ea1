//! Reports of how a program ended.

use crate::proto::{FieldType, Message, MessageView};
use crate::text::join;
use vstd::prelude::*;
use vstd::string::*;

verus! {

/// The status that is reported for a program: its exit code, or 128 plus the signal
/// that killed it, or 1 where neither is known.
pub open spec fn exit_status(code: Option<i32>, signal: Option<i32>) -> int {
    match code {
        Some(code) => code as int,
        None => match signal {
            Some(signal) => 128 + signal,
            None => 1,
        },
    }
}

/// The status to report for a program that exited with `code` or was killed by `signal`.
pub fn exit_code(code: Option<i32>, signal: Option<i32>) -> (status: i32)
    requires
        i32::MIN <= exit_status(code, signal) <= i32::MAX,
    ensures
        status == exit_status(code, signal),
{
    match code {
        Some(code) => code,
        None => match signal {
            Some(signal) => 128 + signal,
            None => 1,
        },
    }
}

/// What tells a client how its program ended.
pub fn report_exit(code: Option<i32>, signal: Option<i32>) -> (m: Message)
    requires
        i32::MIN <= exit_status(code, signal) <= i32::MAX,
    ensures
        m@ == MessageView::exit(exit_status(code, signal) as i32),
{
    Message::exit(exit_code(code, signal))
}

/// The mathematical values of a list of messages.
pub open spec fn message_views(list: Seq<Message>) -> Seq<MessageView> {
    list.map_values(|m: Message| m@)
}

/// What tells a client that its program did not run: the reason in words, then a status.
pub open spec fn failure_messages(reason: Seq<char>, status: i32) -> Seq<MessageView> {
    seq![MessageView::of_text(FieldType::Error, reason), MessageView::exit(status)]
}

/// What tells a client that its program did not run: the reason in words, then a status.
pub fn report_failure(reason: &str, status: i32) -> (out: Vec<Message>)
    ensures
        message_views(out@) == failure_messages(reason@, status),
{
    let mut out: Vec<Message> = Vec::new();
    out.push(Message::error(reason));
    out.push(Message::exit(status));
    assert(message_views(out@) =~= failure_messages(reason@, status));
    out
}

/// Why a program could not be started, in words.
pub open spec fn spawn_failure_text(program: Seq<char>, cause: Seq<char>) -> Seq<char> {
    "unable to run "@ + program + ": "@ + cause
}

/// What tells a client that its program could not be started: the reason, then status 127.
pub fn report_spawn_failure(program: &str, cause: &str) -> (out: Vec<Message>)
    ensures
        message_views(out@) == failure_messages(spawn_failure_text(program@, cause@), 127),
{
    let mut reason = join("unable to run ", program);
    reason.append(": ");
    reason.append(cause);
    report_failure(reason.as_str(), 127)
}

/// The status of a program is the code that it ended with, or 128 more than the signal that
/// ended it, or 1 where neither is known.
pub proof fn statuses_mean(code: i32, signal: Option<i32>, killer: i32)
    ensures
        exit_status(Some(code), signal) == code,
        exit_status(None, Some(killer)) == 128 + killer,
        exit_status(None, None) == 1,
{
}

/// A failure is told in two messages: first the reason, then the status.
pub proof fn failures_are_told_in_order(reason: Seq<char>, status: i32)
    ensures
        failure_messages(reason, status).len() == 2,
        failure_messages(reason, status)[0] == MessageView::of_text(FieldType::Error, reason),
        failure_messages(reason, status)[1] == MessageView::exit(status),
{
}

/// A program that cannot be run is named, with the cause.
pub proof fn spawn_failures_name_the_program(program: Seq<char>, cause: Seq<char>)
    ensures
        spawn_failure_text(program, cause) == "unable to run "@ + program + ": "@ + cause,
{
}

/// What is told of a program's end is its status; of a failure its reason and then the
/// status that it was given; and of a program that cannot be run, its name and the cause, with
/// status 127.
pub proof fn ends_are_told(
    code: i32,
    signal: Option<i32>,
    exited: Message,
    killer: i32,
    killed: Message,
    unknown: Message,
    reason: &str,
    status: i32,
    failed: Vec<Message>,
    program: &str,
    cause: &str,
    not_run: Vec<Message>,
)
    requires
        128 + killer <= i32::MAX,
        call_ensures(report_exit, (Some(code), signal), exited),
        call_ensures(report_exit, (None, Some(killer)), killed),
        call_ensures(report_exit, (None, None), unknown),
        call_ensures(report_failure, (reason, status), failed),
        call_ensures(report_spawn_failure, (program, cause), not_run),
    ensures
        exited@ == MessageView::exit(code),
        killed@ == MessageView::exit((128 + killer) as i32),
        unknown@ == MessageView::exit(1),
        failed@.len() == 2,
        failed@[0]@ == MessageView::of_text(FieldType::Error, reason@),
        failed@[1]@ == MessageView::exit(status),
        not_run@.len() == 2,
        not_run@[0]@ == MessageView::of_text(
            FieldType::Error,
            "unable to run "@ + program@ + ": "@ + cause@,
        ),
        not_run@[1]@ == MessageView::exit(127),
{
    assert(message_views(failed@).len() == failed@.len());
    assert(message_views(failed@)[0] == failed@[0]@);
    assert(message_views(failed@)[1] == failed@[1]@);
    assert(message_views(not_run@).len() == not_run@.len());
    assert(message_views(not_run@)[0] == not_run@[0]@);
    assert(message_views(not_run@)[1] == not_run@[1]@);
}

/// A list of messages is shown message by message.
pub proof fn lists_of_messages_mean(list: Seq<Message>)
    ensures
        message_views(list).len() == list.len(),
        forall|i: int| 0 <= i < list.len() ==> #[trigger] message_views(list)[i] == list[i]@,
{
}

} // verus!
