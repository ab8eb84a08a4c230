//! The lines that the pool and its workers write to the log.

use vstd::prelude::*;
use vstd::string::*;
use crate::message::Action;
use crate::text::{decimal, push_decimal};

verus! {

/// The layout of a time stamp: year, month, day, hour, minute, second.
pub const TIME_FORMAT: &'static str = "%Y-%m-%d %H:%M:%S";

/// The local time of this moment, laid out as `format` says, from
/// `chrono::Local::now().format(format)`. The text depends on the clock and
/// on the time zone of the machine, so nothing is claimed of it, and two
/// calls may differ. chrono fails on a layout that it does not know; the one
/// layout admitted here is known to it. It also fails where it cannot read
/// the system clock as a time after 1970, or cannot use the machine's time
/// zone data: no argument decides that.
#[verifier::external_body]
fn local_time(format: &str) -> (stamp: String)
    requires
        format@ == TIME_FORMAT@,
{
    chrono::Local::now().format(format).to_string()
}

/// A log line: the time stamp, a colon and a space, the message, and a
/// carriage return for terminals in raw mode.
pub open spec fn log_line(stamp: Seq<char>, message: Seq<char>) -> Seq<char> {
    stamp + ": "@ + message + "\r"@
}

/// Builds the log line that records `message` under the time `stamp`.
pub fn format_line(stamp: &str, message: &str) -> (line: String)
    ensures
        line@ == log_line(stamp@, message@),
{
    let mut line = String::from_str(stamp);
    line.append(": ");
    line.append(message);
    line.append("\r");
    assert(line@ =~= log_line(stamp@, message@));
    line
}

/// The log line that records `message` under the local time of the call.
/// The caller writes it out, followed by a line feed.
pub fn log(message: String) -> (line: String)
    ensures
        exists|stamp: Seq<char>| line@ == log_line(stamp, message@),
{
    let stamp = local_time(TIME_FORMAT);
    let line = format_line(stamp.as_str(), message.as_str());
    assert(line@ == log_line(stamp@, message@));
    line
}

/// What worker `id` reports when it is told `action`.
pub open spec fn notice_text<J>(id: nat, action: Action<J>) -> Option<Seq<char>> {
    match action {
        Action::Wait => None,
        Action::Run(_) => Some("Worker "@ + decimal(id) + " got a job; executing."@),
        Action::Exit => Some("Worker "@ + decimal(id) + " was told to terminate."@),
    }
}

/// The message that worker `id` logs before it acts on `action`: that it
/// starts a job, or that it was told to stop. Waiting is not logged.
pub fn worker_notice<J>(id: usize, action: &Action<J>) -> (notice: Option<String>)
    ensures
        match notice {
            Some(text) => notice_text(id as nat, *action) == Some(text@),
            None => notice_text(id as nat, *action) is None,
        },
{
    let ending = match action {
        Action::Wait => {
            return None;
        },
        Action::Run(_) => " got a job; executing.",
        Action::Exit => " was told to terminate.",
    };
    let mut text = String::from_str("Worker ");
    push_decimal(&mut text, id);
    text.append(ending);
    assert(text@ =~= "Worker "@ + decimal(id as nat) + ending@);
    Some(text)
}

/// What shutdown reports before it joins worker `id`.
pub open spec fn join_notice_text(id: nat) -> Seq<char> {
    "Shutting down worker "@ + decimal(id)
}

/// The message that shutdown logs before it joins worker `id`.
pub fn join_notice(id: usize) -> (text: String)
    ensures
        text@ == join_notice_text(id as nat),
{
    let mut text = String::from_str("Shutting down worker ");
    push_decimal(&mut text, id);
    assert(text@ =~= join_notice_text(id as nat));
    text
}

} // verus!
