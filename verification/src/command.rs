//! The three commands of the schedule book. Each takes the calendar as it was
//! read from the store and gives back the text that the command prints; a
//! command that changes the calendar leaves it ready to be stored again.

use crate::calendar::{
    add_schedule, conflict_free, conflicts_with, delete_schedule, first_with_id, position_of,
    Calendar,
};
use crate::error::MyError;
use crate::schedule::{Schedule, ScheduleView};
use crate::text::{decimal, decimal_digits};
use crate::time::Timestamp;
use vstd::prelude::*;

verus! {

/// The first line of a listing.
pub open spec fn header() -> Seq<char> {
    "ID\tSTART\t\t\tEND\t\t\tSUBJECT"@
}

/// One line of a listing: the id in decimal, the start, the end and the
/// subject, with a tab between each two of them.
pub open spec fn row_text(id: nat, start: Seq<char>, end: Seq<char>, subject: Seq<char>) -> Seq<
    char,
> {
    decimal_digits(id) + seq!['\t'] + start + seq!['\t'] + end + seq!['\t'] + subject
}

/// The line of a listing that shows `entry`.
pub open spec fn row(entry: ScheduleView) -> Seq<char> {
    row_text(entry.id, entry.start.text(), entry.end.text(), entry.subject)
}

/// The lines of a listing: the header, then one row for each appointment, in
/// the order of the calendar.
pub open spec fn listing(entries: Seq<ScheduleView>) -> Seq<Seq<char>> {
    seq![header()] + entries.map_values(|entry: ScheduleView| row(entry))
}

/// A line as it is printed: its text and a line feed.
pub open spec fn line(text: Seq<char>) -> Seq<char> {
    text + seq!['\n']
}

/// Lines as they are printed, one after the other.
pub open spec fn printed(lines: Seq<Seq<char>>) -> Seq<char>
    decreases lines.len(),
{
    if lines.len() == 0 {
        Seq::empty()
    } else {
        printed(lines.drop_last()) + line(lines.last())
    }
}

/// What a successful `add` prints.
pub open spec fn added_notice() -> Seq<char> {
    line("予定を追加しました！"@)
}

/// What a successful `delete` prints.
pub open spec fn deleted_notice() -> Seq<char> {
    line("予定を削除しました！"@)
}

/// Puts one row of a listing together from its four columns.
pub fn format_row(id: u64, start: &str, end: &str, subject: &str) -> (row: String)
    ensures
        row@ == row_text(id as nat, start@, end@, subject@),
{
    proof {
        reveal_strlit("\t");
    }
    assert("\t"@ =~= seq!['\t']);
    let mut row = decimal(id);
    row.append("\t");
    row.append(start);
    row.append("\t");
    row.append(end);
    row.append("\t");
    row.append(subject);
    row
}

/// The lines that show the calendar: the header and a row for each
/// appointment.
pub fn show_list(calendar: &Calendar) -> (lines: Vec<String>)
    ensures
        lines.deep_view() == listing(calendar@),
{
    let mut lines: Vec<String> = Vec::new();
    lines.push("ID\tSTART\t\t\tEND\t\t\tSUBJECT".to_owned());
    let mut i: usize = 0;
    while i < calendar.schedules.len()
        invariant
            i <= calendar.schedules@.len(),
            lines@.len() == i + 1,
            lines@[0]@ == header(),
            forall|j: int| 0 <= j < i ==> (#[trigger] lines@[j + 1])@ == row(calendar@[j]),
        decreases calendar.schedules@.len() - i,
    {
        let schedule = &calendar.schedules[i];
        let start = schedule.start.text();
        let end = schedule.end.text();
        let row = format_row(schedule.id, start.as_str(), end.as_str(), schedule.subject.as_str());
        lines.push(row);
        i += 1;
    }
    assert forall|k: int| 0 <= k < lines@.len() implies #[trigger] lines.deep_view()[k] == listing(
        calendar@,
    )[k] by {
        if k > 0 {
            assert(lines@[(k - 1) + 1]@ == row(calendar@[k - 1]));
        }
    }
    assert(lines.deep_view() =~= listing(calendar@));
    lines
}

/// Ends `output` with `text` and a line feed.
fn print_line(output: &mut String, text: &str)
    ensures
        final(output)@ == old(output)@ + line(text@),
{
    proof {
        reveal_strlit("\n");
    }
    assert("\n"@ =~= seq!['\n']);
    output.append(text);
    output.append("\n");
    assert(output@ =~= old(output)@ + line(text@));
}

/// Prints the lines one after the other.
fn print_lines(lines: &Vec<String>) -> (output: String)
    ensures
        output@ == printed(lines.deep_view()),
{
    let ghost texts = lines.deep_view();
    let mut output = String::new();
    let mut i: usize = 0;
    while i < lines.len()
        invariant
            i <= lines@.len(),
            texts == lines.deep_view(),
            output@ == printed(texts.take(i as int)),
        decreases lines@.len() - i,
    {
        print_line(&mut output, lines[i].as_str());
        proof {
            let longer = texts.take(i + 1);
            assert(longer.drop_last() =~= texts.take(i as int));
            assert(longer.last() == lines@[i as int]@);
        }
        i += 1;
    }
    assert(texts.take(i as int) =~= texts);
    output
}

/// The `list` command: the whole listing as it is printed. The calendar is
/// not changed.
pub fn list_command(calendar: &Calendar) -> (output: String)
    ensures
        output@ == printed(listing(calendar@)),
{
    let lines = show_list(calendar);
    print_lines(&lines)
}

/// The `add` command: enters the appointment and says so, or fails with
/// `ScheduleConflict` and leaves the calendar as it is.
pub fn add_command(
    calendar: &mut Calendar,
    subject: String,
    start: Timestamp,
    end: Timestamp,
) -> (done: Result<String, MyError>)
    ensures
        ({
            let candidate = Schedule {
                id: old(calendar).schedules@.len() as u64,
                subject,
                start,
                end,
            };
            if conflicts_with(old(calendar)@, candidate@) {
                &&& done == Err::<String, MyError>(MyError::ScheduleConflict)
                &&& *final(calendar) == *old(calendar)
            } else {
                &&& done matches Ok(notice)
                &&& notice@ == added_notice()
                &&& final(calendar).schedules@ == old(calendar).schedules@.push(candidate)
                &&& final(calendar)@ == old(calendar)@.push(candidate@)
            }
        }),
        conflict_free(old(calendar)@) ==> conflict_free(final(calendar)@),
{
    match add_schedule(calendar, subject, start, end) {
        Ok(_) => {
            let mut notice = String::new();
            print_line(&mut notice, "予定を追加しました！");
            Ok(notice)
        },
        Err(error) => Err(error),
    }
}

/// The `delete` command: takes the first appointment with the id out and
/// says so, or fails with `ScheduleNotFound` and leaves the calendar as it
/// is.
pub fn delete_command(calendar: &mut Calendar, id: u64) -> (done: Result<String, MyError>)
    ensures
        match position_of(old(calendar)@, id as nat) {
            Some(at) => {
                &&& done matches Ok(notice)
                &&& notice@ == deleted_notice()
                &&& first_with_id(old(calendar)@, id as nat, at)
                &&& final(calendar).schedules@ == old(calendar).schedules@.remove(at)
                &&& final(calendar)@ == old(calendar)@.remove(at)
            },
            None => {
                &&& done == Err::<String, MyError>(MyError::ScheduleNotFound(id))
                &&& *final(calendar) == *old(calendar)
            },
        },
        conflict_free(old(calendar)@) ==> conflict_free(final(calendar)@),
{
    match delete_schedule(calendar, id) {
        Ok(_) => {
            let mut notice = String::new();
            print_line(&mut notice, "予定を削除しました！");
            Ok(notice)
        },
        Err(error) => Err(error),
    }
}

/// Listing is repeatable: two listings of one calendar, with nothing entered
/// or deleted between them, are the same text.
pub proof fn lemma_list_idempotent(calendar: Calendar, first: String, second: String)
    requires
        first@ == printed(listing(calendar@)),
        second@ == printed(listing(calendar@)),
    ensures
        first@ == second@,
{
}

} // verus!
