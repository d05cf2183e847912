//! The ways in which a command can fail.

use crate::text::{decimal, decimal_digits};
use vstd::prelude::*;

verus! {

/// Why a command did not go through.
#[derive(Debug, Clone, PartialEq, Eq)]
pub enum MyError {
    /// The store could not be read or written; the text says what went wrong.
    Io(String),
    /// The store does not hold a calendar; the text says what is wrong with it.
    Json(String),
    /// The new appointment clashes with one that is already in the calendar.
    ScheduleConflict,
    /// The calendar holds no appointment with this id.
    ScheduleNotFound(u64),
}

impl MyError {
    /// The sentence that tells the user of this error.
    pub open spec fn text(&self) -> Seq<char> {
        match self {
            MyError::Io(detail) => "ファイル操作でエラーが発生しました: "@ + detail@,
            MyError::Json(detail) => "JSON 操作でエラーが発生しました: "@ + detail@,
            MyError::ScheduleConflict => "予定が重複しています"@,
            MyError::ScheduleNotFound(id) => "予定が見つかりませんでした: (ID: "@ + decimal_digits(
                *id as nat,
            ) + ")"@,
        }
    }

    /// The sentence that tells the user of this error.
    pub fn message(&self) -> (message: String)
        ensures
            message@ == self.text(),
    {
        match self {
            MyError::Io(detail) => {
                let mut message = "ファイル操作でエラーが発生しました: ".to_owned();
                message.append(detail.as_str());
                message
            },
            MyError::Json(detail) => {
                let mut message = "JSON 操作でエラーが発生しました: ".to_owned();
                message.append(detail.as_str());
                message
            },
            MyError::ScheduleConflict => "予定が重複しています".to_owned(),
            MyError::ScheduleNotFound(id) => {
                let mut message = "予定が見つかりませんでした: (ID: ".to_owned();
                let number = decimal(*id);
                message.append(number.as_str());
                message.append(")");
                message
            },
        }
    }
}

} // verus!
