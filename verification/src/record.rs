//! One parsed row of a data file.

use crate::text::{text_or_empty, text_view};
use vstd::prelude::*;

verus! {

/// One game, as read from a row of a data file.
///
/// `outcome_bits` holds the IEEE 754 single-precision bit pattern of the
/// numeric result (`0` is the pattern of `0.0`); the reader does not restrict
/// it to the patterns of `0.0`, `0.5` and `1.0`.
#[derive(Clone, Debug)]
pub struct GameRecord {
    pub player1: String,
    pub player2: String,
    pub outcome_bits: u32,
    pub month: String,
    pub time_control: String,
}

/// The mathematical value of a [`GameRecord`].
pub struct GameRecordView {
    pub player1: Seq<char>,
    pub player2: Seq<char>,
    pub outcome_bits: u32,
    pub month: Seq<char>,
    pub time_control: Seq<char>,
}

impl View for GameRecord {
    type V = GameRecordView;

    open spec fn view(&self) -> GameRecordView {
        GameRecordView {
            player1: self.player1@,
            player2: self.player2@,
            outcome_bits: self.outcome_bits,
            month: self.month@,
            time_control: self.time_control@,
        }
    }
}

/// The record that a row decodes to: each field that could be read in its
/// expected type, and for each that could not, the empty text or the bit
/// pattern of `0.0`.
pub open spec fn decoded(
    player1: Option<Seq<char>>,
    player2: Option<Seq<char>>,
    outcome_bits: Option<u32>,
    month: Option<Seq<char>>,
    time_control: Option<Seq<char>>,
) -> GameRecordView {
    GameRecordView {
        player1: text_or_empty(player1),
        player2: text_or_empty(player2),
        outcome_bits: match outcome_bits {
            Some(bits) => bits,
            None => 0u32,
        },
        month: text_or_empty(month),
        time_control: text_or_empty(time_control),
    }
}

fn or_empty(text: Option<String>) -> (out: String)
    ensures
        out@ == text_or_empty(text_view(text)),
{
    match text {
        Some(t) => t,
        None => String::new(),
    }
}

impl GameRecord {
    /// Builds a record from the fields of one row, substituting a default for
    /// each field that is absent: the empty string for a text field, the bit
    /// pattern of `0.0` for the outcome. No field makes the row fail.
    pub fn from_fields(
        player1: Option<String>,
        player2: Option<String>,
        outcome_bits: Option<u32>,
        month: Option<String>,
        time_control: Option<String>,
    ) -> (record: GameRecord)
        ensures
            record@ == decoded(
                text_view(player1),
                text_view(player2),
                outcome_bits,
                text_view(month),
                text_view(time_control),
            ),
    {
        GameRecord {
            player1: or_empty(player1),
            player2: or_empty(player2),
            outcome_bits: match outcome_bits {
                Some(bits) => bits,
                None => 0u32,
            },
            month: or_empty(month),
            time_control: or_empty(time_control),
        }
    }
}

} // verus!
