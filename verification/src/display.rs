//! How a process state is shown on a terminal.

use crate::models::process::{ProcessState, ProcessStateView};
use crate::text::{
    decimal_of_int, decimal_of_nat, is_substring, push_decimal, push_signed_decimal, push_text,
};
use vstd::prelude::*;

verus! {

/// The colours that states are shown in.
#[derive(Debug, Clone, Copy, PartialEq, Eq, Structural)]
pub enum StateColor {
    Green,
    BrightBlack,
    Cyan,
    Yellow,
    Red,
}

impl StateColor {
    /// The number of the colour in an escape sequence that sets the
    /// foreground colour.
    pub open spec fn code(self) -> Seq<char> {
        match self {
            StateColor::Green => "32"@,
            StateColor::BrightBlack => "90"@,
            StateColor::Cyan => "36"@,
            StateColor::Yellow => "33"@,
            StateColor::Red => "31"@,
        }
    }

    /// The escape sequence that switches the colour on.
    pub open spec fn start(self) -> Seq<char> {
        "\x1B["@ + self.code() + "m"@
    }
}

/// The escape sequence that switches all colours off.
pub open spec fn reset() -> Seq<char> {
    "\x1B[0m"@
}

/// The colour that a state is shown in.
pub open spec fn color_of(state: ProcessStateView) -> StateColor {
    match state {
        ProcessStateView::Running => StateColor::Green,
        ProcessStateView::Stopped => StateColor::BrightBlack,
        ProcessStateView::Starting => StateColor::Cyan,
        ProcessStateView::Stopping => StateColor::Yellow,
        ProcessStateView::Crashed { .. } => StateColor::Red,
        ProcessStateView::Failed { .. } => StateColor::Red,
    }
}

/// The words that a state is shown with.
pub open spec fn label_of(state: ProcessStateView) -> Seq<char> {
    match state {
        ProcessStateView::Running => "Running"@,
        ProcessStateView::Stopped => "Stopped"@,
        ProcessStateView::Starting => "Starting"@,
        ProcessStateView::Stopping => "Stopping"@,
        ProcessStateView::Crashed { exit_code } => "Crashed ("@ + decimal_of_int(exit_code as int) + ")"@,
        ProcessStateView::Failed { reason } => "Failed: "@ + reason,
    }
}

/// Whether `painted` shows `label` in the colour `color`, or plainly where
/// colours are switched off: it is then either the label itself, or it
/// begins with the sequence that switches the colour on and ends with the
/// one that switches it off, with nothing but the label between them where
/// the label holds no such sequence itself.
pub open spec fn shows(painted: Seq<char>, label: Seq<char>, color: StateColor) -> bool {
    ||| painted == label
    ||| {
        &&& painted.len() >= color.start().len() + reset().len()
        &&& painted.take(color.start().len() as int) == color.start()
        &&& painted.skip(painted.len() - reset().len()) == reset()
        &&& !is_substring(reset(), label) ==> painted == color.start() + label + reset()
    }
}

/// Get color for process state
pub fn state_color(state: &ProcessState) -> (color: StateColor)
    ensures
        color == color_of(state@),
{
    match state {
        ProcessState::Running => StateColor::Green,
        ProcessState::Stopped => StateColor::BrightBlack,
        ProcessState::Starting => StateColor::Cyan,
        ProcessState::Stopping => StateColor::Yellow,
        ProcessState::Crashed { .. } => StateColor::Red,
        ProcessState::Failed { .. } => StateColor::Red,
    }
}

/// The words that a state is shown with.
pub fn state_label(state: &ProcessState) -> (label: String)
    ensures
        label@ == label_of(state@),
{
    let mut label = String::new();
    match state {
        ProcessState::Running => push_text(&mut label, "Running"),
        ProcessState::Stopped => push_text(&mut label, "Stopped"),
        ProcessState::Starting => push_text(&mut label, "Starting"),
        ProcessState::Stopping => push_text(&mut label, "Stopping"),
        ProcessState::Crashed { exit_code } => {
            push_text(&mut label, "Crashed (");
            push_signed_decimal(&mut label, *exit_code as i64);
            push_text(&mut label, ")");
        },
        ProcessState::Failed { reason } => {
            push_text(&mut label, "Failed: ");
            push_text(&mut label, reason.as_str());
        },
    }
    assert(label@ =~= label_of(state@));
    label
}

/// Paints a label for the terminal.
///
/// Trusted: wraps `colored::Colorize::color` on a `&str` and the `Display` of
/// the `ColoredString` that it gives. Where the crate finds colours switched
/// off (by the environment or because the output is no terminal) the text
/// comes back as it is. Otherwise it comes between the escape sequence of the
/// foreground colour and the reset sequence; a reset sequence inside the text
/// is followed by the colour's sequence again, so the text is unchanged only
/// where it holds none.
#[verifier::external_body]
fn paint(label: &str, color: StateColor) -> (painted: String)
    ensures
        shows(painted@, label@, color),
{
    let color = match color {
        StateColor::Green => colored::Color::Green,
        StateColor::BrightBlack => colored::Color::BrightBlack,
        StateColor::Cyan => colored::Color::Cyan,
        StateColor::Yellow => colored::Color::Yellow,
        StateColor::Red => colored::Color::Red,
    };
    colored::Colorize::color(label, color).to_string()
}

/// Format process state with color
pub fn format_state(state: &ProcessState) -> (text: String)
    ensures
        shows(text@, label_of(state@), color_of(state@)),
{
    let label = state_label(state);
    paint(label.as_str(), state_color(state))
}

/// How a time of `seconds` seconds is shown: by its two largest units, from
/// days down to seconds. A time that runs backwards is shown by the seconds
/// past its last full minute, with a minus sign.
pub open spec fn uptime_text(seconds: int) -> Seq<char> {
    if seconds < 0 {
        if (-seconds) % 60 == 0 {
            "0s"@
        } else {
            "-"@ + decimal_of_nat(((-seconds) % 60) as nat) + "s"@
        }
    } else if seconds / 86400 > 0 {
        decimal_of_nat((seconds / 86400) as nat) + "d "@ + decimal_of_nat(((seconds / 3600) % 24) as nat)
            + "h"@
    } else if seconds / 3600 > 0 {
        decimal_of_nat((seconds / 3600) as nat) + "h "@ + decimal_of_nat(((seconds / 60) % 60) as nat)
            + "m"@
    } else if seconds / 60 > 0 {
        decimal_of_nat((seconds / 60) as nat) + "m "@ + decimal_of_nat((seconds % 60) as nat) + "s"@
    } else {
        decimal_of_nat(seconds as nat) + "s"@
    }
}

/// Format uptime: the time that has passed since a process was started,
/// given in seconds.
pub fn format_uptime(elapsed_seconds: i64) -> (text: String)
    ensures
        text@ == uptime_text(elapsed_seconds as int),
{
    let mut text = String::new();
    if elapsed_seconds < 0 {
        let magnitude: u64 = if elapsed_seconds == i64::MIN {
            9223372036854775808u64
        } else {
            (-elapsed_seconds) as u64
        };
        let rest = magnitude % 60;
        if rest == 0 {
            push_text(&mut text, "0s");
        } else {
            push_text(&mut text, "-");
            push_decimal(&mut text, rest);
            push_text(&mut text, "s");
        }
        assert(text@ =~= uptime_text(elapsed_seconds as int));
        return text;
    }
    let total = elapsed_seconds as u64;
    let days = total / 86400;
    let hours = total / 3600;
    let minutes = total / 60;
    if days > 0 {
        push_decimal(&mut text, days);
        push_text(&mut text, "d ");
        push_decimal(&mut text, hours % 24);
        push_text(&mut text, "h");
    } else if hours > 0 {
        push_decimal(&mut text, hours);
        push_text(&mut text, "h ");
        push_decimal(&mut text, minutes % 60);
        push_text(&mut text, "m");
    } else if minutes > 0 {
        push_decimal(&mut text, minutes);
        push_text(&mut text, "m ");
        push_decimal(&mut text, total % 60);
        push_text(&mut text, "s");
    } else {
        push_decimal(&mut text, total);
        push_text(&mut text, "s");
    }
    assert(text@ =~= uptime_text(elapsed_seconds as int));
    text
}

} // verus!
