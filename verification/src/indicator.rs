use vstd::prelude::*;
use vstd::string::*;

use crate::status::{CompileStatus, StatusView};
use crate::text::{decimal, decimal_spec};

verus! {

/// The colour of the status lamp.
#[derive(Debug, Clone, Copy, PartialEq, Eq, Structural)]
pub enum Led {
    /// A grey of the given level.
    Gray(u8),
    /// The blue `(0, 150, 255)`, pulsing with time.
    PulsingBlue,
    /// A fixed colour.
    Rgb(u8, u8, u8),
}

/// How the status text is drawn.
#[derive(Debug, Clone, Copy, PartialEq, Eq, Structural)]
pub enum LabelStyle {
    /// Dimmed text.
    Weak,
    /// Small text.
    Small,
    /// Text in the given colour.
    Colored(u8, u8, u8),
}

/// What the status indicator draws for a compile status.
pub struct Indicator {
    pub led: Led,
    pub label: String,
    pub style: LabelStyle,
    /// Text shown when the pointer rests on the label.
    pub hover: Option<String>,
    /// The indicator changes over time, so the view must keep repainting.
    pub animated: bool,
}

/// What the indicator shows for `status`: lamp, text, text style, hover text
/// and whether it animates.
pub open spec fn indicator_spec(status: StatusView) -> (Led, Seq<char>, LabelStyle, Option<Seq<char>>, bool) {
    match status {
        StatusView::Idle => (Led::Gray(100), "Ready"@, LabelStyle::Weak, None, false),
        StatusView::Compiling { current_file, progress } => (
            Led::PulsingBlue,
            "["@ + decimal_spec(progress) + "] Indexing: "@ + current_file,
            LabelStyle::Small,
            None,
            true,
        ),
        StatusView::Success => (Led::Rgb(50, 200, 50), "Active"@, LabelStyle::Colored(50, 200, 50), None, false),
        StatusView::Error(msg) => (
            Led::Rgb(220, 50, 50),
            "Error"@,
            LabelStyle::Colored(220, 50, 50),
            Some(msg),
            false,
        ),
    }
}

/// The abstract value of an `Indicator`.
pub open spec fn indicator_view(i: Indicator) -> (Led, Seq<char>, LabelStyle, Option<Seq<char>>, bool) {
    (
        i.led,
        i.label@,
        i.style,
        match i.hover {
            Some(h) => Some(h@),
            None => None,
        },
        i.animated,
    )
}

/// Chooses what the status indicator draws.
pub fn status_indicator(status: &CompileStatus) -> (r: Indicator)
    ensures
        indicator_view(r) == indicator_spec(status@),
{
    match status {
        CompileStatus::Idle => Indicator {
            led: Led::Gray(100),
            label: String::from_str("Ready"),
            style: LabelStyle::Weak,
            hover: None,
            animated: false,
        },
        CompileStatus::Compiling { current_file, progress } => {
            let count = decimal(*progress);
            let label = String::from_str("[").concat(count.as_str()).concat("] Indexing: ").concat(
                current_file.as_str(),
            );
            Indicator { led: Led::PulsingBlue, label, style: LabelStyle::Small, hover: None, animated: true }
        },
        CompileStatus::Success => Indicator {
            led: Led::Rgb(50, 200, 50),
            label: String::from_str("Active"),
            style: LabelStyle::Colored(50, 200, 50),
            hover: None,
            animated: false,
        },
        CompileStatus::Error(msg) => Indicator {
            led: Led::Rgb(220, 50, 50),
            label: String::from_str("Error"),
            style: LabelStyle::Colored(220, 50, 50),
            hover: Some(msg.clone()),
            animated: false,
        },
    }
}

} // verus!
