//! The timeline pane: playback of the stage's time range.

use super::rows::{
    button, readout, readout_view, row_views, section, section_views, slider, RowView, Section,
    SectionView,
};
use crate::stage::Scalar;
use crate::text::{decimal, number};
use vstd::prelude::*;

verus! {

/// The playback clock. Seconds are the bits of a double.
#[derive(Debug, Clone, Copy, PartialEq, Eq, Structural)]
pub struct Playback {
    pub playing: bool,
    pub seconds: u64,
}

/// The numbers of the clock as the pane prints them: frames per second with
/// one and with two decimals, the duration in seconds with one decimal and the
/// time code with three. `span` is the duration, at least a millisecond, as
/// the bits of a double.
#[derive(Debug)]
pub struct ClockTexts {
    pub fps_short: String,
    pub fps: String,
    pub duration: String,
    pub time_code: String,
    pub span: u64,
}

/// The summary of the clip.
pub open spec fn clip_summary(animated: nat, texts: ClockTexts) -> Seq<char> {
    decimal(animated) + " animated · "@ + texts.fps_short@ + " fps · "@ + texts.duration@ + "s"@
}

/// The section of the timeline pane.
pub open spec fn timeline_section(clock: Playback, animated: nat, texts: ClockTexts) -> SectionView {
    SectionView {
        id: "timeline"@,
        title: "Playback"@,
        icon: "clock"@,
        rows: seq![
            readout_view("clip"@, clip_summary(animated, texts)),
            RowView::Button(
                if clock.playing {
                    "Pause"@
                } else {
                    "Play"@
                },
            ),
            RowView::Button("Rewind"@),
            RowView::Slider {
                label: "Seconds"@,
                value: Scalar::F64(clock.seconds),
                low: 0,
                high: texts.span,
                digits: 3,
                unit: " s"@,
            },
            readout_view("timeCode"@, texts.time_code@),
            readout_view("fps"@, texts.fps@),
        ],
    }
}

/// What the timeline pane shows.
pub fn draw_timeline_panel(clock: Playback, animated: u64, texts: &ClockTexts) -> (r: Vec<Section>)
    ensures
        section_views(r@) == seq![timeline_section(clock, animated as nat, *texts)],
{
    let mut summary = number(animated);
    summary.append(" animated · ");
    summary.append(texts.fps_short.as_str());
    summary.append(" fps · ");
    summary.append(texts.duration.as_str());
    summary.append("s");
    let play = if clock.playing {
        "Pause"
    } else {
        "Play"
    };
    let rows = vec![
        readout("clip", summary.as_str()),
        button(play),
        button("Rewind"),
        slider("Seconds", Scalar::F64(clock.seconds), 0, texts.span, 3, " s"),
        readout("timeCode", texts.time_code.as_str()),
        readout("fps", texts.fps.as_str()),
    ];
    assert(row_views(rows@) =~= timeline_section(clock, animated as nat, *texts).rows);
    let sections = vec![section("timeline", "Playback", "clock", rows)];
    assert(section_views(sections@) =~= seq![timeline_section(clock, animated as nat, *texts)]);
    sections
}

/// The clock after the pane was used: play toggles, rewind goes to the start,
/// and a moved slider decides last.
pub fn playback_after(clock: Playback, play: bool, rewind: bool, moved: Option<u64>) -> (r: Playback)
    ensures
        r.playing == (if play {
            !clock.playing
        } else {
            clock.playing
        }),
        r.seconds == (match moved {
            Some(s) => s,
            None => if rewind {
                0
            } else {
                clock.seconds
            },
        }),
{
    let mut out = clock;
    if play {
        out.playing = !out.playing;
    }
    if rewind {
        out.seconds = 0;
    }
    if let Some(s) = moved {
        out.seconds = s;
    }
    out
}

} // verus!
