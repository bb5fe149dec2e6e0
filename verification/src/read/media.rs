//! `UsdMedia.SpatialAudio`: sound-source metadata.

use super::util::{
    as_asset, as_text, as_time, asset_at, first_error, first_problem, probe_views, text_at, time_at,
};
use crate::stage::{Scalar, Stage};
use crate::text::opt_view;
use vstd::prelude::*;

verus! {

#[derive(Debug)]
pub struct ReadSpatialAudio {
    pub file_path: Option<String>,
    pub aural_mode: Option<String>,
    pub playback_mode: Option<String>,
    pub start_time: Option<Scalar>,
    pub end_time: Option<Scalar>,
    pub media_offset: Option<Scalar>,
    pub gain: Option<Scalar>,
}

/// The properties of a sound source, in the order they are read.
pub open spec fn audio_properties() -> Seq<(bool, Seq<char>)> {
    seq![
        (false, "filePath"@),
        (false, "auralMode"@),
        (false, "playbackMode"@),
        (false, "startTime"@),
        (false, "endTime"@),
        (false, "mediaOffset"@),
        (false, "gain"@),
    ]
}

/// The record holds what the properties decode to.
pub open spec fn audio_decodes(stage: Stage, prim: Seq<char>, a: ReadSpatialAudio) -> bool {
    &&& opt_view(a.file_path) == as_asset(stage.value_of(prim, "filePath"@))
    &&& opt_view(a.aural_mode) == as_text(stage.value_of(prim, "auralMode"@))
    &&& opt_view(a.playback_mode) == as_text(stage.value_of(prim, "playbackMode"@))
    &&& a.start_time == as_time(stage.value_of(prim, "startTime"@))
    &&& a.end_time == as_time(stage.value_of(prim, "endTime"@))
    &&& a.media_offset == as_time(stage.value_of(prim, "mediaOffset"@))
    &&& a.gain == as_time(stage.value_of(prim, "gain"@))
}

/// Something besides a media offset is authored.
pub open spec fn has_audio(stage: Stage, prim: Seq<char>) -> bool {
    ||| as_asset(stage.value_of(prim, "filePath"@)) is Some
    ||| as_text(stage.value_of(prim, "auralMode"@)) is Some
    ||| as_text(stage.value_of(prim, "playbackMode"@)) is Some
    ||| as_time(stage.value_of(prim, "startTime"@)) is Some
    ||| as_time(stage.value_of(prim, "endTime"@)) is Some
    ||| as_time(stage.value_of(prim, "gain"@)) is Some
}

/// The sound source at `prim`; `None` where nothing but a media offset is
/// authored.
pub fn read_spatial_audio(stage: &Stage, prim: &str) -> (r: Result<
    Option<ReadSpatialAudio>,
    String,
>)
    ensures
        match first_problem(*stage, prim@, audio_properties()) {
            Some(e) => r matches Err(text) && text@ == e,
            None => if has_audio(*stage, prim@) {
                r matches Ok(Some(a)) && audio_decodes(*stage, prim@, a)
            } else {
                r == Ok::<Option<ReadSpatialAudio>, String>(None)
            },
        },
{
    let properties = vec![
        (false, "filePath"),
        (false, "auralMode"),
        (false, "playbackMode"),
        (false, "startTime"),
        (false, "endTime"),
        (false, "mediaOffset"),
        (false, "gain"),
    ];
    assert(probe_views(properties@) =~= audio_properties());
    if let Some(e) = first_error(stage, prim, &properties) {
        return Err(e);
    }
    let read = ReadSpatialAudio {
        file_path: asset_at(stage, prim, "filePath"),
        aural_mode: text_at(stage, prim, "auralMode"),
        playback_mode: text_at(stage, prim, "playbackMode"),
        start_time: time_at(stage, prim, "startTime"),
        end_time: time_at(stage, prim, "endTime"),
        media_offset: time_at(stage, prim, "mediaOffset"),
        gain: time_at(stage, prim, "gain"),
    };
    if read.file_path.is_none() && read.aural_mode.is_none() && read.playback_mode.is_none()
        && read.start_time.is_none() && read.end_time.is_none() && read.gain.is_none() {
        return Ok(None);
    }
    Ok(Some(read))
}

} // verus!
