//! Filling in what a file's tags leave open.

use vstd::prelude::*;

verus! {

/// Extractor of track metadata.
pub struct MetadataExtractor;

/// What a picture embedded in a file shows.
#[derive(Clone, Copy, Debug, PartialEq, Eq, Structural)]
pub enum PictureKind {
    Other,
    Icon,
    OtherIcon,
    CoverFront,
    CoverBack,
    Leaflet,
    Media,
    LeadArtist,
    Artist,
    Conductor,
    Band,
    Composer,
    Lyricist,
    RecordingLocation,
    DuringRecording,
    DuringPerformance,
    ScreenCapture,
    BrightFish,
    Illustration,
    BandLogo,
    PublisherLogo,
    Undefined,
}

/// Rank of a picture as album art, the best first; `None` for kinds that
/// are never taken.
pub open spec fn art_rank(kind: PictureKind) -> Option<int> {
    match kind {
        PictureKind::CoverFront => Some(0),
        PictureKind::Media => Some(1),
        PictureKind::CoverBack => Some(2),
        PictureKind::Leaflet => Some(3),
        PictureKind::Other => Some(4),
        PictureKind::Icon => Some(5),
        PictureKind::OtherIcon => Some(6),
        PictureKind::Artist => Some(7),
        PictureKind::Band => Some(8),
        PictureKind::Composer => Some(9),
        PictureKind::Lyricist => Some(10),
        PictureKind::RecordingLocation => Some(11),
        PictureKind::DuringRecording => Some(12),
        PictureKind::DuringPerformance => Some(13),
        PictureKind::ScreenCapture => Some(14),
        PictureKind::BrightFish => Some(15),
        PictureKind::Illustration => Some(16),
        PictureKind::BandLogo => Some(17),
        PictureKind::PublisherLogo => Some(18),
        PictureKind::LeadArtist | PictureKind::Conductor | PictureKind::Undefined => None,
    }
}

/// Whether picture `i` is the album art among `kinds`: no picture ranks
/// better, and none of its rank comes before it.
pub open spec fn is_album_art(kinds: Seq<PictureKind>, i: int) -> bool {
    &&& 0 <= i < kinds.len()
    &&& art_rank(kinds[i]) is Some
    &&& forall|j: int|
        0 <= j < kinds.len() && art_rank(#[trigger] kinds[j]) is Some ==> art_rank(kinds[i])->Some_0
            <= art_rank(kinds[j])->Some_0
    &&& forall|j: int| 0 <= j < i ==> art_rank(#[trigger] kinds[j]) != art_rank(kinds[i])
}

/// Computes `art_rank`.
fn rank_of(kind: PictureKind) -> (rank: Option<u8>)
    ensures
        rank is Some <==> art_rank(kind) is Some,
        rank matches Some(r) ==> art_rank(kind) == Some(r as int),
{
    match kind {
        PictureKind::CoverFront => Some(0),
        PictureKind::Media => Some(1),
        PictureKind::CoverBack => Some(2),
        PictureKind::Leaflet => Some(3),
        PictureKind::Other => Some(4),
        PictureKind::Icon => Some(5),
        PictureKind::OtherIcon => Some(6),
        PictureKind::Artist => Some(7),
        PictureKind::Band => Some(8),
        PictureKind::Composer => Some(9),
        PictureKind::Lyricist => Some(10),
        PictureKind::RecordingLocation => Some(11),
        PictureKind::DuringRecording => Some(12),
        PictureKind::DuringPerformance => Some(13),
        PictureKind::ScreenCapture => Some(14),
        PictureKind::BrightFish => Some(15),
        PictureKind::Illustration => Some(16),
        PictureKind::BandLogo => Some(17),
        PictureKind::PublisherLogo => Some(18),
        PictureKind::LeadArtist | PictureKind::Conductor | PictureKind::Undefined => None,
    }
}

impl MetadataExtractor {
    /// Which of a tag's pictures serves as album art: the first of the
    /// best-ranked kind present, a front cover before anything else.  `None`
    /// where the tag holds no picture of a kind that is taken.
    pub fn select_picture(kinds: &[PictureKind]) -> (selected: Option<usize>)
        ensures
            selected is None <==> forall|j: int|
                0 <= j < kinds@.len() ==> art_rank(#[trigger] kinds@[j]) is None,
            selected matches Some(i) ==> is_album_art(kinds@, i as int),
    {
        let mut best: Option<(usize, u8)> = None;
        let mut i: usize = 0;
        while i < kinds.len()
            invariant
                i <= kinds@.len(),
                best is None <==> forall|j: int|
                    0 <= j < i ==> art_rank(#[trigger] kinds@[j]) is None,
                best matches Some((at, rank)) ==> {
                    &&& at < i
                    &&& art_rank(kinds@[at as int]) == Some(rank as int)
                    &&& forall|j: int|
                        0 <= j < i && art_rank(#[trigger] kinds@[j]) is Some ==> rank <= art_rank(
                            kinds@[j],
                        )->Some_0
                    &&& forall|j: int|
                        0 <= j < at ==> art_rank(#[trigger] kinds@[j]) != Some(rank as int)
                },
            decreases kinds@.len() - i,
        {
            match rank_of(kinds[i]) {
                Some(rank) => {
                    let better = match best {
                        Some((_, held)) => rank < held,
                        None => true,
                    };
                    if better {
                        best = Some((i, rank));
                    }
                },
                None => {},
            }
            i = i + 1;
        }
        match best {
            Some((at, _)) => Some(at),
            None => None,
        }
    }

    /// The title of a track: the tagged title, else the file's name without
    /// its extension, else `Unknown`.
    pub fn title_or_fallback(tagged: Option<String>, file_stem: Option<&str>) -> (title: String)
        ensures
            title@ == (match tagged {
                Some(text) => text@,
                None => match file_stem {
                    Some(stem) => stem@,
                    None => "Unknown"@,
                },
            }),
    {
        match tagged {
            Some(text) => text,
            None => match file_stem {
                Some(stem) => stem.to_owned(),
                None => "Unknown".to_owned(),
            },
        }
    }

    /// The format recorded for a file: its extension, else `unknown`.
    pub fn format_or_fallback(extension: Option<&str>) -> (format: String)
        ensures
            format@ == (match extension {
                Some(text) => text@,
                None => "unknown"@,
            }),
    {
        match extension {
            Some(text) => text.to_owned(),
            None => "unknown".to_owned(),
        }
    }
}

} // verus!
