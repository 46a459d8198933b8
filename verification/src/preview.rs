//! The live preview around the render service: its capture height, which
//! file events mean the deck changed, and where each rendered slide lies.
use crate::path::{join, join_path, path_eq, paths_equal};
use crate::render::cache::RenderManifest;
use vstd::prelude::*;

verus! {

broadcast use vstd::string::group_string_axioms;

/// Previews are 16:9: the height for a preview `width` pixels wide, the
/// product saturating at `u32::MAX` before the division.
pub open spec fn preview_height_of(width: u32) -> u32 {
    if width * 9 > u32::MAX {
        (u32::MAX / 16) as u32
    } else {
        ((width * 9) / 16) as u32
    }
}

/// See `preview_height_of`.
pub fn preview_height(width: u32) -> (r: u32)
    ensures
        r == preview_height_of(width),
{
    if width > u32::MAX / 9 {
        u32::MAX / 16
    } else {
        width * 9 / 16
    }
}

/// What happened to a watched file.
#[derive(Clone, Copy, Debug, PartialEq, Eq, Structural)]
pub enum FileEventKind {
    Create,
    Modify,
    Remove,
    /// A read, open or close that changes nothing.
    Access,
    Other,
}

/// The paths of an event as text.
pub open spec fn texts(s: Seq<String>) -> Seq<Seq<char>> {
    s.map_values(|p: String| p@)
}

/// A file event means the deck changed when it creates, modifies or removes
/// a file and one of its paths is the deck.
pub open spec fn deck_changed(kind: FileEventKind, paths: Seq<Seq<char>>, deck: Seq<char>) -> bool {
    (kind == FileEventKind::Create || kind == FileEventKind::Modify || kind == FileEventKind::Remove)
        && exists|k: int| 0 <= k < paths.len() && path_eq(#[trigger] paths[k], deck)
}

/// See `deck_changed`.
pub fn deck_content_changed(kind: FileEventKind, paths: &Vec<String>, deck: &str) -> (r: bool)
    ensures
        r == deck_changed(kind, texts(paths@), deck@),
{
    let ghost ps = texts(paths@);
    if !(kind == FileEventKind::Create || kind == FileEventKind::Modify || kind == FileEventKind::Remove) {
        return false;
    }
    let mut k: usize = 0;
    while k < paths.len()
        invariant
            k <= paths@.len(),
            ps == texts(paths@),
            kind == FileEventKind::Create || kind == FileEventKind::Modify || kind == FileEventKind::Remove,
            forall|q: int| 0 <= q < k ==> !path_eq(#[trigger] ps[q], deck@),
        decreases paths.len() - k,
    {
        assert(ps[k as int] == paths@[k as int]@);
        if paths_equal(paths[k].as_str(), deck) {
            assert(path_eq(ps[k as int], deck@));
            return true;
        }
        k += 1;
    }
    false
}

/// One slide of a finished render: its zero-based position and image path.
#[derive(Clone, Debug, PartialEq, Eq)]
pub struct SlideRender {
    pub index: usize,
    pub image_path: String,
}

/// The slides of `manifest` under `directory`, in manifest order, each at
/// its one-based index less one.
pub fn slide_renders(directory: &str, manifest: &RenderManifest) -> (r: Vec<SlideRender>)
    ensures
        r@.len() == manifest.slides@.len(),
        forall|k: int|
            0 <= k < r@.len() ==> {
                &&& (#[trigger] r@[k]).index == if manifest.slides@[k].index >= 1 {
                    manifest.slides@[k].index - 1
                } else {
                    0
                }
                &&& r@[k].image_path@ == join(directory@, manifest.slides@[k].file@)
            },
{
    let mut r: Vec<SlideRender> = Vec::new();
    let mut k: usize = 0;
    while k < manifest.slides.len()
        invariant
            k <= manifest.slides@.len(),
            r@.len() == k,
            forall|q: int|
                0 <= q < k ==> {
                    &&& (#[trigger] r@[q]).index == if manifest.slides@[q].index >= 1 {
                        manifest.slides@[q].index - 1
                    } else {
                        0
                    }
                    &&& r@[q].image_path@ == join(directory@, manifest.slides@[q].file@)
                },
        decreases manifest.slides.len() - k,
    {
        let slide = &manifest.slides[k];
        let index = if slide.index >= 1 { (slide.index - 1) as usize } else { 0 };
        r.push(SlideRender { index, image_path: join_path(directory, slide.file.as_str()) });
        k += 1;
    }
    r
}

} // verus!
