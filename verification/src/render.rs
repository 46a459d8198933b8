//! Slide rendering: cache keys and manifests, offline HTML policy, renderers,
//! and the generation rules of the render service: only the newest requested
//! deck generation is rendered and presented.
pub mod browser;
pub mod cache;
pub mod capture;
pub mod pipeline;
pub mod sandbox;
pub mod svg;
pub mod svg_document;

use crate::render::cache::{CacheKey, RenderManifest};
use crate::text::{extend_chars, push_decimal, string_of};
use vstd::prelude::*;

verus! {

/// One render of one committed deck generation.
#[derive(Clone, Debug)]
pub struct RenderRequest {
    /// The committed deck generation captured under its deck lock.
    pub generation: u64,
    pub deck_identity: Vec<u8>,
    pub cache_key: CacheKey,
    pub html: String,
    pub slide_count: u32,
}

/// A finished render: the cache entry directory and its manifest.
#[derive(Clone, Debug)]
pub struct RenderProduct {
    pub directory: String,
    pub manifest: RenderManifest,
}

/// What the render service reports to the interface.
#[derive(Clone, Debug)]
pub enum RenderEvent {
    Started { generation: u64 },
    Done { generation: u64, product: RenderProduct },
    Failed { generation: u64, error: String },
}

/// The newest generation the render service has accepted. Requests older
/// than it are refused; requests for the same generation are allowed so a
/// refresh can render the same deck again.
#[derive(Clone, Copy, Debug)]
pub struct GenerationGate {
    latest: u64,
}

impl GenerationGate {
    /// The newest accepted generation.
    pub closed spec fn latest_spec(&self) -> u64 {
        self.latest
    }

    /// A gate that has accepted nothing (generation 0).
    pub fn new() -> (g: GenerationGate)
        ensures
            g.latest_spec() == 0,
    {
        GenerationGate { latest: 0 }
    }

    /// Accepts `generation` when it is not older than the newest accepted one,
    /// which it then becomes.
    pub fn request(&mut self, generation: u64) -> (accepted: bool)
        ensures
            accepted == (generation >= old(self).latest_spec()),
            accepted ==> final(self).latest_spec() == generation,
            !accepted ==> final(self).latest_spec() == old(self).latest_spec(),
            final(self).latest_spec() >= old(self).latest_spec(),
    {
        if generation < self.latest {
            false
        } else {
            self.latest = generation;
            true
        }
    }

    /// The newest accepted generation.
    pub fn latest_generation(&self) -> (g: u64)
        ensures
            g == self.latest_spec(),
    {
        self.latest
    }

    /// Whether a dequeued request is still worth rendering: it is not older
    /// than the newest accepted generation.
    pub fn should_render(&self, generation: u64) -> (r: bool)
        ensures
            r == (generation >= self.latest_spec()),
    {
        generation >= self.latest
    }
}

/// While one request waits, a newer or equal one replaces it; an older one
/// is dropped.
pub fn replaces_pending(pending: Option<u64>, incoming: u64) -> (r: bool)
    ensures
        r == match pending {
            None => true,
            Some(p) => incoming >= p,
        },
{
    match pending {
        None => true,
        Some(p) => incoming >= p,
    }
}

/// The message for a backend that rendered the wrong generation.
pub open spec fn mismatch_message(got: u64, wanted: u64) -> Seq<char> {
    "backend returned manifest generation "@ + crate::text::decimal(got as nat) + " for request "@
        + crate::text::decimal(wanted as nat)
}

/// The event for a finished render of `generation` when `latest` is the
/// newest accepted generation: nothing unless it is still the newest; `Done`
/// when the product is of that generation, else `Failed`.
pub fn completion_event(generation: u64, latest: u64, result: Result<RenderProduct, String>) -> (r: Option<RenderEvent>)
    ensures
        latest != generation ==> r is None,
        latest == generation ==> match result {
            Ok(p) => if p.manifest.generation == generation {
                r == Some(RenderEvent::Done { generation, product: p })
            } else {
                (r matches Some(RenderEvent::Failed { generation: g, error: e }) && g == generation && e@ == mismatch_message(p.manifest.generation, generation))
            },
            Err(e) => r == Some(RenderEvent::Failed { generation, error: e }),
        },
{
    if latest != generation {
        return None;
    }
    match result {
        Ok(p) => if p.manifest.generation == generation {
            Some(RenderEvent::Done { generation, product: p })
        } else {
            let mut m: Vec<char> = Vec::new();
            extend_chars(&mut m, "backend returned manifest generation ");
            push_decimal(&mut m, p.manifest.generation);
            extend_chars(&mut m, " for request ");
            push_decimal(&mut m, generation);
            Some(RenderEvent::Failed { generation, error: string_of(&m) })
        },
        Err(e) => Some(RenderEvent::Failed { generation, error: e }),
    }
}

} // verus!
