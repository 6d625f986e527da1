//! The transcript of a session, built from the final utterances of each side.
use vstd::prelude::*;

use crate::text::{is_blank, trim, trimmed};

verus! {

#[derive(Debug, Clone, Copy, PartialEq, Eq, Structural)]
pub enum TranscriptSource {
    You,
    Others,
}

#[derive(Debug, Clone)]
pub struct TranscriptSegment {
    pub source: TranscriptSource,
    pub utterance: String,
    pub speaker_id: Option<String>,
    pub speaker_label: Option<String>,
}

/// What a segment says: who spoke, and the words.
pub struct SegmentView {
    pub source: TranscriptSource,
    pub utterance: Seq<char>,
    pub speaker_id: Option<Seq<char>>,
    pub speaker_label: Option<Seq<char>>,
}

pub open spec fn opt_chars(o: Option<String>) -> Option<Seq<char>> {
    match o {
        Some(s) => Some(s@),
        None => None,
    }
}

impl View for TranscriptSegment {
    type V = SegmentView;

    open spec fn view(&self) -> SegmentView {
        SegmentView {
            source: self.source,
            utterance: self.utterance@,
            speaker_id: opt_chars(self.speaker_id),
            speaker_label: opt_chars(self.speaker_label),
        }
    }
}

pub open spec fn segment_views(v: Seq<TranscriptSegment>) -> Seq<SegmentView> {
    v.map_values(|s: TranscriptSegment| s@)
}

/// The transcript so far: one segment per non-blank final utterance, in arrival order.
pub struct TranscriptAccumulator {
    segments: Vec<TranscriptSegment>,
}

impl View for TranscriptAccumulator {
    type V = Seq<SegmentView>;

    closed spec fn view(&self) -> Seq<SegmentView> {
        segment_views(self.segments@)
    }
}

/// The segment that a final utterance adds to the transcript, if any.
pub open spec fn final_segment(source: TranscriptSource, text: Seq<char>) -> Option<SegmentView> {
    if trimmed(text).len() == 0 {
        None
    } else {
        Some(
            SegmentView {
                source,
                utterance: trimmed(text),
                speaker_id: None,
                speaker_label: None,
            },
        )
    }
}

impl TranscriptAccumulator {
    pub fn new() -> (a: TranscriptAccumulator)
        ensures
            a@ == Seq::<SegmentView>::empty(),
    {
        let a = TranscriptAccumulator { segments: Vec::new() };
        assert(segment_views(a.segments@) =~= Seq::<SegmentView>::empty());
        a
    }

    /// Adds a final utterance, trimmed; a blank one adds nothing.
    pub fn push_final(&mut self, source: TranscriptSource, text: &str)
        ensures
            final(self)@ == match final_segment(source, text@) {
                Some(seg) => old(self)@.push(seg),
                None => old(self)@,
            },
    {
        if !is_blank(text) {
            let ghost before = self.segments@;
            self.segments.push(
                TranscriptSegment {
                    source,
                    utterance: trim(text),
                    speaker_id: None,
                    speaker_label: None,
                },
            );
            assert(segment_views(self.segments@) =~= segment_views(before).push(
                final_segment(source, text@)->0,
            ));
        }
    }

    /// Takes a transcript event of `source`: a final one is added as
    /// [`push_final`](Self::push_final) does; a partial one, still being spoken, is not
    /// recorded.
    pub fn push_transcript(&mut self, source: TranscriptSource, text: &str, is_final: bool)
        ensures
            is_final ==> final(self)@ == match final_segment(source, text@) {
                Some(seg) => old(self)@.push(seg),
                None => old(self)@,
            },
            !is_final ==> final(self)@ == old(self)@,
    {
        if is_final {
            self.push_final(source, text);
        }
    }

    /// Adds a final utterance as [`push_final`](Self::push_final) does, and tells the
    /// position of the segment it added, if any.
    pub fn record_final(&mut self, source: TranscriptSource, text: &str) -> (r: Option<usize>)
        ensures
            final(self)@ == match final_segment(source, text@) {
                Some(seg) => old(self)@.push(seg),
                None => old(self)@,
            },
            match r {
                Some(i) => final_segment(source, text@) is Some && i == old(self)@.len(),
                None => final_segment(source, text@) is None,
            },
    {
        let before = self.segments.len();
        assert(segment_views(self.segments@).len() == self.segments@.len());
        self.push_final(source, text);
        assert(segment_views(self.segments@).len() == self.segments@.len());
        if self.segments.len() > before {
            Some(before)
        } else {
            None
        }
    }

    pub fn is_empty(&self) -> (r: bool)
        ensures
            r == (self@.len() == 0),
    {
        self.segments.len() == 0
    }

    pub fn segments(&self) -> (s: &[TranscriptSegment])
        ensures
            segment_views(s@) == self@,
    {
        self.segments.as_slice()
    }

    pub fn into_segments(self) -> (v: Vec<TranscriptSegment>)
        ensures
            segment_views(v@) == self@,
    {
        self.segments
    }
}

impl Default for TranscriptAccumulator {
    fn default() -> (a: TranscriptAccumulator)
        ensures
            a@ == Seq::<SegmentView>::empty(),
    {
        TranscriptAccumulator::new()
    }
}

} // verus!
