//! Speakers of a session's transcript: who spoke, under which label, and relabelling them.
use vstd::prelude::*;

use crate::accumulate::{opt_chars, segment_views, SegmentView, TranscriptSegment};
use crate::keyed::str_eq;
use crate::reply_router::clone_opt;
use crate::text::{is_blank, trim, trimmed};

verus! {

/// A speaker of a session, with the label the transcript gives them.
#[derive(Debug, Clone)]
pub struct SessionSpeaker {
    pub speaker_id: String,
    pub speaker_label: Option<String>,
}

pub open spec fn speaker_views(v: Seq<SessionSpeaker>) -> Seq<(Seq<char>, Option<Seq<char>>)> {
    v.map_values(|s: SessionSpeaker| (s.speaker_id@, opt_chars(s.speaker_label)))
}

pub open spec fn speaker_ids(v: Seq<(Seq<char>, Option<Seq<char>>)>) -> Seq<Seq<char>> {
    v.map_values(|p: (Seq<char>, Option<Seq<char>>)| p.0)
}

/// The speakers of a transcript, in order of their first segment; each with the label of
/// the first of their segments that has one.
pub open spec fn speakers_of(segs: Seq<SegmentView>) -> Seq<(Seq<char>, Option<Seq<char>>)>
    decreases segs.len(),
{
    if segs.len() == 0 {
        Seq::empty()
    } else {
        let prev = speakers_of(segs.drop_last());
        let seg = segs.last();
        match seg.speaker_id {
            None => prev,
            Some(id) => if speaker_ids(prev).contains(id) {
                let i = speaker_ids(prev).index_of(id);
                if prev[i].1 is None {
                    prev.update(i, (id, seg.speaker_label))
                } else {
                    prev
                }
            } else {
                prev.push((id, seg.speaker_label))
            },
        }
    }
}

fn copy_segment(s: &TranscriptSegment) -> (r: TranscriptSegment)
    ensures
        r@ == s@,
{
    TranscriptSegment {
        source: s.source,
        utterance: s.utterance.clone(),
        speaker_id: clone_opt(&s.speaker_id),
        speaker_label: clone_opt(&s.speaker_label),
    }
}

/// The speakers of a session's transcript.
pub fn session_speakers(segments: &[TranscriptSegment]) -> (r: Vec<SessionSpeaker>)
    ensures
        speaker_views(r@) == speakers_of(segment_views(segments@)),
{
    let mut speakers: Vec<SessionSpeaker> = Vec::new();
    let ghost segs = segment_views(segments@);
    let mut i: usize = 0;
    while i < segments.len()
        invariant
            i <= segments@.len(),
            segs == segment_views(segments@),
            speaker_views(speakers@) == speakers_of(segs.take(i as int)),
            speaker_ids(speaker_views(speakers@)).no_duplicates(),
        decreases segments.len() - i,
    {
        assert(segs.take(i + 1).drop_last() =~= segs.take(i as int));
        assert(segs.take(i + 1).last() == segments@[i as int]@);
        let ghost before = speaker_views(speakers@);
        if let Some(id) = &segments[i].speaker_id {
            let mut j: usize = 0;
            while j < speakers.len() && !str_eq(speakers[j].speaker_id.as_str(), id.as_str())
                invariant
                    j <= speakers.len(),
                    before == speaker_views(speakers@),
                    forall|k: int| 0 <= k < j ==> speakers@[k].speaker_id@ != id@,
                decreases speakers.len() - j,
            {
                j += 1;
            }
            let ghost ids = speaker_ids(before);
            if j < speakers.len() {
                assert(ids[j as int] == id@);
                assert(ids.contains(id@));
                assert(ids.index_of(id@) == j) by {
                    let k = ids.index_of(id@);
                    assert(ids[k] == id@);
                    if k != j {
                        assert(ids.no_duplicates());
                    }
                }
                if speakers[j].speaker_label.is_none() {
                    let updated = SessionSpeaker {
                        speaker_id: speakers[j].speaker_id.clone(),
                        speaker_label: clone_opt(&segments[i].speaker_label),
                    };
                    speakers.set(j, updated);
                    assert(speaker_views(speakers@) =~= before.update(
                        j as int,
                        (id@, opt_chars(segments@[i as int].speaker_label)),
                    ));
                    assert(speaker_ids(speaker_views(speakers@)) =~= ids);
                }
            } else {
                assert(!ids.contains(id@)) by {
                    if ids.contains(id@) {
                        let k = ids.index_of(id@);
                        assert(speakers@[k].speaker_id@ == id@);
                    }
                }
                speakers.push(
                    SessionSpeaker {
                        speaker_id: id.clone(),
                        speaker_label: clone_opt(&segments[i].speaker_label),
                    },
                );
                assert(speaker_views(speakers@) =~= before.push(
                    (id@, opt_chars(segments@[i as int].speaker_label)),
                ));
                assert(speaker_ids(speaker_views(speakers@)) =~= ids.push(id@));
                proof {
                    crate::keyed::lemma_push_fresh(ids, id@);
                }
            }
        }
        i += 1;
    }
    assert(segs.take(segments@.len() as int) =~= segs);
    speakers
}

/// A segment of `speaker_id` takes `label`; any other stays as it is.
pub open spec fn relabelled(s: SegmentView, speaker_id: Seq<char>, label: Option<Seq<char>>) -> SegmentView {
    if s.speaker_id == Some(speaker_id) {
        SegmentView { speaker_label: label, ..s }
    } else {
        s
    }
}

/// Relabelling changes this segment.
pub open spec fn label_changes(s: SegmentView, speaker_id: Seq<char>, label: Option<Seq<char>>) -> bool {
    s.speaker_id == Some(speaker_id) && s.speaker_label != label
}

pub open spec fn opt_str_chars(o: Option<&str>) -> Option<Seq<char>> {
    match o {
        Some(s) => Some(s@),
        None => None,
    }
}

/// Gives every segment of `speaker_id` the label `label`; tells whether any segment changed.
pub fn relabel_segments(segments: &mut Vec<TranscriptSegment>, speaker_id: &str, label: Option<&str>) -> (changed: bool)
    ensures
        final(segments)@.len() == old(segments)@.len(),
        forall|i: int| 0 <= i < old(segments)@.len() ==> #[trigger] final(segments)@[i]@ == relabelled(
            old(segments)@[i]@,
            speaker_id@,
            opt_str_chars(label),
        ),
        changed == exists|i: int| 0 <= i < old(segments)@.len() && #[trigger] label_changes(
            old(segments)@[i]@,
            speaker_id@,
            opt_str_chars(label),
        ),
{
    let ghost original = segments@;
    let mut changed = false;
    let mut i: usize = 0;
    while i < segments.len()
        invariant
            i <= segments@.len(),
            segments@.len() == original.len(),
            forall|k: int| 0 <= k < i ==> #[trigger] segments@[k]@ == relabelled(
                original[k]@,
                speaker_id@,
                opt_str_chars(label),
            ),
            forall|k: int| i <= k < segments@.len() ==> #[trigger] segments@[k] == original[k],
            changed == exists|k: int| 0 <= k < i && #[trigger] label_changes(
                original[k]@,
                speaker_id@,
                opt_str_chars(label),
            ),
        decreases segments.len() - i,
    {
        let same_speaker = match &segments[i].speaker_id {
            Some(id) => str_eq(id.as_str(), speaker_id),
            None => false,
        };
        if same_speaker {
            let next: Option<String> = match label {
                Some(l) => Some(l.to_owned()),
                None => None,
            };
            let differs = match (&segments[i].speaker_label, &next) {
                (Some(a), Some(b)) => !str_eq(a.as_str(), b.as_str()),
                (None, None) => false,
                _ => true,
            };
            proof {
                assert(differs == label_changes(original[i as int]@, speaker_id@, opt_str_chars(label)));
                if differs {
                    assert(label_changes(original[i as int]@, speaker_id@, opt_str_chars(label)));
                }
            }
            if differs {
                let old_seg = copy_segment(&segments[i]);
                let seg = TranscriptSegment { speaker_label: next, ..old_seg };
                segments.set(i, seg);
                changed = true;
            }
        }
        proof {
            if !same_speaker {
                assert(!label_changes(original[i as int]@, speaker_id@, opt_str_chars(label)));
            }
        }
        i += 1;
    }
    changed
}

/// A speaker given to the segment at `index`.
#[derive(Debug, Clone)]
pub struct SpeakerAssignment {
    pub index: usize,
    pub speaker_id: String,
    pub speaker_label: Option<String>,
}

/// The segments after each assignment in turn (one past the end changes nothing).
pub open spec fn assigned(segs: Seq<SegmentView>, asg: Seq<SpeakerAssignment>) -> Seq<SegmentView>
    decreases asg.len(),
{
    if asg.len() == 0 {
        segs
    } else {
        let prev = assigned(segs, asg.drop_last());
        let a = asg.last();
        if a.index < prev.len() {
            prev.update(
                a.index as int,
                SegmentView {
                    speaker_id: Some(a.speaker_id@),
                    speaker_label: opt_chars(a.speaker_label),
                    ..prev[a.index as int]
                },
            )
        } else {
            prev
        }
    }
}

proof fn lemma_assigned_len(segs: Seq<SegmentView>, asg: Seq<SpeakerAssignment>)
    ensures
        assigned(segs, asg).len() == segs.len(),
    decreases asg.len(),
{
    if asg.len() > 0 {
        lemma_assigned_len(segs, asg.drop_last());
    }
}

/// Gives the segments the speakers a diarizer assigned them, in order.
pub fn apply_assignments(segments: &mut Vec<TranscriptSegment>, assignments: Vec<SpeakerAssignment>)
    ensures
        segment_views(final(segments)@) == assigned(segment_views(old(segments)@), assignments@),
{
    let ghost start = segment_views(segments@);
    let mut k: usize = 0;
    assert(assignments@.take(0) =~= Seq::<SpeakerAssignment>::empty());
    while k < assignments.len()
        invariant
            k <= assignments@.len(),
            segment_views(segments@) == assigned(start, assignments@.take(k as int)),
        decreases assignments.len() - k,
    {
        assert(assignments@.take(k + 1).drop_last() =~= assignments@.take(k as int));
        assert(assignments@.take(k + 1).last() == assignments@[k as int]);
        let a = &assignments[k];
        if a.index < segments.len() {
            let ghost before = segment_views(segments@);
            let old_seg = copy_segment(&segments[a.index]);
            let seg = TranscriptSegment {
                speaker_id: Some(a.speaker_id.clone()),
                speaker_label: clone_opt(&a.speaker_label),
                ..old_seg
            };
            segments.set(a.index, seg);
            assert(segment_views(segments@) =~= before.update(
                a.index as int,
                SegmentView {
                    speaker_id: Some(a.speaker_id@),
                    speaker_label: opt_chars(a.speaker_label),
                    ..before[a.index as int]
                },
            ));
        }
        k += 1;
    }
    assert(assignments@.take(assignments@.len() as int) =~= assignments@);
}

/// A speaker label as stored: trimmed, none when blank.
pub fn normalize_label(label: Option<String>) -> (r: Option<String>)
    ensures
        opt_chars(r) == match opt_chars(label) {
            Some(l) => if trimmed(l).len() == 0 {
                None
            } else {
                Some(trimmed(l))
            },
            None => None,
        },
{
    match label {
        Some(l) => if is_blank(l.as_str()) {
            None
        } else {
            Some(trim(l.as_str()))
        },
        None => None,
    }
}

} // verus!
