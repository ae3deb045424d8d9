//! Reconciling one file: pristine content, its patch record if there is
//! one, and the local content if there is any.

use vstd::prelude::*;
use crate::content::{Content, ContentView};
use crate::diff::{
    apply_patch_text, create_patch_text, offsets_bounded, offsets_fit, recorded_diff, replayed,
    replays, short,
};
use crate::error::ErrorKind;
use crate::text::same_text;

verus! {

/// What to do for one file.
#[derive(Debug, Clone, PartialEq, Eq)]
pub enum Verdict {
    /// Nothing: the file has converged, or is a binary file with a local copy.
    Keep,
    /// Store this content at the target, which does not exist yet.
    Write(Content),
    /// Store this unified diff as the file's patch record.
    Record(String),
}

/// The mathematical value of a [`Verdict`].
pub enum VerdictView {
    Keep,
    Write(ContentView),
    Record(Seq<char>),
}

impl View for Verdict {
    type V = VerdictView;

    open spec fn view(&self) -> VerdictView {
        match self {
            Verdict::Keep => VerdictView::Keep,
            Verdict::Write(c) => VerdictView::Write(c@),
            Verdict::Record(d) => VerdictView::Record(d@),
        }
    }
}

/// The baseline of a text file: the pristine text with the patch record
/// replayed on it, or the pristine text itself where there is no record.
pub open spec fn baseline_of(pristine: Seq<char>, patch: Option<Seq<char>>) -> Result<
    Seq<char>,
    ErrorKind,
> {
    match patch {
        None => Ok(pristine),
        Some(p) => if offsets_bounded(p) && replayed(pristine, p) is Some {
            Ok(replayed(pristine, p)->0)
        } else {
            Err(ErrorKind::PatchApplyFailure)
        },
    }
}

/// Whether the diff from the pristine text to the local text can be
/// recorded: the numbers in its hunk headers must be short enough to be
/// replayed. Between short texts they always are.
pub open spec fn recordable(pristine: Seq<char>, local: Seq<char>) -> bool {
    (short(pristine) && short(local)) || offsets_bounded(recorded_diff(pristine, local))
}

/// The patch record for a local text that differs from the baseline: the
/// diff from the pristine text to the local text. A diff that could not
/// be replayed is not recorded.
pub open spec fn fresh_record(pristine: Seq<char>, local: Seq<char>) -> Result<
    VerdictView,
    ErrorKind,
> {
    if recordable(pristine, local) {
        Ok(VerdictView::Record(recorded_diff(pristine, local)))
    } else {
        Err(ErrorKind::PatchApplyFailure)
    }
}

/// The verdict on one file.
pub open spec fn verdict_of(
    pristine: ContentView,
    patch: Option<Seq<char>>,
    local: Option<ContentView>,
) -> Result<VerdictView, ErrorKind> {
    match pristine {
        ContentView::Binary(bytes) => match local {
            None => Ok(VerdictView::Write(pristine)),
            Some(_) => Ok(VerdictView::Keep),
        },
        ContentView::Text(text) => match baseline_of(text, patch) {
            Err(e) => Err(e),
            Ok(baseline) => match local {
                None => Ok(VerdictView::Write(ContentView::Text(baseline))),
                Some(ContentView::Binary(_)) => Err(ErrorKind::Filesystem),
                Some(ContentView::Text(current)) => if current == baseline {
                    Ok(VerdictView::Keep)
                } else {
                    fresh_record(text, current)
                },
            },
        },
    }
}

/// The patch record of the file once the verdict is carried out.
pub open spec fn patch_after(patch: Option<Seq<char>>, verdict: VerdictView) -> Option<Seq<char>> {
    match verdict {
        VerdictView::Record(d) => Some(d),
        _ => patch,
    }
}

/// The local content of the file once the verdict is carried out.
pub open spec fn local_after(local: Option<ContentView>, verdict: VerdictView) -> Option<
    ContentView,
> {
    match verdict {
        VerdictView::Write(c) => Some(c),
        _ => local,
    }
}

/// Every record in the verdict turns the pristine text into the local text.
pub open spec fn record_replays(
    pristine: ContentView,
    local: Option<ContentView>,
    verdict: VerdictView,
) -> bool {
    verdict matches VerdictView::Record(d) ==> {
        &&& pristine matches ContentView::Text(text)
        &&& local matches Some(ContentView::Text(current))
        &&& replays(text, d, current)
    }
}

/// Reconstructs the baseline of a text file.
pub fn baseline(pristine: &str, patch: Option<&str>) -> (r: Result<String, ErrorKind>)
    ensures
        match r {
            Ok(text) => baseline_of(pristine@, view_of(patch)) == Ok::<Seq<char>, ErrorKind>(text@),
            Err(e) => baseline_of(pristine@, view_of(patch)) == Err::<Seq<char>, ErrorKind>(e),
        },
{
    match patch {
        None => Ok(pristine.to_owned()),
        Some(p) => {
            if !offsets_fit(p) {
                return Err(ErrorKind::PatchApplyFailure);
            }
            match apply_patch_text(pristine, p) {
                Some(text) => Ok(text),
                None => Err(ErrorKind::PatchApplyFailure),
            }
        },
    }
}

/// The text of an optional string slice.
pub open spec fn view_of(text: Option<&str>) -> Option<Seq<char>> {
    match text {
        Some(t) => Some(t@),
        None => None,
    }
}

/// The content behind an optional reference.
pub open spec fn content_of(content: Option<&Content>) -> Option<ContentView> {
    match content {
        Some(c) => Some(c@),
        None => None,
    }
}

/// Makes a diff the verdict on a file: it is recorded if it can be
/// replayed, and refused otherwise.
pub fn record_of(diff: String) -> (r: Result<Verdict, ErrorKind>)
    ensures
        r matches Ok(v) ==> offsets_bounded(diff@) && v@ == VerdictView::Record(diff@),
        r matches Err(e) ==> !offsets_bounded(diff@) && e == ErrorKind::PatchApplyFailure,
{
    if offsets_fit(diff.as_str()) {
        Ok(Verdict::Record(diff))
    } else {
        Err(ErrorKind::PatchApplyFailure)
    }
}

/// Decides what to do for one file.
///
/// A binary file is copied once and never touched again. A text file that
/// is new locally gets its baseline. One whose local text equals the
/// baseline is left alone. Otherwise the local text stays, and the diff
/// from the pristine text to it becomes the patch record.
pub fn reconcile(pristine: &Content, patch: Option<&str>, local: Option<&Content>) -> (r: Result<
    Verdict,
    ErrorKind,
>)
    ensures
        match r {
            Ok(v) => verdict_of(pristine@, view_of(patch), content_of(local)) == Ok::<
                VerdictView,
                ErrorKind,
            >(v@),
            Err(e) => verdict_of(pristine@, view_of(patch), content_of(local)) == Err::<
                VerdictView,
                ErrorKind,
            >(e),
        },
        r matches Ok(v) ==> record_replays(pristine@, content_of(local), v@),
        r matches Ok(v) ==> verdict_of(
            pristine@,
            patch_after(view_of(patch), v@),
            local_after(content_of(local), v@),
        ) == Ok::<VerdictView, ErrorKind>(VerdictView::Keep),
{
    match pristine {
        Content::Binary(_) => match local {
            None => Ok(Verdict::Write(pristine.duplicate())),
            Some(_) => Ok(Verdict::Keep),
        },
        Content::Text(text) => {
            let base = match baseline(text.as_str(), patch) {
                Ok(b) => b,
                Err(e) => {
                    return Err(e);
                },
            };
            match local {
                None => Ok(Verdict::Write(Content::Text(base))),
                Some(Content::Binary(_)) => Err(ErrorKind::Filesystem),
                Some(Content::Text(current)) => {
                    if same_text(current.as_str(), base.as_str()) {
                        Ok(Verdict::Keep)
                    } else {
                        record_of(create_patch_text(text.as_str(), current.as_str()))
                    }
                },
            }
        },
    }
}

/// Reconciling a file again right after its verdict was carried out
/// changes nothing, provided that the record in the verdict replays.
pub proof fn lemma_reconcile_settles(
    pristine: ContentView,
    patch: Option<Seq<char>>,
    local: Option<ContentView>,
)
    requires
        verdict_of(pristine, patch, local) is Ok,
        record_replays(pristine, local, verdict_of(pristine, patch, local)->Ok_0),
    ensures
        verdict_of(
            pristine,
            patch_after(patch, verdict_of(pristine, patch, local)->Ok_0),
            local_after(local, verdict_of(pristine, patch, local)->Ok_0),
        ) == Ok::<VerdictView, ErrorKind>(VerdictView::Keep),
{
}

/// An update of the pristine text keeps the local edits: where the record
/// replays on the new pristine text, what it gives is the baseline. A file
/// that is missing locally gets it, a file that holds it is left alone, and
/// the record stays as it is.
pub proof fn lemma_record_carries_over(pristine: Seq<char>, record: Seq<char>, result: Seq<char>)
    requires
        replays(pristine, record, result),
    ensures
        baseline_of(pristine, Some(record)) == Ok::<Seq<char>, ErrorKind>(result),
        verdict_of(ContentView::Text(pristine), Some(record), None) == Ok::<
            VerdictView,
            ErrorKind,
        >(VerdictView::Write(ContentView::Text(result))),
        verdict_of(
            ContentView::Text(pristine),
            Some(record),
            Some(ContentView::Text(result)),
        ) == Ok::<VerdictView, ErrorKind>(VerdictView::Keep),
        patch_after(Some(record), VerdictView::Write(ContentView::Text(result))) == Some(record),
        patch_after(Some(record), VerdictView::Keep) == Some(record),
{
}

/// An update of the pristine text never drops the local edits in
/// silence: where the record does not replay on the new pristine text,
/// the file fails with `PatchApplyFailure`, whatever is there locally.
pub proof fn lemma_stale_record_fails(
    pristine: Seq<char>,
    record: Seq<char>,
    local: Option<ContentView>,
)
    requires
        replayed(pristine, record) is None,
    ensures
        verdict_of(ContentView::Text(pristine), Some(record), local) == Err::<
            VerdictView,
            ErrorKind,
        >(ErrorKind::PatchApplyFailure),
{
}

} // verus!
