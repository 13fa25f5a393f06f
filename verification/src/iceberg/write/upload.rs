//! Uploading files, large ones in parts.

use vstd::prelude::*;
use vstd::string::*;

verus! {

/// Minimum file size uploaded as S3 multipart.
///
/// Below this everything (manifests, metadata, small and delete files) keeps the single-shot
/// `put()`: one request is cheaper and cannot strand parts. At or above it the file goes up in
/// `MULTIPART_PART_SIZE` parts, each retried independently, so a mid-upload reset re-sends one
/// part instead of the whole file.
pub const MULTIPART_PUT_THRESHOLD: u64 = 134217728;

/// Part size for multipart uploads: far above S3's 5 MB minimum, so a 512 MB file completes in
/// 8 parts with per-part restart on failure.
pub const MULTIPART_PART_SIZE: usize = 67108864;

/// Whether a file of the given size is uploaded in parts.
pub fn use_multipart_put(size: u64) -> (parts: bool)
    ensures
        parts <==> size >= MULTIPART_PUT_THRESHOLD,
{
    size >= MULTIPART_PUT_THRESHOLD
}

/// Parts of a content, by where they begin and end: all are of the given size, but for the
/// last, which may be shorter.
pub open spec fn is_part_list(parts: Seq<(usize, usize)>, len: int, part_size: int) -> bool {
    &&& parts.len() > 0
    &&& forall|i: int|
        #![trigger parts[i]]
        0 <= i < parts.len() ==> parts[i].0 == i * part_size && parts[i].1 == (if i < parts.len()
            - 1 {
            (i + 1) * part_size
        } else {
            len
        }) && parts[i].0 < parts[i].1 <= parts[i].0 + part_size
}

/// There is nothing to upload.
#[derive(Debug, Clone, Copy, PartialEq, Eq, Structural)]
pub struct EmptyContent;

impl EmptyContent {
    pub fn message(&self) -> (text: String)
        ensures
            text@ == "multipart upload requires non-empty content"@,
    {
        "multipart upload requires non-empty content".to_owned()
    }
}

/// The parts in which a content is uploaded, by where they begin and end.
pub fn upload_parts(len: usize, part_size: usize) -> (parts: Result<Vec<(usize, usize)>, EmptyContent>)
    requires
        part_size > 0,
    ensures
        match parts {
            Ok(p) => len > 0 && is_part_list(p@, len as int, part_size as int),
            Err(_) => len == 0,
        },
{
    if len == 0 {
        return Err(EmptyContent);
    }
    let mut parts: Vec<(usize, usize)> = Vec::new();
    let mut from: usize = 0;
    assert(0 * part_size == 0) by (nonlinear_arith);
    while from < len
        invariant
            part_size > 0,
            from <= len,
            from < len ==> from == parts@.len() * part_size,
            from == len ==> parts@.len() > 0,
            forall|i: int|
                #![trigger parts@[i]]
                0 <= i < parts@.len() ==> parts@[i].0 == i * part_size && parts@[i].1 == (if i
                    < parts@.len() - 1 {
                    (i + 1) * part_size
                } else {
                    from as int
                }) && parts@[i].0 < parts@[i].1 <= parts@[i].0 + part_size,
        decreases len - from,
    {
        let take: usize = if len - from < part_size {
            len - from
        } else {
            part_size
        };
        let ghost before = parts@;
        parts.push((from, from + take));
        proof {
            let n = before.len() as int;
            assert((n + 1) * part_size == n * part_size + part_size) by (nonlinear_arith);
            assert forall|i: int|
                #![trigger parts@[i]]
                0 <= i < parts@.len() implies parts@[i].0 == i * part_size && parts@[i].1 == (if i
                < parts@.len() - 1 {
                (i + 1) * part_size
            } else {
                from + take
            }) && parts@[i].0 < parts@[i].1 <= parts@[i].0 + part_size by {
                if i < n {
                    assert(parts@[i] == before[i]);
                    if i == n - 1 {
                        assert(before[i].1 == from);
                    }
                }
            }
        }
        from = from + take;
    }
    Ok(parts)
}

/// The content of parts, one after the other.
pub open spec fn joined_parts(content: Seq<u8>, parts: Seq<(usize, usize)>) -> Seq<u8>
    decreases parts.len(),
{
    if parts.len() == 0 {
        Seq::empty()
    } else {
        joined_parts(content, parts.drop_last()) + content.subrange(
            parts.last().0 as int,
            parts.last().1 as int,
        )
    }
}

proof fn lemma_joined_prefix(content: Seq<u8>, parts: Seq<(usize, usize)>, part_size: int, n: int)
    requires
        part_size > 0,
        is_part_list(parts, content.len() as int, part_size),
        0 < n <= parts.len(),
    ensures
        joined_parts(content, parts.take(n)) == content.take(parts[n - 1].1 as int),
        parts[n - 1].1 <= content.len(),
    decreases n,
{
    let last = parts[n - 1];
    assert(last.1 <= content.len()) by {
        let end = parts[parts.len() - 1];
        if n < parts.len() {
            assert(n * part_size <= (parts.len() - 1) * part_size) by (nonlinear_arith)
                requires
                    n <= parts.len() - 1,
                    part_size > 0,
            ;
            assert(end.0 == (parts.len() - 1) * part_size);
            assert(end.0 < end.1);
        }
    }
    assert(parts.take(n).last() == last);
    if n == 1 {
        assert(parts.take(1).drop_last() =~= Seq::<(usize, usize)>::empty());
        assert(joined_parts(content, parts.take(1).drop_last()) =~= Seq::<u8>::empty());
        assert(last.0 == 0) by {
            assert(parts[0].0 == 0 * part_size);
        }
        assert(joined_parts(content, parts.take(1)) =~= content.take(last.1 as int));
    } else {
        assert(parts.take(n).drop_last() =~= parts.take(n - 1));
        lemma_joined_prefix(content, parts, part_size, n - 1);
        let before = parts[n - 2];
        assert(before.1 == (n - 1) * part_size);
        assert(last.0 == (n - 1) * part_size);
        assert(joined_parts(content, parts.take(n)) =~= content.take(last.1 as int));
    }
}

/// The parts of a content make up the content.
pub proof fn law_parts_make_up_the_content(
    content: Seq<u8>,
    parts: Seq<(usize, usize)>,
    part_size: int,
)
    requires
        part_size > 0,
        is_part_list(parts, content.len() as int, part_size),
    ensures
        joined_parts(content, parts) == content,
{
    let n = parts.len() as int;
    lemma_joined_prefix(content, parts, part_size, n);
    assert(parts.take(n) =~= parts);
    assert(content.take(content.len() as int) =~= content);
}

/// How far an upload in parts is.
#[derive(Debug, Clone, Copy, PartialEq, Eq, Structural)]
pub enum UploadPhase {
    SendingParts,
    Completing,
    /// The upload is given up, and what was sent is removed.
    Aborting,
    Ended,
}

/// What to do next.
#[derive(Debug, Clone, Copy, PartialEq, Eq, Structural)]
pub enum UploadAction {
    Complete,
    Abort,
    /// The upload has gone through.
    Succeed,
    /// The upload has failed, with the error that was met first.
    Fail,
}

/// What comes next. The upload is completed only when every part was sent; a failure before
/// that, or of the completion, gives it up.
pub open spec fn upload_step(phase: UploadPhase, succeeded: bool) -> (UploadPhase, UploadAction) {
    match phase {
        UploadPhase::SendingParts => if succeeded {
            (UploadPhase::Completing, UploadAction::Complete)
        } else {
            (UploadPhase::Aborting, UploadAction::Abort)
        },
        UploadPhase::Completing => if succeeded {
            (UploadPhase::Ended, UploadAction::Succeed)
        } else {
            (UploadPhase::Aborting, UploadAction::Abort)
        },
        _ => (UploadPhase::Ended, UploadAction::Fail),
    }
}

/// What to do next, given whether the last thing done went through. Whether giving up went
/// through does not matter.
pub fn next_upload_step(phase: UploadPhase, succeeded: bool) -> (next: (UploadPhase, UploadAction))
    ensures
        next == upload_step(phase, succeeded),
{
    match phase {
        UploadPhase::SendingParts => {
            if succeeded {
                (UploadPhase::Completing, UploadAction::Complete)
            } else {
                (UploadPhase::Aborting, UploadAction::Abort)
            }
        },
        UploadPhase::Completing => {
            if succeeded {
                (UploadPhase::Ended, UploadAction::Succeed)
            } else {
                (UploadPhase::Aborting, UploadAction::Abort)
            }
        },
        _ => (UploadPhase::Ended, UploadAction::Fail),
    }
}

/// A failed upload is always given up: no way leads to a failure but through removing what was
/// sent, and none leads to success but through a completion that went through.
pub proof fn law_failed_uploads_are_aborted(phase: UploadPhase, succeeded: bool)
    requires
        !(phase is Ended),
    ensures
        upload_step(phase, succeeded).1 is Fail ==> phase is Aborting,
        upload_step(phase, succeeded).1 is Succeed ==> phase is Completing && succeeded,
        !succeeded && !(phase is Aborting) ==> upload_step(phase, succeeded).1 is Abort,
{
}

/// An upload that nothing disturbs is completed and succeeds; one that is given up fails.
pub proof fn law_undisturbed_uploads_succeed(succeeded: bool)
    ensures
        ({
            let sent = upload_step(UploadPhase::SendingParts, true);
            let completed = upload_step(sent.0, true);
            let refused = upload_step(sent.0, false);
            let unsent = upload_step(UploadPhase::SendingParts, false);
            &&& sent.1 is Complete
            &&& completed.1 is Succeed
            &&& completed.0 is Ended
            &&& refused.1 is Abort
            &&& unsent.1 is Abort
            &&& upload_step(refused.0, succeeded) == (UploadPhase::Ended, UploadAction::Fail)
            &&& upload_step(unsent.0, succeeded) == (UploadPhase::Ended, UploadAction::Fail)
        }),
{
}

/// Only nothing cannot be uploaded; all else is, from its first byte to its last.
pub proof fn law_all_content_is_uploaded(
    len: usize,
    part_size: usize,
    parts: Result<Vec<(usize, usize)>, EmptyContent>,
)
    requires
        part_size > 0,
        call_ensures(upload_parts, (len, part_size), parts),
    ensures
        parts is Err <==> len == 0,
        parts matches Ok(p) ==> p@.len() > 0 && p@[0].0 == 0 && p@.last().1 == len,
{
    if parts is Ok {
        let p = parts->Ok_0@;
        assert(p[0].0 == 0 * part_size);
        assert(p[p.len() - 1].1 == len);
    }
}

} // verus!
