//! What holds of every run of the download machine.

use crate::download::{Download, DownloadAction, DownloadError, DownloadEvent, Phase};
use vstd::prelude::*;

verus! {

/// The state after the events, taken in order.
pub open spec fn run(state: Download, events: Seq<DownloadEvent>) -> Download
    decreases events.len(),
{
    if events.len() == 0 {
        state
    } else {
        run(state, events.drop_last()).after(events.last())
    }
}

/// The sum of the lengths.
pub open spec fn total(lens: Seq<usize>) -> nat
    decreases lens.len(),
{
    if lens.len() == 0 {
        0
    } else {
        total(lens.drop_last()) + lens.last() as nat
    }
}

/// The length that a response declares; 0 where it declares none.
pub open spec fn declared(content_length: Option<u64>) -> u64 {
    match content_length {
        Some(n) => n,
        None => 0,
    }
}

/// The events of a transfer in order: the response, the destination
/// created, and one chunk of each length.
pub open spec fn transfer(content_length: Option<u64>, lens: Seq<usize>) -> Seq<DownloadEvent> {
    seq![DownloadEvent::Responded { content_length }, DownloadEvent::FileCreated] + Seq::new(
        lens.len(),
        |i: int| DownloadEvent::Chunk { len: lens[i] },
    )
}

/// The sum of a shorter run of first lengths is no larger.
pub proof fn lemma_total_grows(lens: Seq<usize>, n: int)
    requires
        0 <= n <= lens.len(),
    ensures
        total(lens.take(n)) <= total(lens),
    decreases lens.len() - n,
{
    if n == lens.len() {
        assert(lens.take(n) == lens);
    } else {
        assert(lens.take(n + 1).drop_last() == lens.take(n));
        lemma_total_grows(lens, n + 1);
    }
}

/// Byte counting: while a transfer goes in order, the machine streams, it
/// remembers the declared length, and its running total is the sum of the
/// lengths of the chunks that came.
pub proof fn law_running_total(content_length: Option<u64>, lens: Seq<usize>)
    requires
        total(lens) <= u64::MAX,
    ensures
        run(Download::initial(), transfer(content_length, lens)) == (Download {
            phase: Phase::Streaming,
            declared_total: declared(content_length),
            written: total(lens) as u64,
        }),
    decreases lens.len(),
{
    let events = transfer(content_length, lens);
    if lens.len() == 0 {
        let first = seq![DownloadEvent::Responded { content_length }];
        assert(events.drop_last() == first);
        assert(first.drop_last() == Seq::<DownloadEvent>::empty());
        assert(run(Download::initial(), first.drop_last()) == Download::initial());
        assert(run(Download::initial(), first) == Download::initial().after(first.last()));
    } else {
        let shorter = lens.drop_last();
        assert(events.drop_last() == transfer(content_length, shorter));
        law_running_total(content_length, shorter);
    }
}

/// Every chunk of a transfer whose lengths sum up within `u64` can be taken,
/// and is answered with the order to write it and to report the sum of the
/// lengths up to it, beside the declared length.
pub proof fn law_progress_reports(content_length: Option<u64>, lens: Seq<usize>, i: int)
    requires
        total(lens) <= u64::MAX,
        0 <= i < lens.len(),
    ensures
        run(Download::initial(), transfer(content_length, lens.take(i))).fits(
            DownloadEvent::Chunk { len: lens[i] },
        ),
        run(Download::initial(), transfer(content_length, lens.take(i))).answer(
            DownloadEvent::Chunk { len: lens[i] },
        ) == (DownloadAction::Write {
            total_so_far: total(lens.take(i + 1)) as u64,
            declared_total: declared(content_length),
        }),
{
    lemma_total_grows(lens, i);
    lemma_total_grows(lens, i + 1);
    assert(lens.take(i + 1).drop_last() == lens.take(i));
    law_running_total(content_length, lens.take(i));
}

/// A transfer whose stream ends in order is done, and the bytes it reports
/// as written are the sum of the lengths of its chunks.
pub proof fn law_completed_download(content_length: Option<u64>, lens: Seq<usize>)
    requires
        total(lens) <= u64::MAX,
    ensures
        run(Download::initial(), transfer(content_length, lens)).answer(
            DownloadEvent::StreamEnded,
        ) == (DownloadAction::Finish { bytes_written: total(lens) as u64 }),
        run(Download::initial(), transfer(content_length, lens)).after(
            DownloadEvent::StreamEnded,
        ).phase == Phase::Done,
{
    law_running_total(content_length, lens);
}

/// A transfer that breaks off fails as interrupted, and its running total
/// stays at the sum of the lengths of the chunks that came before.
pub proof fn law_interrupted_download(content_length: Option<u64>, lens: Seq<usize>)
    requires
        total(lens) <= u64::MAX,
    ensures
        run(Download::initial(), transfer(content_length, lens)).answer(
            DownloadEvent::Interrupted,
        ) == DownloadAction::Fail(DownloadError::StreamInterrupted),
        run(Download::initial(), transfer(content_length, lens)).after(
            DownloadEvent::Interrupted,
        ).written == total(lens),
{
    law_running_total(content_length, lens);
}

/// Nothing changes a download that is done or has failed, and every event is
/// answered with its outcome.
pub proof fn law_outcome_is_final(state: Download, event: DownloadEvent)
    requires
        state.phase is Done || state.phase is Failed,
    ensures
        state.after(event) == state,
        state.answer(event) == state.pending(),
        state.fits(event),
{
}

} // verus!
