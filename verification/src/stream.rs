//! The NDJSON intake: framing a body into lines, reading each line, and the
//! report on the batch.

use crate::models::{CreateTestResult, FailedItem, StreamResponse};
use crate::record::reads_as;
use crate::seqs::{first_index, lemma_first_index, lemma_first_index_is};
use vstd::prelude::*;
use vstd::utf8::{decode_utf8, valid_utf8};

verus! {

/// The report's status for a batch with these counts: `C` where nothing
/// failed, `P` where some lines failed and some were accepted, `F` where
/// lines failed and none was accepted.
pub open spec fn stream_status(failed: int, enqueued: int) -> Seq<char> {
    if failed == 0 {
        "C"@
    } else if enqueued > 0 {
        "P"@
    } else {
        "F"@
    }
}

/// The report's status for a batch with these counts.
pub fn to_status(failed: i64, enqueued: i64) -> (r: &'static str)
    ensures
        r@ == stream_status(failed as int, enqueued as int),
{
    if failed == 0 {
        "C"
    } else if enqueued > 0 {
        "P"
    } else {
        "F"
    }
}

/// Whether a byte is a line feed.
pub open spec fn line_feed() -> spec_fn(u8) -> bool {
    |b: u8| b == 10u8
}

/// The index of the first line feed in `bytes`, or their number where there
/// is none.
pub open spec fn first_newline(bytes: Seq<u8>) -> int {
    first_index(bytes, line_feed())
}

/// `line` without the carriage return at its end, if it has one.
pub open spec fn strip_cr(line: Seq<u8>) -> Seq<u8> {
    if line.len() > 0 && line.last() == 13u8 {
        line.drop_last()
    } else {
        line
    }
}

/// The lines of `bytes` that a line feed has ended, in order. A carriage
/// return just before the line feed is not part of the line.
pub open spec fn complete_lines(bytes: Seq<u8>) -> Seq<Seq<u8>>
    decreases bytes.len(),
{
    let k = first_newline(bytes);
    if 0 <= k < bytes.len() {
        seq![strip_cr(bytes.subrange(0, k))] + complete_lines(
            bytes.subrange(k + 1, bytes.len() as int),
        )
    } else {
        Seq::empty()
    }
}

/// What follows the last line feed of `bytes`: the line that is not ended
/// yet. All of `bytes` where they hold no line feed.
pub open spec fn unfinished(bytes: Seq<u8>) -> Seq<u8>
    decreases bytes.len(),
{
    let k = first_newline(bytes);
    if 0 <= k < bytes.len() {
        unfinished(bytes.subrange(k + 1, bytes.len() as int))
    } else {
        bytes
    }
}

/// The lines of an NDJSON body: those that a line feed ends, and then what
/// follows the last line feed, as it stands, unless it is empty.
pub open spec fn ndjson_lines(body: Seq<u8>) -> Seq<Seq<u8>> {
    if unfinished(body).len() > 0 {
        complete_lines(body).push(unfinished(body))
    } else {
        complete_lines(body)
    }
}

/// The byte contents of a list of lines.
pub open spec fn lines_view(lines: Seq<Vec<u8>>) -> Seq<Seq<u8>> {
    lines.map_values(|l: Vec<u8>| l@)
}

/// A copy of the bytes from `from` up to `to`.
fn copy_range(body: &[u8], from: usize, to: usize) -> (r: Vec<u8>)
    requires
        from <= to <= body@.len(),
    ensures
        r@ == body@.subrange(from as int, to as int),
{
    let mut out: Vec<u8> = Vec::new();
    let mut i: usize = from;
    while i < to
        invariant
            from <= i <= to <= body@.len(),
            out@ == body@.subrange(from as int, i as int),
        decreases to - i,
    {
        out.push(body[i]);
        i = i + 1;
    }
    out
}

/// The lines of `bytes` that a line feed has ended, and the index at which
/// the unfinished line begins.
fn scan(bytes: &[u8]) -> (r: (Vec<Vec<u8>>, usize))
    ensures
        lines_view(r.0@) == complete_lines(bytes@),
        r.1 <= bytes@.len(),
        bytes@.subrange(r.1 as int, bytes@.len() as int) == unfinished(bytes@),
{
    let n: usize = bytes.len();
    let mut out: Vec<Vec<u8>> = Vec::new();
    let mut start: usize = 0;
    let mut i: usize = 0;
    assert(bytes@.subrange(0, n as int) =~= bytes@);
    assert(lines_view(out@) =~= Seq::empty());
    assert(Seq::<Seq<u8>>::empty() + complete_lines(bytes@) =~= complete_lines(bytes@));
    while i < n
        invariant
            n == bytes@.len(),
            start <= i <= n,
            forall|j: int| start <= j < i ==> bytes@[j] != 10u8,
            complete_lines(bytes@) == lines_view(out@) + complete_lines(
                bytes@.subrange(start as int, n as int),
            ),
            unfinished(bytes@) == unfinished(bytes@.subrange(start as int, n as int)),
        decreases n - i,
    {
        if bytes[i] == 10u8 {
            let ghost tail = bytes@.subrange(start as int, n as int);
            let end: usize = if i > start && bytes[i - 1] == 13u8 {
                i - 1
            } else {
                i
            };
            let line = copy_range(bytes, start, end);
            proof {
                assert forall|j: int| 0 <= j < i - start implies !line_feed()(
                    #[trigger] tail[j],
                ) by {
                    assert(tail[j] == bytes@[start + j]);
                }
                assert(line_feed()(tail[i - start]));
                lemma_first_index_is(tail, line_feed(), i - start);
                assert(tail.subrange(0, i - start) =~= bytes@.subrange(start as int, i as int));
                assert(tail.subrange(i - start + 1, tail.len() as int) =~= bytes@.subrange(
                    i as int + 1,
                    n as int,
                ));
                assert(line@ =~= strip_cr(bytes@.subrange(start as int, i as int)));
            }
            let ghost before = out@;
            out.push(line);
            proof {
                let rest = complete_lines(bytes@.subrange(i as int + 1, n as int));
                assert(lines_view(out@) =~= lines_view(before) + seq![line@]);
                assert(lines_view(before) + (seq![line@] + rest) =~= lines_view(out@) + rest);
            }
            start = i + 1;
        }
        i = i + 1;
    }
    proof {
        let tail = bytes@.subrange(start as int, n as int);
        assert forall|j: int| 0 <= j < tail.len() implies !line_feed()(#[trigger] tail[j]) by {
            assert(tail[j] == bytes@[start + j]);
        }
        lemma_first_index_is(tail, line_feed(), tail.len() as int);
        assert(lines_view(out@) + Seq::<Seq<u8>>::empty() =~= lines_view(out@));
    }
    (out, start)
}

/// Frames an NDJSON body into its lines.
pub fn split_lines(body: &[u8]) -> (r: Vec<Vec<u8>>)
    ensures
        lines_view(r@) == ndjson_lines(body@),
{
    let (mut out, start) = scan(body);
    if start < body.len() {
        let line = copy_range(body, start, body.len());
        let ghost before = out@;
        out.push(line);
        assert(lines_view(out@) =~= lines_view(before).push(line@));
    }
    out
}

/// Frames a body that arrives in chunks: it keeps the line that the chunks so
/// far have left unfinished.
#[derive(Debug)]
pub struct LineFramer {
    pending: Vec<u8>,
}

impl LineFramer {
    /// The bytes of the line that is not ended yet.
    pub closed spec fn pending(&self) -> Seq<u8> {
        self.pending@
    }

    /// A framer that has seen nothing.
    pub fn new() -> (r: Self)
        ensures
            r.pending() == Seq::<u8>::empty(),
    {
        LineFramer { pending: Vec::new() }
    }

    /// Takes the next chunk: gives the lines that it ends, the first of them
    /// begun by what was pending, and keeps what follows its last line feed.
    pub fn feed(&mut self, chunk: &[u8]) -> (lines: Vec<Vec<u8>>)
        ensures
            lines_view(lines@) == complete_lines(old(self).pending() + chunk@),
            final(self).pending() == unfinished(old(self).pending() + chunk@),
    {
        let mut i: usize = 0;
        assert(chunk@.subrange(0, 0) =~= Seq::empty());
        assert(self.pending@ + Seq::<u8>::empty() =~= self.pending@);
        while i < chunk.len()
            invariant
                i <= chunk@.len(),
                self.pending@ == old(self).pending@ + chunk@.subrange(0, i as int),
            decreases chunk.len() - i,
        {
            self.pending.push(chunk[i]);
            assert(chunk@.subrange(0, i as int + 1) =~= chunk@.subrange(0, i as int).push(
                chunk@[i as int],
            ));
            i = i + 1;
        }
        assert(chunk@.subrange(0, i as int) =~= chunk@);
        let (lines, start) = scan(self.pending.as_slice());
        let rest = copy_range(self.pending.as_slice(), start, self.pending.len());
        self.pending = rest;
        lines
    }

    /// The body has ended: gives the unfinished line, as it stands, unless it
    /// is empty.
    pub fn finish(self) -> (last: Option<Vec<u8>>)
        ensures
            match last {
                Some(line) => line@ == self.pending() && line@.len() > 0,
                None => self.pending().len() == 0,
            },
    {
        if self.pending.len() > 0 {
            Some(self.pending)
        } else {
            None
        }
    }
}

/// Chunks do not matter: the lines that two pieces end, fed one after the
/// other, are the lines that the whole ends, and what is left unfinished is
/// the same.
pub proof fn lemma_framing_in_chunks(first: Seq<u8>, second: Seq<u8>)
    ensures
        complete_lines(first + second) == complete_lines(first) + complete_lines(
            unfinished(first) + second,
        ),
        unfinished(first + second) == unfinished(unfinished(first) + second),
    decreases first.len(),
{
    let k = first_newline(first);
    lemma_first_index(first, line_feed());
    let whole = first + second;
    if 0 <= k < first.len() {
        assert forall|j: int| 0 <= j < k implies !line_feed()(#[trigger] whole[j]) by {
            assert(whole[j] == first[j]);
        }
        assert(whole[k] == first[k]);
        lemma_first_index_is(whole, line_feed(), k);
        let rest = first.subrange(k + 1, first.len() as int);
        assert(whole.subrange(0, k) =~= first.subrange(0, k));
        assert(whole.subrange(k + 1, whole.len() as int) =~= rest + second);
        lemma_framing_in_chunks(rest, second);
        let head = seq![strip_cr(first.subrange(0, k))];
        assert(head + (complete_lines(rest) + complete_lines(unfinished(rest) + second)) =~= (head
            + complete_lines(rest)) + complete_lines(unfinished(rest) + second));
    } else {
        assert(Seq::<Seq<u8>>::empty() + complete_lines(first + second) =~= complete_lines(
            first + second,
        ));
    }
}

/// Calls `String::from_utf8`, which hands the bytes back as a `String` where
/// they are valid UTF-8 and fails where they are not. The text of the string
/// is then what those bytes decode to.
#[verifier::external_body]
fn utf8_text(bytes: Vec<u8>) -> (r: Option<String>)
    ensures
        match r {
            Some(text) => valid_utf8(bytes@) && text@ == decode_utf8(bytes@),
            None => !valid_utf8(bytes@),
        },
{
    String::from_utf8(bytes).ok()
}

/// The message for a line that is not text.
pub open spec fn not_utf8_message() -> Seq<char> {
    "stream did not contain valid UTF-8"@
}

/// Reads the bytes of one line as text; a line that is no valid UTF-8 is
/// refused.
pub fn decode_line(bytes: Vec<u8>) -> (r: Result<String, String>)
    ensures
        match r {
            Ok(text) => valid_utf8(bytes@) && text@ == decode_utf8(bytes@),
            Err(e) => !valid_utf8(bytes@) && e@ == not_utf8_message(),
        },
{
    match utf8_text(bytes) {
        Some(text) => Ok(text),
        None => Err("stream did not contain valid UTF-8".to_owned()),
    }
}

/// A line that was read as an inbound result, with the line as it came.
#[derive(Debug)]
pub struct ParsedLine {
    pub payload: CreateTestResult,
    pub raw: String,
}

/// Whether `outcome` is what reading a line of a batch for the execution
/// `execution_id` gives. A line that came as text is read as an inbound
/// result: the payload goes on with the line as it came, a fault is kept with
/// the line. A line that did not come as text fails with the error it came
/// with, and without a payload.
pub open spec fn line_outcome(
    line: Result<String, String>,
    execution_id: i64,
    outcome: Result<ParsedLine, FailedItem>,
) -> bool {
    match line {
        Ok(text) => match outcome {
            Ok(parsed) => parsed.raw == text && reads_as(
                text@,
                execution_id,
                Ok::<CreateTestResult, String>(parsed.payload),
            ),
            Err(item) => item.raw_payload == Some(text) && reads_as(
                text@,
                execution_id,
                Err::<CreateTestResult, String>(item.error),
            ),
        },
        Err(e) => outcome matches Err(item) && item.error == e && item.raw_payload is None,
    }
}

/// Whether `outcome` is what framing gives for the bytes of one line: read as
/// text where they are valid UTF-8, failed without payload where they are
/// not.
pub open spec fn bytes_outcome(
    bytes: Seq<u8>,
    execution_id: i64,
    outcome: Result<ParsedLine, FailedItem>,
) -> bool {
    if valid_utf8(bytes) {
        match outcome {
            Ok(parsed) => parsed.raw@ == decode_utf8(bytes) && reads_as(
                parsed.raw@,
                execution_id,
                Ok::<CreateTestResult, String>(parsed.payload),
            ),
            Err(item) => item.raw_payload matches Some(text) && text@ == decode_utf8(bytes)
                && reads_as(text@, execution_id, Err::<CreateTestResult, String>(item.error)),
        }
    } else {
        outcome matches Err(item) && item.error@ == not_utf8_message() && item.raw_payload is None
    }
}

/// Reads one line of a batch for the execution `execution_id`.
pub fn read_line(line: Result<String, String>, execution_id: i64) -> (r: Result<
    ParsedLine,
    FailedItem,
>)
    ensures
        line_outcome(line, execution_id, r),
{
    match line {
        Ok(text) => match CreateTestResult::from_json(text.as_str(), execution_id) {
            Ok(payload) => Ok(ParsedLine { payload, raw: text }),
            Err(e) => Err(FailedItem { error: e, raw_payload: Some(text) }),
        },
        Err(e) => Err(FailedItem { error: e, raw_payload: None }),
    }
}

/// Reads the bytes of one framed line of a batch for the execution
/// `execution_id`.
pub fn read_bytes(bytes: Vec<u8>, execution_id: i64) -> (r: Result<ParsedLine, FailedItem>)
    ensures
        bytes_outcome(bytes@, execution_id, r),
{
    read_line(decode_line(bytes), execution_id)
}

/// Frames a body and reads each of its lines, in order, for the execution
/// `execution_id`.
pub fn read_body(body: &[u8], execution_id: i64) -> (r: Vec<Result<ParsedLine, FailedItem>>)
    ensures
        r@.len() == ndjson_lines(body@).len(),
        forall|i: int|
            0 <= i < r@.len() ==> bytes_outcome(
                ndjson_lines(body@)[i],
                execution_id,
                #[trigger] r@[i],
            ),
{
    let mut lines = split_lines(body);
    let ghost framed = ndjson_lines(body@);
    let n = lines.len();
    let mut out: Vec<Result<ParsedLine, FailedItem>> = Vec::new();
    let mut i: usize = 0;
    while i < n
        invariant
            n == lines@.len(),
            i <= n,
            out@.len() == i,
            lines@.len() == framed.len(),
            forall|j: int| i <= j < n ==> (#[trigger] lines@[j])@ == framed[j],
            forall|j: int| 0 <= j < i ==> bytes_outcome(framed[j], execution_id, #[trigger] out@[j]),
        decreases n - i,
    {
        let mut bytes: Vec<u8> = Vec::new();
        std::mem::swap(&mut lines[i], &mut bytes);
        let outcome = read_bytes(bytes, execution_id);
        out.push(outcome);
        i = i + 1;
    }
    out
}

/// The most failed items that a report carries. Lines that fail beyond it
/// are counted and not kept.
pub const MAX_FAILED_ITEMS: usize = 100;

/// The failed items that are kept once one more line has failed: the new one
/// joins the others while there is room for it.
pub open spec fn kept_failures(kept: Seq<FailedItem>, item: FailedItem) -> Seq<FailedItem> {
    if kept.len() < MAX_FAILED_ITEMS {
        kept.push(item)
    } else {
        kept
    }
}

/// The running count of one streamed batch.
#[derive(Debug)]
pub struct StreamIngest {
    execution_id: i64,
    enqueued: i64,
    failed: i64,
    failed_items: Vec<FailedItem>,
}

impl StreamIngest {
    /// The counts are not negative, and the failed items that are kept are
    /// those of the first failed lines, as many as there is room for.
    pub closed spec fn wf(&self) -> bool {
        &&& 0 <= self.enqueued
        &&& 0 <= self.failed
        &&& self.failed_items@.len() == if self.failed < MAX_FAILED_ITEMS {
            self.failed as int
        } else {
            MAX_FAILED_ITEMS as int
        }
    }

    /// The execution that the batch is for.
    pub closed spec fn execution(&self) -> i64 {
        self.execution_id
    }

    /// Lines accepted into the queue so far.
    pub closed spec fn accepted(&self) -> int {
        self.enqueued as int
    }

    /// Lines that failed so far.
    pub closed spec fn rejected(&self) -> int {
        self.failed as int
    }

    /// The failed items that are kept, oldest first.
    pub closed spec fn failures(&self) -> Seq<FailedItem> {
        self.failed_items@
    }

    /// Lines seen so far.
    pub open spec fn seen(&self) -> int {
        self.accepted() + self.rejected()
    }

    /// The kept items are within the cap, and they are all the failed lines
    /// while those are within it.
    pub proof fn lemma_failures_bounded(&self)
        requires
            self.wf(),
        ensures
            self.failures().len() <= MAX_FAILED_ITEMS,
            self.failures().len() <= self.rejected(),
            self.rejected() <= MAX_FAILED_ITEMS ==> self.failures().len() == self.rejected(),
            0 <= self.accepted(),
            0 <= self.rejected(),
    {
    }

    /// A count with nothing seen.
    pub fn new(execution_id: i64) -> (r: Self)
        ensures
            r.wf(),
            r.execution() == execution_id,
            r.accepted() == 0,
            r.rejected() == 0,
            r.failures() == Seq::<FailedItem>::empty(),
    {
        StreamIngest { execution_id, enqueued: 0, failed: 0, failed_items: Vec::new() }
    }

    /// Lines seen so far.
    pub fn received(&self) -> (r: i64)
        requires
            self.wf(),
            self.seen() <= i64::MAX,
        ensures
            r == self.seen(),
    {
        self.enqueued + self.failed
    }

    /// Counts a line that the queue accepted.
    pub fn accept(&mut self)
        requires
            old(self).wf(),
            old(self).seen() < i64::MAX,
        ensures
            final(self).wf(),
            final(self).execution() == old(self).execution(),
            final(self).accepted() == old(self).accepted() + 1,
            final(self).rejected() == old(self).rejected(),
            final(self).failures() == old(self).failures(),
    {
        self.enqueued = self.enqueued + 1;
    }

    /// Counts a line that failed, and keeps the reason while the list has
    /// room.
    pub fn reject(&mut self, item: FailedItem)
        requires
            old(self).wf(),
            old(self).seen() < i64::MAX,
        ensures
            final(self).wf(),
            final(self).execution() == old(self).execution(),
            final(self).accepted() == old(self).accepted(),
            final(self).rejected() == old(self).rejected() + 1,
            final(self).failures() == kept_failures(old(self).failures(), item),
    {
        self.failed = self.failed + 1;
        if self.failed_items.len() < MAX_FAILED_ITEMS {
            self.failed_items.push(item);
        }
    }

    /// Counts a line that was read and offered to the queue: accepted where
    /// the queue took it, failed with the queue's error and the line where it
    /// did not.
    pub fn enqueued_outcome(&mut self, outcome: Result<(), String>, raw: String)
        requires
            old(self).wf(),
            old(self).seen() < i64::MAX,
        ensures
            final(self).wf(),
            final(self).execution() == old(self).execution(),
            match outcome {
                Ok(_) => {
                    &&& final(self).accepted() == old(self).accepted() + 1
                    &&& final(self).rejected() == old(self).rejected()
                    &&& final(self).failures() == old(self).failures()
                },
                Err(e) => {
                    &&& final(self).accepted() == old(self).accepted()
                    &&& final(self).rejected() == old(self).rejected() + 1
                    &&& final(self).failures() == kept_failures(
                        old(self).failures(),
                        (FailedItem { error: e, raw_payload: Some(raw) }),
                    )
                },
            },
    {
        match outcome {
            Ok(_) => self.accept(),
            Err(e) => self.reject(FailedItem { error: e, raw_payload: Some(raw) }),
        }
    }

    /// The report on the batch: the counts, the status that follows from
    /// them, and, where lines failed, the failed items that were kept, which
    /// are never more than `MAX_FAILED_ITEMS`.
    pub fn finish(self) -> (r: StreamResponse)
        requires
            self.wf(),
            self.seen() <= i64::MAX,
        ensures
            r.status@ == stream_status(self.rejected(), self.accepted()),
            r.execution_id == self.execution(),
            r.received == self.seen(),
            r.inserted == self.accepted(),
            r.failed == self.rejected(),
            match r.failed_items {
                Some(items) => self.rejected() > 0 && items@ == self.failures() && items@.len()
                    <= MAX_FAILED_ITEMS,
                None => self.rejected() == 0,
            },
    {
        let status = to_status(self.failed, self.enqueued).to_owned();
        let received = self.enqueued + self.failed;
        StreamResponse {
            status,
            execution_id: self.execution_id,
            received,
            inserted: self.enqueued,
            failed: self.failed,
            failed_items: if self.failed > 0 {
                Some(self.failed_items)
            } else {
                None
            },
        }
    }
}

/// A report is complete exactly where nothing failed, and failed exactly
/// where lines failed and none was accepted.
pub proof fn lemma_status_by_counts(failed: int, enqueued: int)
    requires
        0 <= failed,
        0 <= enqueued,
    ensures
        stream_status(failed, enqueued) == "C"@ <==> failed == 0,
        stream_status(failed, enqueued) == "P"@ <==> failed > 0 && enqueued > 0,
        stream_status(failed, enqueued) == "F"@ <==> failed > 0 && enqueued == 0,
{
    reveal_strlit("C");
    reveal_strlit("P");
    reveal_strlit("F");
    assert("C"@[0] != "P"@[0]);
    assert("C"@[0] != "F"@[0]);
    assert("P"@[0] != "F"@[0]);
}

} // verus!
