//! Incremental reading of Codex session records: which bytes are new, which
//! complete lines they hold, and which files are worth polling again.
use vstd::prelude::*;

use crate::activity::{
    activity_from_line, after_records, batch_signal, line_record, record_view, ActiveTurns,
    CodexActivity, CodexActivityRecord,
};
use crate::text::{chars_of, occurs_at, starts_with_text, str_equals, TextSet};

verus! {

/// How many recently touched session files are polled while nothing runs.
pub const RECENT_SESSION_LIMIT: usize = 8;

/// Where reading a session file resumes: after what was already consumed,
/// or from the start when the file shrank (it was replaced). `None` when there
/// is nothing new.
pub open spec fn resume_point(length: u64, previous: Option<u64>) -> Option<u64> {
    let consumed: u64 = match previous {
        Some(offset) => offset,
        None => 0,
    };
    let start: u64 = if length < consumed {
        0
    } else {
        consumed
    };
    if start == length {
        None
    } else {
        Some(start)
    }
}

/// Where to resume reading a session file of `length` bytes of which
/// `previous` were already consumed.
pub fn read_start(length: u64, previous: Option<u64>) -> (start: Option<u64>)
    ensures
        start == resume_point(length, previous),
{
    let consumed: u64 = match previous {
        Some(offset) => offset,
        None => 0,
    };
    let start: u64 = if length < consumed {
        0
    } else {
        consumed
    };
    if start == length {
        None
    } else {
        Some(start)
    }
}

/// The text of a byte slice when it is valid UTF-8.
///
/// Calls `std::str::from_utf8`, which succeeds exactly on valid UTF-8 and then
/// returns the text those very bytes encode.
#[verifier::external_body]
fn utf8_text(bytes: &[u8]) -> (text: Option<&str>)
    ensures
        text is Some <==> vstd::utf8::valid_utf8(bytes@),
        text matches Some(t) ==> vstd::utf8::encode_utf8(t@) == bytes@,
{
    std::str::from_utf8(bytes).ok()
}

/// The lifecycle records one complete line holds: none unless it is valid
/// UTF-8 and its text is a lifecycle record.
pub open spec fn line_bytes_records(line: Seq<u8>) -> Seq<(
    CodexActivity,
    Seq<char>,
)> {
    if vstd::utf8::valid_utf8(line) {
        match line_record(vstd::utf8::decode_utf8(line)) {
            Some(record) => seq![record],
            None => seq![],
        }
    } else {
        seq![]
    }
}

/// The records of the complete lines of `bytes` from the line starting at
/// `line_start`, the scan having reached `at`.
pub open spec fn records_from(bytes: Seq<u8>, line_start: int, at: int) -> Seq<(
    CodexActivity,
    Seq<char>,
)>
    decreases bytes.len() - at,
{
    if at < 0 || at >= bytes.len() {
        seq![]
    } else if bytes[at] == 10u8 {
        line_bytes_records(bytes.subrange(line_start, at + 1)) + records_from(
            bytes,
            at + 1,
            at + 1,
        )
    } else {
        records_from(bytes, line_start, at + 1)
    }
}

/// The end of the last complete line of `bytes`, scanning from `at` with the
/// current line starting at `line_start`.
pub open spec fn complete_end_from(bytes: Seq<u8>, line_start: int, at: int) -> int
    decreases bytes.len() - at,
{
    if at < 0 || at >= bytes.len() {
        line_start
    } else if bytes[at] == 10u8 {
        complete_end_from(bytes, at + 1, at + 1)
    } else {
        complete_end_from(bytes, line_start, at + 1)
    }
}

/// The lifecycle records of the newline-terminated lines of `bytes`, in order.
pub open spec fn chunk_records(bytes: Seq<u8>) -> Seq<(CodexActivity, Seq<char>)> {
    records_from(bytes, 0, 0)
}

/// How many bytes the newline-terminated lines of `bytes` span; a trailing
/// partial line is left for the next read.
pub open spec fn chunk_consumed(bytes: Seq<u8>) -> int {
    complete_end_from(bytes, 0, 0)
}

/// The records found in newly appended bytes and how many bytes were consumed.
pub struct SessionChunk {
    pub records: Vec<CodexActivityRecord>,
    pub consumed: usize,
}

/// The abstract content of a list of records.
pub open spec fn record_views(records: Seq<CodexActivityRecord>) -> Seq<(
    CodexActivity,
    Seq<char>,
)> {
    records.map_values(|r: CodexActivityRecord| record_view(r))
}

/// Scans newly appended session bytes: every complete line that is valid
/// UTF-8 and holds a lifecycle record contributes it, and only complete lines
/// count as consumed.
pub fn scan_appended(bytes: &[u8]) -> (chunk: SessionChunk)
    ensures
        record_views(chunk.records@) == chunk_records(bytes@),
        chunk.consumed == chunk_consumed(bytes@),
        chunk.consumed <= bytes@.len(),
{
    let mut records: Vec<CodexActivityRecord> = Vec::new();
    let mut line_start: usize = 0;
    let mut at: usize = 0;
    while at < bytes.len()
        invariant
            line_start <= at <= bytes@.len(),
            chunk_records(bytes@) == record_views(records@) + records_from(
                bytes@,
                line_start as int,
                at as int,
            ),
            chunk_consumed(bytes@) == complete_end_from(bytes@, line_start as int, at as int),
        decreases bytes.len() - at,
    {
        if bytes[at] == 10u8 {
            let line = &bytes[line_start..at + 1];
            let ghost before = records@;
            match utf8_text(line) {
                Some(text) => {
                    proof {
                        vstd::utf8::encode_utf8_decode_utf8(text@);
                    }
                    match activity_from_line(text) {
                        Some(record) => {
                            records.push(record);
                        },
                        None => {},
                    }
                },
                None => {},
            }
            proof {
                assert(record_views(records@) =~= record_views(before) + line_bytes_records(
                    bytes@.subrange(line_start as int, at + 1),
                ));
            }
            line_start = at + 1;
        }
        at = at + 1;
    }
    proof {
        lemma_complete_end_bounds(bytes@, line_start as int, at as int);
    }
    assert(records_from(bytes@, line_start as int, at as int) =~= seq![]);
    assert(record_views(records@) + seq![] =~= record_views(records@));
    SessionChunk { records, consumed: line_start }
}

/// The end of the complete lines lies between the current line start and the end of the bytes.
proof fn lemma_complete_end_bounds(bytes: Seq<u8>, line_start: int, at: int)
    requires
        0 <= line_start <= at <= bytes.len(),
    ensures
        line_start <= complete_end_from(bytes, line_start, at) <= bytes.len(),
    decreases bytes.len() - at,
{
    if at < bytes.len() {
        if bytes[at] == 10u8 {
            lemma_complete_end_bounds(bytes, at + 1, at + 1);
        } else {
            lemma_complete_end_bounds(bytes, line_start, at + 1);
        }
    }
}

/// Only whole records are consumed: the consumed prefix ends with a newline
/// (or is empty) and what is left holds no newline, a partial line at most.
pub proof fn law_only_complete_lines_are_consumed(bytes: Seq<u8>)
    ensures
        0 <= chunk_consumed(bytes) <= bytes.len(),
        chunk_consumed(bytes) > 0 ==> bytes[chunk_consumed(bytes) - 1] == 10u8,
        forall|k: int| chunk_consumed(bytes) <= k < bytes.len() ==> bytes[k] != 10u8,
{
    lemma_complete_end_shape(bytes, 0, 0);
}

/// The shape of the end of the complete lines, scanning from `at` with the
/// current line starting at `line_start`.
proof fn lemma_complete_end_shape(bytes: Seq<u8>, line_start: int, at: int)
    requires
        0 <= line_start <= at <= bytes.len(),
        line_start > 0 ==> bytes[line_start - 1] == 10u8,
        forall|k: int| line_start <= k < at ==> bytes[k] != 10u8,
    ensures
        line_start <= complete_end_from(bytes, line_start, at) <= bytes.len(),
        complete_end_from(bytes, line_start, at) > 0 ==> bytes[complete_end_from(bytes, line_start, at) - 1] == 10u8,
        forall|k: int| complete_end_from(bytes, line_start, at) <= k < bytes.len() ==> bytes[k] != 10u8,
    decreases bytes.len() - at,
{
    if at < bytes.len() {
        if bytes[at] == 10u8 {
            lemma_complete_end_shape(bytes, at + 1, at + 1);
        } else {
            lemma_complete_end_shape(bytes, line_start, at + 1);
        }
    }
}

/// Scanning a suffix of the bytes is scanning the bytes from an offset.
proof fn lemma_scan_shift(bytes: Seq<u8>, offset: int, line_start: int, at: int)
    requires
        0 <= offset <= line_start <= at <= bytes.len(),
    ensures
        records_from(bytes, line_start, at) == records_from(
            bytes.skip(offset),
            line_start - offset,
            at - offset,
        ),
        complete_end_from(bytes, line_start, at) == offset + complete_end_from(
            bytes.skip(offset),
            line_start - offset,
            at - offset,
        ),
    decreases bytes.len() - at,
{
    let tail = bytes.skip(offset);
    if at < bytes.len() {
        assert(tail[at - offset] == bytes[at]);
        if bytes[at] == 10u8 {
            lemma_scan_shift(bytes, offset, at + 1, at + 1);
            assert(tail.subrange(line_start - offset, at + 1 - offset) =~= bytes.subrange(
                line_start,
                at + 1,
            ));
        } else {
            lemma_scan_shift(bytes, offset, line_start, at + 1);
        }
    }
}

/// Scanning over bytes that hold no newline changes nothing.
proof fn lemma_scan_without_newline(bytes: Seq<u8>, line_start: int, from: int, to: int)
    requires
        0 <= line_start <= from <= to <= bytes.len(),
        forall|k: int| from <= k < to ==> bytes[k] != 10u8,
    ensures
        records_from(bytes, line_start, from) == records_from(bytes, line_start, to),
        complete_end_from(bytes, line_start, from) == complete_end_from(bytes, line_start, to),
    decreases to - from,
{
    if from < to {
        lemma_scan_without_newline(bytes, line_start, from + 1, to);
    }
}

/// Scanning bytes that extend `prefix` finds the records of `prefix` first,
/// then continues from the end of its complete lines.
proof fn lemma_scan_prefix(prefix: Seq<u8>, bytes: Seq<u8>, line_start: int, at: int)
    requires
        prefix.len() <= bytes.len(),
        prefix == bytes.take(prefix.len() as int),
        0 <= line_start <= at <= prefix.len(),
    ensures
        records_from(bytes, line_start, at) == records_from(prefix, line_start, at) + records_from(
            bytes,
            complete_end_from(prefix, line_start, at),
            prefix.len() as int,
        ),
        complete_end_from(bytes, line_start, at) == complete_end_from(
            bytes,
            complete_end_from(prefix, line_start, at),
            prefix.len() as int,
        ),
    decreases prefix.len() - at,
{
    if at == prefix.len() {
        assert(records_from(prefix, line_start, at) =~= Seq::<(CodexActivity, Seq<char>)>::empty());
        assert(records_from(prefix, line_start, at) + records_from(bytes, line_start, at) =~= records_from(
            bytes,
            line_start,
            at,
        ));
    } else {
        assert(prefix[at] == bytes[at]);
        if bytes[at] == 10u8 {
            lemma_scan_prefix(prefix, bytes, at + 1, at + 1);
            assert(prefix.subrange(line_start, at + 1) =~= bytes.subrange(line_start, at + 1));
            let line = line_bytes_records(bytes.subrange(line_start, at + 1));
            let end = complete_end_from(prefix, at + 1, at + 1);
            assert(line + (records_from(prefix, at + 1, at + 1) + records_from(
                bytes,
                end,
                prefix.len() as int,
            )) =~= (line + records_from(prefix, at + 1, at + 1)) + records_from(
                bytes,
                end,
                prefix.len() as int,
            ));
        } else {
            lemma_scan_prefix(prefix, bytes, line_start, at + 1);
        }
    }
}

/// Two successive reads of a file that only grows report each record exactly
/// once: reading `first` from offset `start`, then the grown content from the
/// new offset, yields the same records, and ends at the same offset, as one
/// read of the grown content from `start`. A record cut by the first read is
/// left for the second.
pub proof fn law_successive_reads_report_records_once(first: Seq<u8>, appended: Seq<u8>, start: int)
    requires
        0 <= start <= first.len(),
    ensures
        ({
            let grown = first + appended;
            let first_read = first.skip(start);
            let resumed = start + chunk_consumed(first_read);
            &&& chunk_records(first_read) + chunk_records(grown.skip(resumed)) == chunk_records(
                grown.skip(start),
            )
            &&& resumed + chunk_consumed(grown.skip(resumed)) == start + chunk_consumed(
                grown.skip(start),
            )
        }),
{
    let grown = first + appended;
    let whole = grown.skip(start);
    let part = first.skip(start);
    let consumed = chunk_consumed(part);
    assert(part =~= whole.take(part.len() as int));
    law_only_complete_lines_are_consumed(part);
    lemma_scan_prefix(part, whole, 0, 0);
    assert forall|k: int| consumed <= k < part.len() implies whole[k] != 10u8 by {
        assert(whole[k] == part[k]);
    }
    lemma_scan_without_newline(whole, consumed, consumed, part.len() as int);
    lemma_scan_shift(whole, consumed, consumed, consumed);
    assert(whole.skip(consumed) =~= grown.skip(start + consumed));
}

/// History is not rescanned: a file whose whole length was already consumed
/// yields nothing until it grows, and then only the appended bytes are read.
pub proof fn law_history_is_not_rescanned(history: Seq<u8>, appended: Seq<u8>)
    requires
        history.len() + appended.len() <= u64::MAX,
    ensures
        resume_point(history.len() as u64, Some(history.len() as u64)) is None,
        appended.len() > 0 ==> resume_point(
            (history + appended).len() as u64,
            Some(history.len() as u64),
        ) == Some(history.len() as u64),
        (history + appended).skip(history.len() as int) == appended,
{
    assert((history + appended).skip(history.len() as int) =~= appended);
}

/// A complete line is judged by its text alone: when it is valid UTF-8 and
/// ends with its only newline, scanning it reports exactly the lifecycle record
/// its decoded text holds, whatever other characters the line contains, and
/// consumes all of it.
pub proof fn law_complete_line_reports_its_record(line: Seq<u8>)
    requires
        line.len() > 0,
        line[line.len() - 1] == 10u8,
        forall|k: int| 0 <= k < line.len() - 1 ==> line[k] != 10u8,
        vstd::utf8::valid_utf8(line),
    ensures
        chunk_records(line) == match line_record(vstd::utf8::decode_utf8(line)) {
            Some(record) => seq![record],
            None => Seq::<(CodexActivity, Seq<char>)>::empty(),
        },
        chunk_consumed(line) == line.len(),
{
    let last = line.len() - 1;
    lemma_scan_without_newline(line, 0, 0, last);
    assert(line.subrange(0, last + 1) =~= line);
    assert(records_from(line, last + 1, last + 1) =~= Seq::<(CodexActivity, Seq<char>)>::empty());
    let found = line_bytes_records(line);
    assert(found + Seq::<(CodexActivity, Seq<char>)>::empty() =~= found);
    assert(complete_end_from(line, 0, last) == complete_end_from(line, last + 1, last + 1));
    assert(complete_end_from(line, last + 1, last + 1) == last + 1);
}

/// The texts of a list of paths.
pub open spec fn path_texts(paths: Seq<String>) -> Seq<Seq<char>> {
    paths.map_values(|p: String| p@)
}

/// The recent-file list after `path` was touched: it moves to the front, any
/// earlier mention is dropped, and the list keeps at most the limit.
pub open spec fn remembered(files: Seq<Seq<char>>, path: Seq<char>) -> Seq<Seq<char>> {
    let all = seq![path] + files.filter(|p: Seq<char>| p != path);
    if all.len() > RECENT_SESSION_LIMIT {
        all.take(RECENT_SESSION_LIMIT as int)
    } else {
        all
    }
}

/// The touched file leads the recent list, appears in it once, and the list
/// never grows beyond the limit.
pub proof fn law_remembered_file_leads(files: Seq<Seq<char>>, path: Seq<char>)
    ensures
        remembered(files, path).len() <= RECENT_SESSION_LIMIT,
        remembered(files, path)[0] == path,
        forall|i: int| 0 < i < remembered(files, path).len() ==> remembered(files, path)[i] != path,
{
    let keep = |p: Seq<char>| p != path;
    let all = seq![path] + files.filter(keep);
    assert forall|i: int| 0 < i < all.len() implies all[i] != path by {
        assert(all[i] == files.filter(keep)[i - 1]);
        files.lemma_filter_pred(keep, i - 1);
    }
}

/// Moves `path` to the front of the recently touched session files.
pub fn remember_recent_file(files: &mut Vec<String>, path: String)
    ensures
        path_texts(final(files)@) == remembered(path_texts(old(files)@), path@),
{
    let ghost views = path_texts(files@);
    let ghost keep = |p: Seq<char>| p != path@;
    let mut kept: Vec<String> = Vec::new();
    kept.push(path.clone());
    let mut i: usize = 0;
    while i < files.len()
        invariant
            i <= files@.len(),
            views == path_texts(files@),
            keep == (|p: Seq<char>| p != path@),
            path_texts(kept@) == seq![path@] + views.take(i as int).filter(keep),
        decreases files.len() - i,
    {
        proof {
            reveal_with_fuel(Seq::<_>::filter, 1);
            assert(views.take(i + 1).drop_last() =~= views.take(i as int));
        }
        let ghost before = kept@;
        if files[i] != path {
            kept.push(files[i].clone());
            proof {
                assert(path_texts(kept@) =~= path_texts(before).push(files@[i as int]@));
            }
        }
        i = i + 1;
    }
    proof {
        assert(views.take(files@.len() as int) =~= views);
    }
    kept.truncate(RECENT_SESSION_LIMIT);
    proof {
        let all = seq![path@] + views.filter(keep);
        if all.len() > RECENT_SESSION_LIMIT {
            assert(path_texts(kept@) =~= all.take(RECENT_SESSION_LIMIT as int));
        }
    }
    *files = kept;
}

/// `order` lists the newest files first: it holds `min(limit, n)` distinct
/// indices, their modification keys never increase along it, and no file left
/// out is newer than any file listed.
pub open spec fn newest_first(modified: Seq<u128>, order: Seq<usize>, limit: nat) -> bool {
    &&& order.len() == if modified.len() < limit {
        modified.len()
    } else {
        limit
    }
    &&& forall|i: int| 0 <= i < order.len() ==> #[trigger] order[i] < modified.len()
    &&& forall|i: int, j: int| 0 <= i < j < order.len() ==> order[i] != order[j]
    &&& forall|i: int, j: int|
        0 <= i < j < order.len() ==> modified[order[i] as int] >= modified[order[j] as int]
    &&& forall|k: int, i: int|
        #![trigger modified[k], order[i]]
        0 <= k < modified.len() && !order.contains(k as usize) && 0 <= i < order.len()
            ==> modified[k] <= modified[order[i] as int]
}

/// The session files to poll while nothing runs: the indices of the most
/// recently modified files, newest first, at most the limit of them.
pub fn recent_session_order(modified: &Vec<u128>) -> (order: Vec<usize>)
    ensures
        newest_first(modified@, order@, RECENT_SESSION_LIMIT as nat),
{
    let n: usize = modified.len();
    let wanted: usize = if n < RECENT_SESSION_LIMIT {
        n
    } else {
        RECENT_SESSION_LIMIT
    };
    let mut chosen: Vec<bool> = Vec::new();
    let mut c: usize = 0;
    while c < n
        invariant
            c <= n,
            chosen@.len() == c,
            forall|k: int| 0 <= k < c ==> !chosen@[k],
        decreases n - c,
    {
        chosen.push(false);
        c = c + 1;
    }
    let mut order: Vec<usize> = Vec::new();
    while order.len() < wanted
        invariant
            n == modified@.len(),
            chosen@.len() == n,
            wanted <= n,
            order@.len() <= wanted,
            forall|i: int| 0 <= i < order@.len() ==> #[trigger] order@[i] < n,
            forall|k: int| 0 <= k < n ==> (chosen@[k] <==> order@.contains(k as usize)),
            forall|i: int, j: int| 0 <= i < j < order@.len() ==> order@[i] != order@[j],
            forall|i: int, j: int|
                0 <= i < j < order@.len() ==> modified@[order@[i] as int] >= modified@[order@[j] as int],
            forall|k: int, i: int|
                #![trigger chosen@[k], order@[i]]
                0 <= k < n && !chosen@[k] && 0 <= i < order@.len() ==> modified@[k]
                    <= modified@[order@[i] as int],
        decreases wanted - order@.len(),
    {
        // Some file is still unchosen, since fewer than `n` were picked.
        proof {
            lemma_unchosen_exists(chosen@, order@);
        }
        let mut best: usize = 0;
        let mut found = false;
        let mut k: usize = 0;
        while k < n
            invariant
                n == modified@.len(),
                chosen@.len() == n,
                k <= n,
                found ==> best < n && !chosen@[best as int],
                found ==> forall|m: int| 0 <= m < k && !chosen@[m] ==> modified@[m] <= modified@[best as int],
                !found ==> forall|m: int| 0 <= m < k ==> chosen@[m],
            decreases n - k,
        {
            if !chosen[k] && (!found || modified[k] > modified[best]) {
                best = k;
                found = true;
            }
            k = k + 1;
        }
        let ghost prev = order@;
        proof {
            if !found {
                let w: int = choose|w: int| 0 <= w < n && !chosen@[w];
                assert(chosen@[w]);
            }
        }
        chosen.set(best, true);
        order.push(best);
        proof {
            assert forall|m: int| 0 <= m < n implies (chosen@[m] <==> order@.contains(m as usize)) by {
                if m == best {
                    assert(order@[prev.len() as int] == best);
                } else {
                    if prev.contains(m as usize) {
                        let p: int = choose|p: int| 0 <= p < prev.len() && prev[p] == m as usize;
                        assert(order@[p] == m as usize);
                    }
                    if order@.contains(m as usize) {
                        let p: int = choose|p: int| 0 <= p < order@.len() && order@[p] == m as usize;
                        assert(p < prev.len());
                        assert(prev[p] == m as usize);
                    }
                }
            }
            assert forall|i: int, j: int| 0 <= i < j < order@.len() implies order@[i] != order@[j] by {
                if j == prev.len() {
                    assert(prev.contains(order@[i]));
                }
            }
        }
    }
    proof {
        assert forall|k: int, i: int|
            #![trigger modified@[k], order@[i]]
            0 <= k < n && !order@.contains(k as usize) && 0 <= i < order@.len() implies modified@[k]
                <= modified@[order@[i] as int] by {
            assert(!chosen@[k]);
        }
    }
    order
}

/// While fewer indices were chosen than there are files, some file is unchosen.
proof fn lemma_unchosen_exists(chosen: Seq<bool>, order: Seq<usize>)
    requires
        chosen.len() <= usize::MAX,
        order.len() < chosen.len(),
        forall|i: int| 0 <= i < order.len() ==> #[trigger] order[i] < chosen.len(),
        forall|k: int| 0 <= k < chosen.len() ==> (chosen[k] <==> order.contains(k as usize)),
        forall|i: int, j: int| 0 <= i < j < order.len() ==> order[i] != order[j],
    ensures
        exists|w: int| 0 <= w < chosen.len() && !chosen[w],
{
    if forall|w: int| 0 <= w < chosen.len() ==> chosen[w] {
        // Every index below `chosen.len()` would occur in `order`, which is too short.
        let all = Set::new(|k: int| 0 <= k < chosen.len());
        let listed = order.to_set().map(|u: usize| u as int);
        assert(all.subset_of(listed)) by {
            assert forall|k: int| all.contains(k) implies listed.contains(k) by {
                assert(chosen[k]);
                assert(order.contains(k as usize));
                assert(order.to_set().contains(k as usize));
                assert(k as usize as int == k);
            }
        }
        vstd::set_lib::lemma_int_range(0, chosen.len() as int);
        assert(all =~= vstd::set_lib::set_int_range(0, chosen.len() as int));
        order.unique_seq_to_set();
        vstd::set_lib::lemma_map_size(order.to_set(), listed, |u: usize| u as int);
        vstd::set_lib::lemma_len_subset(all, listed);
    }
}

/// A state read at `updated_at` is delivered only when strictly newer than
/// the newest delivered so far.
pub open spec fn offer_delivers(last: u64, updated_at: u64) -> bool {
    updated_at > last
}

/// The newest delivered timestamp after a state read at `updated_at` is offered.
pub open spec fn last_after_offer(last: u64, updated_at: u64) -> u64 {
    if offer_delivers(last, updated_at) {
        updated_at
    } else {
        last
    }
}

/// The timestamps delivered when the reads `offers` arrive in order after
/// `last` was the newest delivered.
pub open spec fn delivered_timestamps(last: u64, offers: Seq<u64>) -> Seq<u64>
    decreases offers.len(),
{
    if offers.len() == 0 {
        Seq::empty()
    } else {
        let rest = delivered_timestamps(last_after_offer(last, offers[0]), offers.drop_first());
        if offer_delivers(last, offers[0]) {
            seq![offers[0]] + rest
        } else {
            rest
        }
    }
}

/// Whatever reads arrive, the delivered timestamps strictly increase and all
/// lie after the one delivered when watching began.
pub proof fn law_delivered_timestamps_increase(last: u64, offers: Seq<u64>)
    ensures
        forall|i: int|
            0 <= i < delivered_timestamps(last, offers).len() ==> last < #[trigger] delivered_timestamps(
                last,
                offers,
            )[i],
        forall|i: int, j: int|
            0 <= i < j < delivered_timestamps(last, offers).len() ==> #[trigger] delivered_timestamps(
                last,
                offers,
            )[i] < #[trigger] delivered_timestamps(last, offers)[j],
    decreases offers.len(),
{
    if offers.len() > 0 {
        let next = last_after_offer(last, offers[0]);
        law_delivered_timestamps_increase(next, offers.drop_first());
        let rest = delivered_timestamps(next, offers.drop_first());
        let all = delivered_timestamps(last, offers);
        if offer_delivers(last, offers[0]) {
            assert forall|i: int| 0 <= i < all.len() implies last < #[trigger] all[i] by {
                if i > 0 {
                    assert(all[i] == rest[i - 1]);
                }
            }
            assert forall|i: int, j: int| 0 <= i < j < all.len() implies #[trigger] all[i] < #[trigger] all[j] by {
                assert(all[j] == rest[j - 1]);
                if i > 0 {
                    assert(all[i] == rest[i - 1]);
                }
            }
        }
    }
}

/// The bridge watcher remembers the newest timestamp delivered so far.
#[derive(Debug, Clone, Copy, PartialEq, Eq, Structural)]
pub struct StateWatch {
    pub last_timestamp: u64,
}

impl StateWatch {
    /// Nothing delivered yet.
    pub fn new() -> (watch: StateWatch)
        ensures
            watch.last_timestamp == 0,
    {
        StateWatch { last_timestamp: 0 }
    }

    /// The state read when watching begins is delivered as it is.
    pub fn begin(&mut self, updated_at: u64)
        ensures
            final(self).last_timestamp == updated_at,
    {
        self.last_timestamp = updated_at;
    }

    /// A later read is delivered only when strictly newer than everything
    /// delivered before; duplicates and older records are ignored.
    pub fn offer(&mut self, updated_at: u64) -> (deliver: bool)
        ensures
            deliver == offer_delivers(old(self).last_timestamp, updated_at),
            final(self).last_timestamp == last_after_offer(old(self).last_timestamp, updated_at),
    {
        if updated_at > self.last_timestamp {
            self.last_timestamp = updated_at;
            true
        } else {
            false
        }
    }
}

/// A file name the state bridge may be written under: `state.json` itself or a
/// temporary sibling `state.json.<suffix>` renamed over it.
pub open spec fn names_state_file(name: Seq<char>) -> bool {
    name == "state.json"@ || occurs_at(name, "state.json."@, 0)
}

/// Whether a changed file with this name may have touched the state bridge.
pub fn is_state_file_name(name: &str) -> (touches: bool)
    ensures
        touches == names_state_file(name@),
{
    if str_equals(name, "state.json") {
        return true;
    }
    let text = chars_of(name);
    let prefix = chars_of("state.json.");
    starts_with_text(&text, &prefix)
}

/// Whether a file with this extension is a Codex session record file (`jsonl`).
pub fn is_session_file(extension: Option<&str>) -> (session: bool)
    ensures
        session == (extension matches Some(e) && e@ == "jsonl"@),
{
    match extension {
        Some(e) => str_equals(e, "jsonl"),
        None => false,
    }
}

/// The decisions of the session watcher between reads: which turns run, which
/// files hold running turns, and which files were touched most recently.
pub struct SessionTracker {
    turns: ActiveTurns,
    active_files: TextSet,
    recent_files: Vec<String>,
}

impl SessionTracker {
    /// The turns still running.
    pub closed spec fn running(&self) -> Set<Seq<char>> {
        self.turns@
    }

    /// The files that received a lifecycle record while turns run.
    pub closed spec fn active(&self) -> Set<Seq<char>> {
        self.active_files@
    }

    /// The recently touched files, most recent first.
    pub closed spec fn recent(&self) -> Seq<Seq<char>> {
        path_texts(self.recent_files@)
    }

    /// Nothing runs yet; `recent_files` are the files found most recently modified.
    pub fn new(recent_files: Vec<String>) -> (tracker: SessionTracker)
        ensures
            tracker.running() == Set::<Seq<char>>::empty(),
            tracker.active() == Set::<Seq<char>>::empty(),
            tracker.recent() == path_texts(recent_files@),
    {
        SessionTracker { turns: ActiveTurns::new(), active_files: TextSet::new(), recent_files }
    }

    /// Some turn is still running.
    pub fn is_working(&self) -> (working: bool)
        ensures
            working == (self.running() != Set::<Seq<char>>::empty()),
    {
        self.turns.is_working()
    }

    /// The files to poll when no file-system event arrived: those with running
    /// turns while something runs, else the recently touched ones.
    pub fn poll_targets(&self) -> (files: Vec<String>)
        ensures
            self.running() != Set::<Seq<char>>::empty() ==> forall|t: Seq<char>|
                self.active().contains(t) <==> exists|i: int|
                    0 <= i < files@.len() && #[trigger] files@[i]@ == t,
            self.running() != Set::<Seq<char>>::empty() ==> forall|i: int, j: int|
                0 <= i < files@.len() && 0 <= j < files@.len() && i != j ==> files@[i]@ != files@[j]@,
            self.running() == Set::<Seq<char>>::empty() ==> path_texts(files@) == self.recent(),
    {
        if self.turns.is_working() {
            self.active_files.to_vec()
        } else {
            let files = self.recent_files.clone();
            assert(path_texts(files@) =~= path_texts(self.recent_files@)) by {
                assert(forall|i: int| 0 <= i < files@.len() ==> files@[i] == self.recent_files@[i]);
            }
            files
        }
    }

    /// After an event-driven read of `path`: a newly seen file or one that
    /// yielded records becomes the most recent, and one that yielded records
    /// holds running work.
    pub fn note_scanned(&mut self, path: String, is_new: bool, found_records: bool)
        ensures
            final(self).running() == old(self).running(),
            final(self).recent() == if is_new || found_records {
                remembered(old(self).recent(), path@)
            } else {
                old(self).recent()
            },
            final(self).active() == if found_records {
                old(self).active().insert(path@)
            } else {
                old(self).active()
            },
    {
        if is_new || found_records {
            remember_recent_file(&mut self.recent_files, path.clone());
        }
        if found_records {
            self.active_files.insert(path);
        }
    }

    /// After a timed poll of `path`: a file that yielded records holds running
    /// work and becomes the most recent.
    pub fn note_polled(&mut self, path: String, found_records: bool)
        ensures
            final(self).running() == old(self).running(),
            final(self).recent() == if found_records {
                remembered(old(self).recent(), path@)
            } else {
                old(self).recent()
            },
            final(self).active() == if found_records {
                old(self).active().insert(path@)
            } else {
                old(self).active()
            },
    {
        if found_records {
            self.active_files.insert(path.clone());
            remember_recent_file(&mut self.recent_files, path);
        }
    }

    /// Applies the records gathered in one round and reports the signal; once
    /// nothing runs, no file is tracked as holding work.
    pub fn finish_round(&mut self, records: Vec<CodexActivityRecord>) -> (signal: Option<CodexActivity>)
        ensures
            final(self).running() == after_records(old(self).running(), record_views(records@)),
            signal == batch_signal(old(self).running(), final(self).running()),
            final(self).active() == if final(self).running() == Set::<Seq<char>>::empty() {
                Set::<Seq<char>>::empty()
            } else {
                old(self).active()
            },
            final(self).recent() == old(self).recent(),
    {
        let signal = self.turns.apply(records);
        if !self.turns.is_working() {
            self.active_files.clear();
        }
        signal
    }
}

} // verus!
