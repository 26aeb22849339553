//! From the text of a log to the records that bear on a sample.

use vstd::prelude::*;

use crate::text::{
    all_ended, framed, law_appended_record_is_read_back, law_lines_of_sum, lines, one_line,
};
use crate::usage_log::history::{kept_at, relevant, relevant_to};
use crate::usage_log::sample::UsageLogSample;

verus! {

/// The records among what the lines of a log were read as, in their order: lines that hold no
/// record are passed over.
pub open spec fn readable(read: Seq<Option<UsageLogSample>>) -> Seq<UsageLogSample>
    decreases read.len(),
{
    if read.len() == 0 {
        Seq::empty()
    } else {
        match read.last() {
            Some(record) => readable(read.drop_last()).push(record),
            None => readable(read.drop_last()),
        }
    }
}

/// The records among what the lines of a log were read as.
pub fn readable_records(read: Vec<Option<UsageLogSample>>) -> (res: Vec<UsageLogSample>)
    ensures
        res@ == readable(read@),
{
    let ghost all = read@;
    let mut records: Vec<UsageLogSample> = Vec::new();
    assert(all.take(0) =~= Seq::empty());
    for line in it: read
        invariant
            it.seq() == all,
            records@ == readable(all.take(it.index() as int)),
    {
        assert(all.take(it.index() + 1).drop_last() =~= all.take(it.index() as int));
        if let Some(record) = line {
            records.push(record);
        }
    }
    assert(all.take(all.len() as int) =~= all);
    records
}

/// The records of lines, each read by `read`, in their order.
pub open spec fn records_of(
    lines: Seq<Seq<char>>,
    read: spec_fn(Seq<char>) -> Option<UsageLogSample>,
) -> Seq<UsageLogSample> {
    readable(lines.map_values(read))
}

/// The records of a log that bear on a sample, where `read` is how a line is read.
pub open spec fn history_in(
    log: Seq<char>,
    read: spec_fn(Seq<char>) -> Option<UsageLogSample>,
    sample: UsageLogSample,
) -> Seq<UsageLogSample> {
    records_of(lines(log), read).filter(relevant_to(sample))
}

/// One more line adds its record, if it holds one.
proof fn lemma_records_of_push(
    lines: Seq<Seq<char>>,
    line: Seq<char>,
    read: spec_fn(Seq<char>) -> Option<UsageLogSample>,
)
    ensures
        records_of(lines.push(line), read) == (match read(line) {
            Some(record) => records_of(lines, read).push(record),
            None => records_of(lines, read),
        }),
{
    let next = lines.push(line).map_values(read);
    assert(next.drop_last() =~= lines.map_values(read));
}

/// The records of more lines follow those of the lines before.
proof fn lemma_records_of_sum(
    first: Seq<Seq<char>>,
    second: Seq<Seq<char>>,
    read: spec_fn(Seq<char>) -> Option<UsageLogSample>,
)
    ensures
        records_of(first + second, read) == records_of(first, read) + records_of(second, read),
    decreases second.len(),
{
    if second.len() == 0 {
        assert(first + second =~= first);
        assert(second.map_values(read) =~= Seq::empty());
        assert(records_of(first, read) + records_of(second, read) =~= records_of(first, read));
    } else {
        let (head, line) = (second.drop_last(), second.last());
        lemma_records_of_sum(first, head, read);
        assert(second =~= head.push(line));
        assert(first + second =~= (first + head).push(line));
        lemma_records_of_push(head, line, read);
        lemma_records_of_push(first + head, line, read);
        assert(records_of(first + second, read) =~= records_of(first, read) + records_of(
            second,
            read,
        ));
    }
}

/// Leaving out lines without a record that bears on a sample leaves those that do as they are.
proof fn lemma_kept_lines(
    lines: Seq<Seq<char>>,
    keep: spec_fn(int) -> bool,
    read: spec_fn(Seq<char>) -> Option<UsageLogSample>,
    sample: UsageLogSample,
)
    requires
        forall|i: int|
            0 <= i < lines.len() && !keep(i) ==> (read(#[trigger] lines[i]) matches Some(record)
                ==> !relevant(sample, record)),
    ensures
        records_of(kept_at(lines, keep), read).filter(relevant_to(sample)) == records_of(
            lines,
            read,
        ).filter(relevant_to(sample)),
    decreases lines.len(),
{
    if lines.len() == 0 {
        assert(lines =~= Seq::empty());
    } else {
        let (head, line) = (lines.drop_last(), lines.last());
        assert forall|i: int| 0 <= i < head.len() && !keep(i) implies (read(
            #[trigger] head[i],
        ) matches Some(record) ==> !relevant(sample, record)) by {
            assert(head[i] == lines[i]);
        }
        lemma_kept_lines(head, keep, read, sample);
        assert(lines =~= head.push(line));
        assert(line == lines[lines.len() - 1]);
        lemma_records_of_push(head, line, read);
        lemma_records_of_push(kept_at(head, keep), line, read);
        if let Some(record) = read(line) {
            records_of(head, read).lemma_filter_push(record, relevant_to(sample));
            records_of(kept_at(head, keep), read).lemma_filter_push(record, relevant_to(sample));
        }
    }
}

/// Lines that hold no record, or one of another provider or account, make no difference to the
/// history of a sample, wherever in the log they are: one bad line hides no good one.
pub proof fn law_other_lines_do_not_count(
    log: Seq<char>,
    fuller: Seq<char>,
    keep: spec_fn(int) -> bool,
    read: spec_fn(Seq<char>) -> Option<UsageLogSample>,
    sample: UsageLogSample,
)
    requires
        lines(log) == kept_at(lines(fuller), keep),
        forall|i: int|
            0 <= i < lines(fuller).len() && !keep(i) ==> (read(#[trigger] lines(fuller)[i])
                matches Some(record) ==> !relevant(sample, record)),
    ensures
        history_in(log, read, sample) == history_in(fuller, read, sample),
{
    lemma_kept_lines(lines(fuller), keep, read, sample);
}

/// The history in a log to which text is appended, once its lines are all ended, is the history
/// that it had, followed by the history in the text.
pub proof fn law_history_of_continued_log(
    log: Seq<char>,
    more: Seq<char>,
    read: spec_fn(Seq<char>) -> Option<UsageLogSample>,
    sample: UsageLogSample,
)
    requires
        all_ended(log),
    ensures
        history_in(log + more, read, sample) == history_in(log, read, sample) + history_in(
            more,
            read,
            sample,
        ),
{
    law_lines_of_sum(log, more);
    lemma_records_of_sum(lines(log), lines(more), read);
    Seq::filter_distributes_over_add(
        records_of(lines(log), read),
        records_of(lines(more), read),
        relevant_to(sample),
    );
}

/// The same lines in another order hold the same records, each as often.
pub proof fn law_permuted_lines_hold_the_same_records(
    a: Seq<Seq<char>>,
    b: Seq<Seq<char>>,
    read: spec_fn(Seq<char>) -> Option<UsageLogSample>,
)
    requires
        a.to_multiset() == b.to_multiset(),
    ensures
        records_of(a, read).to_multiset() == records_of(b, read).to_multiset(),
    decreases a.len(),
{
    vstd::seq_lib::to_multiset_len(a);
    vstd::seq_lib::to_multiset_len(b);
    if a.len() == 0 {
        assert(a =~= b);
    } else {
        let (head, line) = (a.drop_last(), a.last());
        assert(a =~= head.push(line));
        assert(a.contains(line)) by {
            assert(a[a.len() - 1] == line);
        }
        vstd::seq_lib::to_multiset_contains(a, line);
        vstd::seq_lib::to_multiset_contains(b, line);
        let j = choose|j: int| 0 <= j < b.len() && b[j] == line;
        let (x, y) = (b.take(j), b.skip(j + 1));
        let rest = b.remove(j);
        assert(rest =~= x + y);
        assert(b =~= x.push(line) + y);
        assert(head =~= a.remove(a.len() - 1));
        vstd::seq_lib::to_multiset_remove(a, a.len() - 1);
        vstd::seq_lib::to_multiset_remove(b, j);
        law_permuted_lines_hold_the_same_records(head, rest, read);
        lemma_records_of_push(head, line, read);
        lemma_records_of_push(x, line, read);
        lemma_records_of_sum(x.push(line), y, read);
        lemma_records_of_sum(x, y, read);
        if let Some(record) = read(line) {
            let (p, q) = (records_of(x, read), records_of(y, read));
            assert(p.push(record) + q =~= (p + q).insert(p.len() as int, record));
            vstd::seq_lib::to_multiset_insert(p + q, p.len() as int, record);
            vstd::seq_lib::to_multiset_build(records_of(head, read), record);
        }
    }
}

/// Every line that holds a record adds that record at the end, and every other adds nothing.
pub proof fn law_readable_by_line(read: Seq<Option<UsageLogSample>>, record: UsageLogSample)
    ensures
        readable(Seq::empty()) == Seq::<UsageLogSample>::empty(),
        readable(read.push(Some(record))) == readable(read).push(record),
        readable(read.push(None)) == readable(read),
{
    assert(read.push(Some(record)).drop_last() =~= read);
    assert(read.push(None).drop_last() =~= read);
}

/// A record that was appended to a log on a line of its own is in the history of every sample that
/// it bears on, as the last record, and all else of the history is as it was.
pub proof fn law_appended_record_is_history(
    log: Seq<char>,
    line: Seq<char>,
    read: spec_fn(Seq<char>) -> Option<UsageLogSample>,
    record: UsageLogSample,
    sample: UsageLogSample,
)
    requires
        all_ended(log),
        one_line(line),
        read(line) == Some(record),
        relevant(sample, record),
    ensures
        history_in(log + framed(line), read, sample) == history_in(log, read, sample).push(record),
{
    law_appended_record_is_read_back(log, line);
    lemma_records_of_push(lines(log), line, read);
    records_of(lines(log), read).lemma_filter_push(record, relevant_to(sample));
}

} // verus!
