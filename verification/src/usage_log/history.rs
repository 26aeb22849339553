//! Which records of the log bear on a sample, and their order in time.

use vstd::prelude::*;

use crate::text::text_of;
use crate::timestamp::{at_or_after, days_back, Timestamp, MIN_SECS};
use crate::usage_log::sample::{last_tokens, UsageLogSample};

verus! {

/// The largest log that is read, in bytes.
pub const MAX_READ_BYTES: u64 = 8_388_608;

/// How many days of history bear on a sample.
pub const HISTORY_DAYS: i64 = 30;

/// Whether a log of `len` bytes is small enough to be read.
pub fn is_readable_size(len: u64) -> (res: bool)
    ensures
        res == (len <= MAX_READ_BYTES),
{
    len <= MAX_READ_BYTES
}

/// Whether the calendar reaches back far enough from the sample for its history.
pub open spec fn has_history_window(sample: UsageLogSample) -> bool {
    days_back(sample.timestamp@, HISTORY_DAYS as int).0 >= MIN_SECS
}

/// Whether `entry` bears on `sample`: it is of the same provider and account, not later, and at
/// most thirty days earlier.
pub open spec fn relevant(sample: UsageLogSample, entry: UsageLogSample) -> bool {
    &&& entry.provider@ == sample.provider@
    &&& text_of(entry.account) == text_of(sample.account)
    &&& at_or_after(
        entry.timestamp@,
        days_back(sample.timestamp@, HISTORY_DAYS as int),
    )
    &&& at_or_after(sample.timestamp@, entry.timestamp@)
}

/// `relevant` for a given sample.
pub open spec fn relevant_to(sample: UsageLogSample) -> spec_fn(UsageLogSample) -> bool {
    |entry: UsageLogSample| relevant(sample, entry)
}

/// Whether two optional strings hold the same text or are both absent.
fn same_text(a: &Option<String>, b: &Option<String>) -> (res: bool)
    ensures
        res == (text_of(*a) == text_of(*b)),
{
    match (a, b) {
        (Some(a), Some(b)) => *a == *b,
        (None, None) => true,
        _ => false,
    }
}

/// Whether a sample can have its history read: thirty days before it are on the calendar.
pub fn reaches_back(sample: &UsageLogSample) -> (res: bool)
    ensures
        res == has_history_window(*sample),
{
    sample.timestamp.can_go_back(HISTORY_DAYS)
}

/// Whether `entry` bears on `sample`, whose history begins at `cutoff`.
fn bears_on(entry: &UsageLogSample, sample: &UsageLogSample, cutoff: &Timestamp) -> (res: bool)
    requires
        cutoff@ == days_back(sample.timestamp@, HISTORY_DAYS as int),
    ensures
        res == relevant(*sample, *entry),
{
    entry.provider == sample.provider && same_text(&entry.account, &sample.account)
        && entry.timestamp.is_at_or_after(cutoff) && sample.timestamp.is_at_or_after(
        &entry.timestamp,
    )
}

/// The index of the last record that bears on `sample` and has tokens.
pub fn last_relevant_tokens(
    records: &Vec<UsageLogSample>,
    sample: &UsageLogSample,
) -> (res: Option<usize>)
    requires
        has_history_window(*sample),
    ensures
        res is None <==> last_tokens(records@.filter(relevant_to(*sample))) is None,
        res matches Some(i) ==> i < records@.len() && records@[i as int].codex_tokens
            == last_tokens(records@.filter(relevant_to(*sample))),
{
    let cutoff: Timestamp = sample.timestamp.days_before(HISTORY_DAYS);
    let ghost p = relevant_to(*sample);
    let mut left: usize = records.len();
    assert(records@.take(left as int) =~= records@);
    while left > 0
        invariant
            left <= records@.len(),
            p == relevant_to(*sample),
            cutoff@ == days_back(sample.timestamp@, HISTORY_DAYS as int),
            last_tokens(records@.filter(p)) == last_tokens(records@.take(left as int).filter(p)),
        decreases left,
    {
        let ghost before = records@.take(left - 1);
        let entry = &records[left - 1];
        proof {
            assert(records@.take(left as int) =~= before.push(*entry));
            before.lemma_filter_push(*entry, p);
            if p(*entry) {
                assert(before.filter(p).push(*entry).drop_last() =~= before.filter(p));
            }
        }
        left = left - 1;
        if entry.codex_tokens.is_some() && bears_on(entry, sample, &cutoff) {
            return Some(left);
        }
    }
    assert(records@.take(0).filter(p) =~= Seq::empty()) by {
        reveal(Seq::filter);
    }
    None
}

/// The records, in their order in the log, that bear on `sample`.
pub fn load_relevant_entries(
    records: Vec<UsageLogSample>,
    sample: &UsageLogSample,
) -> (res: Vec<UsageLogSample>)
    requires
        has_history_window(*sample),
    ensures
        res@ == records@.filter(relevant_to(*sample)),
{
    let cutoff: Timestamp = sample.timestamp.days_before(HISTORY_DAYS);
    let ghost all = records@;
    let mut kept: Vec<UsageLogSample> = Vec::new();
    proof {
        reveal(Seq::filter);
    }
    assert(all.take(0).filter(relevant_to(*sample)) =~= Seq::empty());
    for entry in it: records
        invariant
            it.seq() == all,
            cutoff@ == days_back(sample.timestamp@, HISTORY_DAYS as int),
            kept@ == all.take(it.index() as int).filter(relevant_to(*sample)),
    {
        assert(all.take(it.index() + 1) =~= all.take(it.index() as int).push(entry));
        proof {
            all.take(it.index() as int).lemma_filter_push(entry, relevant_to(*sample));
        }
        if bears_on(&entry, sample, &cutoff) {
            kept.push(entry);
        }
    }
    assert(all.take(all.len() as int) =~= all);
    kept
}

/// Whether the records are in order of time.
pub open spec fn in_order(entries: Seq<UsageLogSample>) -> bool {
    forall|i: int, j: int|
        0 <= i <= j < entries.len() ==> at_or_after(
            (#[trigger] entries[j]).timestamp@,
            (#[trigger] entries[i]).timestamp@,
        )
}

/// Whether a record is of the given instant.
pub open spec fn of_instant(at: (int, int)) -> spec_fn(UsageLogSample) -> bool {
    |entry: UsageLogSample| entry.timestamp@ == at
}

/// Whether `sorted` holds the records of `entries` in order of time, and those of one instant in
/// the order that they had.
pub open spec fn sorted_by_time(
    entries: Seq<UsageLogSample>,
    sorted: Seq<UsageLogSample>,
) -> bool {
    &&& in_order(sorted)
    &&& forall|at: (int, int)|
        #![trigger of_instant(at)]
        sorted.filter(of_instant(at)) == entries.filter(of_instant(at))
}

/// Moving a record forward over records that are all of another instant leaves the records of
/// every instant in the order that they had.
proof fn lemma_move_forward(
    a: Seq<UsageLogSample>,
    b: Seq<UsageLogSample>,
    e: UsageLogSample,
    c: Seq<UsageLogSample>,
    at: (int, int),
)
    requires
        forall|i: int| 0 <= i < b.len() ==> (#[trigger] b[i]).timestamp@ != e.timestamp@,
    ensures
        (a + seq![e] + b + c).filter(of_instant(at)) == (a + b + seq![e] + c).filter(
            of_instant(at),
        ),
{
    broadcast use Seq::filter_distributes_over_add;

    let p = of_instant(at);
    let single = seq![e];
    if p(e) {
        assert forall|x: UsageLogSample| b.contains(x) implies !p(x) by {}
        b.lemma_all_neg_filter_empty(p);
        assert(b.filter(p) =~= Seq::empty());
        assert(a.filter(p) + single.filter(p) + b.filter(p) =~= a.filter(p) + b.filter(p)
            + single.filter(p));
    } else {
        assert forall|x: UsageLogSample| single.contains(x) implies !p(x) by {}
        single.lemma_all_neg_filter_empty(p);
        assert(single.filter(p) =~= Seq::empty());
        assert(a.filter(p) + single.filter(p) + b.filter(p) =~= a.filter(p) + b.filter(p)
            + single.filter(p));
    }
}

/// Puts the records in order of time. Records of one instant keep the order that they have.
pub fn sort_by_time(entries: &mut Vec<UsageLogSample>)
    ensures
        sorted_by_time(old(entries)@, final(entries)@),
        final(entries)@.len() == old(entries)@.len(),
{
    let ghost given = entries@;
    let mut done: usize = 0;
    while done < entries.len()
        invariant
            done <= entries@.len(),
            entries@.len() == given.len(),
            in_order(entries@.take(done as int)),
            forall|at: (int, int)|
                #![trigger of_instant(at)]
                entries@.filter(of_instant(at)) == given.filter(of_instant(at)),
        decreases entries@.len() - done,
    {
        let mut place: usize = done;
        while place > 0 && !entries[done].timestamp.is_at_or_after(&entries[place - 1].timestamp)
            invariant
                place <= done < entries@.len(),
                forall|i: int|
                    place <= i < done ==> !at_or_after(
                        entries@[done as int].timestamp@,
                        (#[trigger] entries@[i]).timestamp@,
                    ),
            decreases place,
        {
            place = place - 1;
        }
        let ghost before = entries@;
        let ghost e = before[done as int];
        if place < done {
            let entry = entries.remove(done);
            entries.insert(place, entry);
        }
        proof {
            let a = before.take(place as int);
            let b = before.subrange(place as int, done as int);
            let c = before.skip(done + 1);
            assert(before =~= a + b + seq![e] + c);
            assert(entries@ =~= a + seq![e] + b + c);
            assert forall|at: (int, int)|
                #![trigger of_instant(at)]
                entries@.filter(of_instant(at)) == given.filter(of_instant(at)) by {
                lemma_move_forward(a, b, e, c, at);
            }
            let head = before.take(done as int);
            let next = entries@.take(done + 1);
            assert forall|i: int, j: int| 0 <= i <= j < next.len() implies at_or_after(
                (#[trigger] next[j]).timestamp@,
                (#[trigger] next[i]).timestamp@,
            ) by {
                let fi = if i < place { i } else { i - 1 };
                let fj = if j < place { j } else { j - 1 };
                if i != place {
                    assert(next[i] == head[fi]);
                }
                if j != place {
                    assert(next[j] == head[fj]);
                }
                if place > 0 {
                    assert(head[place - 1] == before[place - 1]);
                }
                if i == place && j > place {
                    assert(head[fj] == before[fj]);
                }
            }
        }
        done = done + 1;
    }
    assert(entries@.take(done as int) =~= entries@);
}

/// The records of the instant of the last record end with that record.
proof fn lemma_last_of_its_instant(s: Seq<UsageLogSample>)
    requires
        s.len() > 0,
    ensures
        ({
            let same = s.filter(of_instant(s.last().timestamp@));
            &&& same.len() > 0
            &&& same.last() == s.last()
        }),
{
    reveal(Seq::filter);
}

/// Every record of `a` is in `b`, if `b` has the same records of each instant.
proof fn lemma_records_of_instants(a: Seq<UsageLogSample>, b: Seq<UsageLogSample>, i: int)
    requires
        0 <= i < a.len(),
        forall|at: (int, int)|
            #![trigger of_instant(at)]
            a.filter(of_instant(at)) == b.filter(of_instant(at)),
    ensures
        b.contains(a[i]),
{
    let p = of_instant(a[i].timestamp@);
    a.lemma_filter_contains(p, i);
    b.lemma_filter_contains_rev(p, a[i]);
}

/// Two orders of the same records that both keep each instant's order end with the same record.
proof fn lemma_same_last(a: Seq<UsageLogSample>, b: Seq<UsageLogSample>)
    requires
        in_order(a),
        in_order(b),
        a.len() > 0,
        b.len() > 0,
        forall|at: (int, int)|
            #![trigger of_instant(at)]
            a.filter(of_instant(at)) == b.filter(of_instant(at)),
    ensures
        a.last() == b.last(),
{
    lemma_records_of_instants(a, b, a.len() - 1);
    lemma_records_of_instants(b, a, b.len() - 1);
    let i = choose|i: int| 0 <= i < b.len() && b[i] == a.last();
    let j = choose|j: int| 0 <= j < a.len() && a[j] == b.last();
    assert(at_or_after(b[b.len() - 1].timestamp@, b[i].timestamp@));
    assert(at_or_after(a[a.len() - 1].timestamp@, a[j].timestamp@));
    lemma_last_of_its_instant(a);
    lemma_last_of_its_instant(b);
}

/// There is only one way to put records in order of time that keeps each instant's order.
pub proof fn law_order_is_determined(
    entries: Seq<UsageLogSample>,
    a: Seq<UsageLogSample>,
    b: Seq<UsageLogSample>,
)
    requires
        sorted_by_time(entries, a),
        sorted_by_time(entries, b),
    ensures
        a == b,
    decreases a.len(),
{
    assert forall|at: (int, int)|
        #![trigger of_instant(at)]
        a.filter(of_instant(at)) == b.filter(of_instant(at)) by {
        assert(a.filter(of_instant(at)) == entries.filter(of_instant(at)));
    }
    if a.len() == 0 {
        if b.len() > 0 {
            lemma_records_of_instants(b, a, 0);
        }
        assert(a =~= b);
    } else if b.len() == 0 {
        lemma_records_of_instants(a, b, 0);
    } else {
        lemma_same_last(a, b);
        let (x, y) = (a.drop_last(), b.drop_last());
        assert forall|at: (int, int)|
            #![trigger of_instant(at)]
            y.filter(of_instant(at)) == x.filter(of_instant(at)) by {
            reveal(Seq::filter);
            let p = of_instant(at);
            if p(a.last()) {
                assert(a.filter(p).drop_last() =~= x.filter(p));
                assert(b.filter(p).drop_last() =~= y.filter(p));
            }
        }
        assert(in_order(x)) by {
            assert(forall|i: int| 0 <= i < x.len() ==> x[i] == a[i]);
        }
        assert(in_order(y)) by {
            assert(forall|i: int| 0 <= i < y.len() ==> y[i] == b[i]);
        }
        law_order_is_determined(x, x, y);
        assert(a =~= x.push(a.last()));
        assert(b =~= y.push(b.last()));
    }
}

/// Where a record belongs among records in order of time: after all that are not later.
proof fn place_of(sorted: Seq<UsageLogSample>, entry: UsageLogSample) -> (place: int)
    requires
        in_order(sorted),
    ensures
        0 <= place <= sorted.len(),
        forall|i: int|
            0 <= i < place ==> at_or_after(
                entry.timestamp@,
                (#[trigger] sorted[i]).timestamp@,
            ),
        forall|i: int|
            place <= i < sorted.len() ==> !at_or_after(
                entry.timestamp@,
                (#[trigger] sorted[i]).timestamp@,
            ),
    decreases sorted.len(),
{
    if sorted.len() == 0 {
        0
    } else if at_or_after(entry.timestamp@, sorted.last().timestamp@) {
        assert forall|i: int| 0 <= i < sorted.len() implies at_or_after(
            entry.timestamp@,
            (#[trigger] sorted[i]).timestamp@,
        ) by {
            assert(at_or_after(sorted[sorted.len() - 1].timestamp@, sorted[i].timestamp@));
        }
        sorted.len() as int
    } else {
        let head = sorted.drop_last();
        assert(forall|i: int| 0 <= i < head.len() ==> head[i] == sorted[i]);
        let place = place_of(head, entry);
        assert forall|i: int| place <= i < sorted.len() implies !at_or_after(
            entry.timestamp@,
            (#[trigger] sorted[i]).timestamp@,
        ) by {
            if i < head.len() {
                assert(head[i] == sorted[i]);
            }
        }
        assert forall|i: int| 0 <= i < place implies at_or_after(
            entry.timestamp@,
            (#[trigger] sorted[i]).timestamp@,
        ) by {
            assert(head[i] == sorted[i]);
        }
        place
    }
}

/// An order of time of the given records. It holds the same records, each as often.
proof fn order_of(entries: Seq<UsageLogSample>) -> (sorted: Seq<UsageLogSample>)
    ensures
        sorted_by_time(entries, sorted),
        sorted.to_multiset() == entries.to_multiset(),
    decreases entries.len(),
{
    if entries.len() == 0 {
        entries
    } else {
        let head = entries.drop_last();
        let e = entries.last();
        let before = order_of(head);
        let place = place_of(before, e);
        let (a, b) = (before.take(place), before.skip(place));
        let none = Seq::<UsageLogSample>::empty();
        let sorted = before.insert(place, e);
        assert(entries =~= head.push(e));
        assert(sorted =~= a + seq![e] + b + none);
        assert(before.push(e) =~= a + b + seq![e] + none);
        assert forall|at: (int, int)|
            #![trigger of_instant(at)]
            sorted.filter(of_instant(at)) == entries.filter(of_instant(at)) by {
            lemma_move_forward(a, b, e, none, at);
            before.lemma_filter_push(e, of_instant(at));
            head.lemma_filter_push(e, of_instant(at));
            assert(before.filter(of_instant(at)) == head.filter(of_instant(at)));
        }
        assert forall|i: int, j: int| 0 <= i <= j < sorted.len() implies at_or_after(
            (#[trigger] sorted[j]).timestamp@,
            (#[trigger] sorted[i]).timestamp@,
        ) by {
            let fi = if i < place { i } else { i - 1 };
            let fj = if j < place { j } else { j - 1 };
            if i != place {
                assert(sorted[i] == before[fi]);
            }
            if j != place {
                assert(sorted[j] == before[fj]);
            }
        }
        vstd::seq_lib::to_multiset_insert(before, place, e);
        vstd::seq_lib::to_multiset_build(head, e);
        sorted
    }
}

/// All records can be put in order of time.
pub proof fn law_records_have_an_order(entries: Seq<UsageLogSample>)
    ensures
        exists|sorted: Seq<UsageLogSample>| sorted_by_time(entries, sorted),
{
    let sorted = order_of(entries);
    assert(sorted_by_time(entries, sorted));
}

/// Putting records in order of time keeps them: the same records are there, each as often.
pub proof fn law_order_keeps_records(
    entries: Seq<UsageLogSample>,
    sorted: Seq<UsageLogSample>,
)
    requires
        sorted_by_time(entries, sorted),
    ensures
        sorted.to_multiset() == entries.to_multiset(),
        sorted.len() == entries.len(),
{
    let known = order_of(entries);
    law_order_is_determined(entries, known, sorted);
    vstd::seq_lib::to_multiset_len(entries);
    vstd::seq_lib::to_multiset_len(sorted);
}

/// How often a record is among those that satisfy `p`.
proof fn lemma_filter_count(
    s: Seq<UsageLogSample>,
    p: spec_fn(UsageLogSample) -> bool,
    x: UsageLogSample,
)
    ensures
        s.filter(p).to_multiset().count(x) == (if p(x) {
            s.to_multiset().count(x)
        } else {
            0
        }),
    decreases s.len(),
{
    broadcast use vstd::multiset::group_multiset_axioms;

    if s.len() == 0 {
        reveal(Seq::filter);
        vstd::seq_lib::to_multiset_contains(s, x);
        assert(s.filter(p) =~= s);
    } else {
        let head = s.drop_last();
        let e = s.last();
        lemma_filter_count(head, p, x);
        assert(s =~= head.push(e));
        head.lemma_filter_push(e, p);
        vstd::seq_lib::to_multiset_build(head, e);
        vstd::seq_lib::to_multiset_build(head.filter(p), e);
    }
}

/// Of the same records, each as often, the same satisfy `p`, each as often.
pub proof fn lemma_filter_permuted(
    a: Seq<UsageLogSample>,
    b: Seq<UsageLogSample>,
    p: spec_fn(UsageLogSample) -> bool,
)
    requires
        a.to_multiset() == b.to_multiset(),
    ensures
        a.filter(p).to_multiset() == b.filter(p).to_multiset(),
        a.filter(p).len() == b.filter(p).len(),
{
    broadcast use vstd::multiset::group_multiset_axioms;

    assert forall|x: UsageLogSample|
        a.filter(p).to_multiset().count(x) == b.filter(p).to_multiset().count(x) by {
        lemma_filter_count(a, p, x);
        lemma_filter_count(b, p, x);
    }
    assert(a.filter(p).to_multiset() =~= b.filter(p).to_multiset());
    vstd::seq_lib::to_multiset_len(a.filter(p));
    vstd::seq_lib::to_multiset_len(b.filter(p));
}

/// Whether no two records are of the same instant.
pub open spec fn distinct_instants(entries: Seq<UsageLogSample>) -> bool {
    forall|i: int, j: int|
        0 <= i < j < entries.len() ==> (#[trigger] entries[i]).timestamp@ != (
        #[trigger] entries[j]).timestamp@
}

/// Of records of distinct instants, at most one is of a given instant.
proof fn lemma_one_of_instant(entries: Seq<UsageLogSample>, at: (int, int))
    requires
        distinct_instants(entries),
    ensures
        entries.filter(of_instant(at)).len() <= 1,
    decreases entries.len(),
{
    let p = of_instant(at);
    if entries.len() == 0 {
        entries.lemma_filter_len(p);
    } else {
        let head = entries.drop_last();
        let e = entries.last();
        assert(entries =~= head.push(e));
        assert(forall|i: int| 0 <= i < head.len() ==> head[i] == entries[i]);
        head.lemma_filter_push(e, p);
        if p(e) {
            assert forall|x: UsageLogSample| head.contains(x) implies !p(x) by {
                let i = choose|i: int| 0 <= i < head.len() && head[i] == x;
                assert(entries[i].timestamp@ != entries[entries.len() - 1].timestamp@);
            }
            head.lemma_all_neg_filter_empty(p);
        } else {
            lemma_one_of_instant(head, at);
        }
    }
}

/// The same records of distinct instants have, of each instant, the same record.
pub proof fn lemma_permuted_instants(
    a: Seq<UsageLogSample>,
    b: Seq<UsageLogSample>,
    at: (int, int),
)
    requires
        a.to_multiset() == b.to_multiset(),
        distinct_instants(a),
    ensures
        a.filter(of_instant(at)) == b.filter(of_instant(at)),
{
    let (x, y) = (a.filter(of_instant(at)), b.filter(of_instant(at)));
    lemma_filter_permuted(a, b, of_instant(at));
    lemma_one_of_instant(a, at);
    if x.len() == 1 {
        assert(x.contains(x[0]));
        vstd::seq_lib::to_multiset_contains(x, x[0]);
        vstd::seq_lib::to_multiset_contains(y, x[0]);
    }
    assert(x =~= y);
}

/// The elements of `s` at the places that are kept, in their order.
pub open spec fn kept_at<A>(s: Seq<A>, keep: spec_fn(int) -> bool) -> Seq<A>
    decreases s.len(),
{
    if s.len() == 0 {
        Seq::empty()
    } else if keep(s.len() - 1) {
        kept_at(s.drop_last(), keep).push(s.last())
    } else {
        kept_at(s.drop_last(), keep)
    }
}

/// Leaving out elements that do not satisfy `p` leaves those that do as they are.
pub proof fn lemma_kept_filter<A>(s: Seq<A>, keep: spec_fn(int) -> bool, p: spec_fn(A) -> bool)
    requires
        forall|i: int| 0 <= i < s.len() && !keep(i) ==> !p(#[trigger] s[i]),
    ensures
        kept_at(s, keep).filter(p) == s.filter(p),
    decreases s.len(),
{
    if s.len() == 0 {
        assert(s =~= Seq::empty());
    } else {
        let head = s.drop_last();
        assert forall|i: int| 0 <= i < head.len() && !keep(i) implies !p(#[trigger] head[i]) by {
            assert(head[i] == s[i]);
        }
        lemma_kept_filter(head, keep, p);
        assert(s =~= head.push(s.last()));
        assert(s.last() == s[s.len() - 1]);
        head.lemma_filter_push(s.last(), p);
        kept_at(head, keep).lemma_filter_push(s.last(), p);
    }
}

/// Records of another provider or another account, and all others that do not bear on a sample,
/// make no difference to its history, wherever in the log they are.
pub proof fn law_other_records_do_not_count(
    records: Seq<UsageLogSample>,
    keep: spec_fn(int) -> bool,
    sample: UsageLogSample,
)
    requires
        forall|i: int|
            0 <= i < records.len() && !keep(i) ==> !relevant(sample, #[trigger] records[i]),
    ensures
        kept_at(records, keep).filter(relevant_to(sample)) == records.filter(relevant_to(sample)),
{
    lemma_kept_filter(records, keep, relevant_to(sample));
}

/// The history in a log that is continued is the history in its first part, followed by that in
/// the second: what is appended removes and reorders nothing.
pub proof fn law_history_of_sum(
    first: Seq<UsageLogSample>,
    second: Seq<UsageLogSample>,
    sample: UsageLogSample,
)
    ensures
        (first + second).filter(relevant_to(sample)) == first.filter(relevant_to(sample))
            + second.filter(relevant_to(sample)),
{
    Seq::filter_distributes_over_add(first, second, relevant_to(sample));
}

/// Records that are already in order of time stay as they are.
pub proof fn law_ordered_records_stay(
    entries: Seq<UsageLogSample>,
    sorted: Seq<UsageLogSample>,
)
    requires
        in_order(entries),
        sorted_by_time(entries, sorted),
    ensures
        sorted == entries,
{
    law_order_is_determined(entries, entries, sorted);
}

/// A sample that follows records of which none is later is the last of them in order of time.
pub proof fn law_sample_stays_last(
    entries: Seq<UsageLogSample>,
    sample: UsageLogSample,
    sorted: Seq<UsageLogSample>,
)
    requires
        forall|i: int|
            0 <= i < entries.len() ==> at_or_after(
                sample.timestamp@,
                (#[trigger] entries[i]).timestamp@,
            ),
        sorted_by_time(entries.push(sample), sorted),
    ensures
        sorted.len() > 0,
        sorted.last() == sample,
{
    let all = entries.push(sample);
    lemma_last_of_its_instant(all);
    let p = of_instant(sample.timestamp@);
    assert(sorted.filter(p) == all.filter(p));
    sorted.lemma_filter_len(p);
    assert(sorted.filter(p).contains(sample)) by {
        assert(sorted.filter(p)[sorted.filter(p).len() - 1] == sample);
    }
    sorted.lemma_filter_contains_rev(p, sample);
    let i = choose|i: int| 0 <= i < sorted.len() && sorted[i] == sample;
    assert(at_or_after(sorted[sorted.len() - 1].timestamp@, sorted[i].timestamp@));
    lemma_records_of_instants(sorted, all, sorted.len() - 1);
    let j = choose|j: int| 0 <= j < all.len() && all[j] == sorted.last();
    lemma_last_of_its_instant(sorted);
}

/// Every record that bears on a sample is of its provider and account and lies in the thirty days
/// up to it, and no record that does so is left out.
pub proof fn law_history_is_exact(
    records: Seq<UsageLogSample>,
    sample: UsageLogSample,
    entry: UsageLogSample,
)
    ensures
        records.filter(relevant_to(sample)).contains(entry) <==> records.contains(entry)
            && relevant(sample, entry),
{
    let p = relevant_to(sample);
    if records.filter(p).contains(entry) {
        records.lemma_filter_contains_rev(p, entry);
        let i = choose|i: int| 0 <= i < records.filter(p).len() && records.filter(p)[i] == entry;
        records.lemma_filter_pred(p, i);
    }
    if records.contains(entry) && relevant(sample, entry) {
        let i = choose|i: int| 0 <= i < records.len() && records[i] == entry;
        records.lemma_filter_contains(p, i);
    }
}

/// A record bears on a sample exactly if it is of the same provider and the same account, or
/// neither has one, and lies in the thirty days up to the sample, both ends included.
pub proof fn law_history_by_fields(
    records: Seq<UsageLogSample>,
    sample: UsageLogSample,
    i: int,
)
    requires
        0 <= i < records.len(),
    ensures
        records.filter(relevant_to(sample)).contains(records[i]) <==> {
            let entry = records[i];
            &&& entry.provider@ == sample.provider@
            &&& match (entry.account, sample.account) {
                (Some(a), Some(b)) => a@ == b@,
                (None, None) => true,
                _ => false,
            }
            &&& at_or_after(entry.timestamp@, days_back(sample.timestamp@, 30))
            &&& at_or_after(sample.timestamp@, entry.timestamp@)
        },
{
    law_history_is_exact(records, sample, records[i]);
    assert(records.contains(records[i]));
}

/// Provider, account and time alone decide what bears on what: a record and a sample that agree in
/// them with others bear on each other exactly if those do, whatever their source, plan, model,
/// percentages and tokens are.
pub proof fn law_only_account_and_time_decide(
    entry: UsageLogSample,
    other_entry: UsageLogSample,
    sample: UsageLogSample,
    other_sample: UsageLogSample,
)
    requires
        other_entry.provider == entry.provider,
        other_entry.account == entry.account,
        other_entry.timestamp == entry.timestamp,
        other_sample.provider == sample.provider,
        other_sample.account == sample.account,
        other_sample.timestamp == sample.timestamp,
    ensures
        relevant(sample, entry) <==> relevant(other_sample, other_entry),
{
}

/// A sample bears on itself, and of two samples of one account that lie within thirty days, the
/// earlier bears on the later.
pub proof fn law_recent_records_bear(entry: UsageLogSample, sample: UsageLogSample)
    requires
        entry.provider == sample.provider,
        entry.account == sample.account,
        0 <= entry.timestamp@.1 < 1_000_000_000,
        0 <= sample.timestamp@.1 < 1_000_000_000,
        entry.timestamp@.0 < sample.timestamp@.0,
        sample.timestamp@.0 <= entry.timestamp@.0 + 30 * 86_400 - 1,
    ensures
        relevant(sample, sample),
        relevant(sample, entry),
        !relevant(entry, sample),
{
}

/// The history of a sample can be chosen exactly if thirty days before it are on the calendar.
pub proof fn law_history_needs_thirty_days(sample: UsageLogSample)
    requires
        0 <= sample.timestamp@.1 < 1_000_000_000,
    ensures
        has_history_window(sample) <==> sample.timestamp@.0 - 2_592_000 >= -8_334_601_228_800,
{
}

/// In order of time no record is before an earlier one of the list, and every two neighbours that
/// are so make a whole list that is.
pub proof fn law_order_by_neighbours(entries: Seq<UsageLogSample>)
    ensures
        in_order(entries) <==> forall|i: int|
            0 < i < entries.len() ==> at_or_after(
                (#[trigger] entries[i]).timestamp@,
                entries[i - 1].timestamp@,
            ),
    decreases entries.len(),
{
    if entries.len() > 0 {
        let head = entries.drop_last();
        law_order_by_neighbours(head);
        assert(forall|i: int| 0 <= i < head.len() ==> head[i] == entries[i]);
        if forall|i: int|
            0 < i < entries.len() ==> at_or_after(
                (#[trigger] entries[i]).timestamp@,
                entries[i - 1].timestamp@,
            ) {
            assert forall|i: int| 0 < i < head.len() implies at_or_after(
                (#[trigger] head[i]).timestamp@,
                head[i - 1].timestamp@,
            ) by {
                assert(entries[i] == head[i] && entries[i - 1] == head[i - 1]);
            }
            assert(in_order(head));
            assert forall|i: int, j: int| 0 <= i <= j < entries.len() implies at_or_after(
                (#[trigger] entries[j]).timestamp@,
                (#[trigger] entries[i]).timestamp@,
            ) by {
                if j < head.len() {
                    assert(at_or_after(head[j].timestamp@, head[i].timestamp@));
                } else if i < j {
                    assert(at_or_after(entries[j].timestamp@, entries[j - 1].timestamp@));
                    assert(at_or_after(head[j - 1].timestamp@, head[i].timestamp@));
                }
            }
        }
        if in_order(entries) {
            assert forall|i: int| 0 < i < entries.len() implies at_or_after(
                (#[trigger] entries[i]).timestamp@,
                entries[i - 1].timestamp@,
            ) by {
                assert(at_or_after(entries[i].timestamp@, entries[i - 1].timestamp@));
            }
        }
    }
}

/// Two records keep their order in the log where they are of one instant, and go by time where
/// they are not.
pub proof fn law_two_records_are_ordered(a: UsageLogSample, b: UsageLogSample)
    ensures
        at_or_after(b.timestamp@, a.timestamp@) ==> sorted_by_time(seq![a, b], seq![a, b]),
        !at_or_after(b.timestamp@, a.timestamp@) ==> sorted_by_time(seq![a, b], seq![b, a]),
{
    let none = Seq::<UsageLogSample>::empty();
    if at_or_after(b.timestamp@, a.timestamp@) {
        assert(in_order(seq![a, b]));
    } else {
        assert(in_order(seq![b, a]));
        assert forall|at: (int, int)|
            #![trigger of_instant(at)]
            seq![b, a].filter(of_instant(at)) == seq![a, b].filter(of_instant(at)) by {
            lemma_move_forward(none, seq![a], b, none, at);
            assert(none + seq![b] + seq![a] + none =~= seq![b, a]);
            assert(none + seq![a] + seq![b] + none =~= seq![a, b]);
        }
    }
}

} // verus!
