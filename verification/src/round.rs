//! Whole writes and whole rounds of reading of a client: what its steps come to.
use crate::client::{
    chunk_len, due, end_reply, kept_len, moved, outcome_taken, passed, poll_place, reply, settled, table_at,
    Outcome, Poll, PollError, ReadOutcome, Table, WritePlan, CHUNK,
};
use crate::state::AppState;
use crate::worker::{bit_words, overwritten, ExceptionCode};
use vstd::prelude::*;

verus! {

/// Where a write stands after the first `k` outcomes.
pub open spec fn plan_at<T>(w: WritePlan<T>, outcomes: Seq<Outcome>, k: int) -> WritePlan<T>
    decreases k,
{
    if k <= 0 {
        w
    } else {
        moved(plan_at(w, outcomes, k - 1), outcomes[k - 1])
    }
}

/// The values that are sent next.
pub open spec fn due_values<T>(w: WritePlan<T>) -> Seq<T> {
    match due(w) {
        Some((_, v)) => v,
        None => Seq::empty(),
    }
}

/// The values that were sent in the first `k` runs, one run behind the other.
pub open spec fn sent<T>(w: WritePlan<T>, outcomes: Seq<Outcome>, k: int) -> Seq<T>
    decreases k,
{
    if k <= 0 {
        Seq::empty()
    } else {
        sent(w, outcomes, k - 1) + due_values(plan_at(w, outcomes, k - 1))
    }
}

/// Whether a write was taken to its end: the outcome of the last run decided the
/// answer, and none before did.
pub open spec fn taken_to_end<T>(w: WritePlan<T>, outcomes: Seq<Outcome>) -> bool {
    let n = outcomes.len() as int;
    &&& n > 0
    &&& forall|k: int|
        0 <= k < n - 1 ==> reply(#[trigger] plan_at(w, outcomes, k), outcomes[k]) is None
    &&& reply(plan_at(w, outcomes, n - 1), outcomes[n - 1]) is Some
}

/// The answer to a write that was taken to its end.
pub open spec fn answer<T>(w: WritePlan<T>, outcomes: Seq<Outcome>) -> Result<(), ExceptionCode> {
    let n = outcomes.len() as int;
    reply(plan_at(w, outcomes, n - 1), outcomes[n - 1])->0
}

/// In how many runs some values are sent.
pub open spec fn run_count(n: int) -> int {
    (n + CHUNK - 1) / CHUNK as int
}

/// Where a write stands after some runs that succeeded.
proof fn lemma_plan<T>(w: WritePlan<T>, outcomes: Seq<Outcome>, k: int)
    requires
        w.done == 0,
        0 <= k <= outcomes.len(),
        forall|j: int| 0 <= j < k ==> #[trigger] outcomes[j] is Done,
        k > 0 ==> CHUNK * (k - 1) < w.values.len(),
    ensures
        plan_at(w, outcomes, k) == (WritePlan {
            done: if CHUNK * k <= w.values.len() {
                CHUNK * k
            } else {
                w.values.len() as int
            },
            ..w
        }),
        sent(w, outcomes, k) == w.values.take(plan_at(w, outcomes, k).done),
    decreases k,
{
    if k > 0 {
        lemma_plan(w, outcomes, k - 1);
        let p = plan_at(w, outcomes, k - 1);
        assert(outcomes[k - 1] is Done);
        assert(p.done == CHUNK * (k - 1));
        assert(sent(w, outcomes, k) =~= w.values.take(plan_at(w, outcomes, k).done));
    } else {
        assert(sent(w, outcomes, k) =~= w.values.take(0));
    }
}

/// Of a write that was taken to its end, the runs before the last succeeded, and
/// not all was written before the last.
proof fn lemma_before_end<T>(w: WritePlan<T>, outcomes: Seq<Outcome>, k: int)
    requires
        w.done == 0,
        w.values.len() > 0,
        taken_to_end(w, outcomes),
        0 <= k < outcomes.len(),
    ensures
        forall|j: int| 0 <= j < k ==> #[trigger] outcomes[j] is Done,
        CHUNK * k < w.values.len(),
    decreases k,
{
    if k > 0 {
        lemma_before_end(w, outcomes, k - 1);
        lemma_plan(w, outcomes, k - 1);
        assert(reply(plan_at(w, outcomes, k - 1), outcomes[k - 1]) is None);
    }
}

/// A write that is taken to its end, run by run, is answered `Ok` if and only if
/// every run succeeded, and then all the values were sent, in order, in as few
/// runs as may be. Otherwise the answer is that of the run which did not succeed,
/// the last one that was sent; the runs before it succeeded, and what was sent is
/// what the values begin with.
pub proof fn law_write_sends_all<T>(w: WritePlan<T>, outcomes: Seq<Outcome>)
    requires
        w.done == 0,
        w.values.len() > 0,
        taken_to_end(w, outcomes),
    ensures
        answer(w, outcomes) is Ok <==> forall|k: int|
            0 <= k < outcomes.len() ==> #[trigger] outcomes[k] is Done,
        answer(w, outcomes) == settled(outcomes.last()),
        forall|k: int| 0 <= k < outcomes.len() - 1 ==> #[trigger] outcomes[k] is Done,
        sent(w, outcomes, outcomes.len() as int).is_prefix_of(w.values),
        answer(w, outcomes) is Ok ==> {
            &&& sent(w, outcomes, outcomes.len() as int) == w.values
            &&& outcomes.len() == run_count(w.values.len() as int)
        },
{
    let n = outcomes.len() as int;
    lemma_before_end(w, outcomes, n - 1);
    lemma_plan(w, outcomes, n - 1);
    let p = plan_at(w, outcomes, n - 1);
    assert(sent(w, outcomes, n) =~= w.values.take(
        p.done + chunk_len(p.done, w.values.len() as int),
    ));
    assert(w.values.take(w.values.len() as int) =~= w.values);
    if outcomes.last() is Done {
        assert forall|k: int| 0 <= k < outcomes.len() implies #[trigger] outcomes[k] is Done by {
            if k == n - 1 {
            }
        }
    } else {
        assert(!(outcomes[n - 1] is Done));
    }
}

/// Each run of a write goes to the address of its first value, and holds the
/// values from there on: so each value is sent to its own address, as long as
/// frames can hold it.
pub proof fn law_values_go_to_their_addresses<T>(
    w: WritePlan<T>,
    outcomes: Seq<Outcome>,
    k: int,
    i: int,
)
    requires
        w.done == 0,
        0 <= w.addr,
        w.values.len() > 0,
        taken_to_end(w, outcomes),
        0 <= k < outcomes.len(),
        0 <= i < chunk_len(CHUNK * k, w.values.len() as int),
    ensures
        due(plan_at(w, outcomes, k)) matches Some((a, v)) && {
            &&& a == (w.addr + CHUNK * k) % 65536
            &&& v.len() == chunk_len(CHUNK * k, w.values.len() as int)
            &&& v[i] == w.values[CHUNK * k + i]
            &&& w.addr + w.values.len() <= 65536 ==> a + i == w.addr + (CHUNK * k + i)
        },
{
    lemma_before_end(w, outcomes, k);
    lemma_plan(w, outcomes, k);
}

/// A write of which every run succeeds comes to its end, after as many runs as
/// its values take.
pub proof fn law_write_ends<T>(w: WritePlan<T>, outcomes: Seq<Outcome>)
    requires
        w.done == 0,
        w.values.len() > 0,
        outcomes.len() == run_count(w.values.len() as int),
        forall|k: int| 0 <= k < outcomes.len() ==> #[trigger] outcomes[k] is Done,
    ensures
        taken_to_end(w, outcomes),
{
    let n = outcomes.len() as int;
    assert forall|k: int| 0 <= k < n - 1 implies reply(
        #[trigger] plan_at(w, outcomes, k),
        outcomes[k],
    ) is None by {
        lemma_plan(w, outcomes, k);
        assert(outcomes[k] is Done);
    }
    lemma_plan(w, outcomes, n - 1);
    assert(outcomes[n - 1] is Done);
}

/// Of a write without values nothing is sent, and it is answered `Ok`.
pub proof fn law_empty_write_succeeds<T>(w: WritePlan<T>)
    requires
        w.done == 0,
        w.values.len() == 0,
    ensures
        due(w) is None,
        end_reply(w) == Some(Ok::<(), ExceptionCode>(())),
{
}

/// The answer to a write that ends with its last run is the one that it has when
/// nothing is left: both are `Ok`, and before that there is neither.
pub proof fn law_ends_agree<T>(w: WritePlan<T>, outcome: Outcome)
    requires
        0 <= w.done < w.values.len(),
        outcome is Done,
    ensures
        end_reply(w) is None,
        end_reply(moved(w, outcome)) == reply(w, outcome),
{
}

/// The tables of a device.
pub struct Tables {
    pub holding: Seq<u16>,
    pub coils: Seq<bool>,
    pub discrete: Seq<bool>,
    pub input: Seq<u16>,
}

/// The tables that a client has of a device.
pub open spec fn tables_of(s: AppState) -> Tables {
    Tables {
        holding: s.holding@,
        coils: s.coils@,
        discrete: s.discrete@,
        input: s.input_registers@,
    }
}

/// What a table holds, on-off values as numbers.
pub open spec fn cells(x: Tables, t: Table) -> Seq<u16> {
    match t {
        Table::Holding => x.holding,
        Table::Coils => bit_words(x.coils),
        Table::Discrete => bit_words(x.discrete),
        Table::Input => x.input,
    }
}

/// The values of an answer, on-off values as numbers.
pub open spec fn values_read(o: ReadOutcome) -> Seq<u16> {
    match o {
        ReadOutcome::Words(v) => v@,
        ReadOutcome::Bits(v) => bit_words(v@),
        _ => Seq::empty(),
    }
}

/// A table of which the first `n` places, as far as there are any, hold what the
/// same table of the device holds.
pub open spec fn filled(own: Seq<u16>, device: Seq<u16>, n: int) -> Seq<u16> {
    Seq::new(
        own.len(),
        |i: int|
            if i < n {
                device[i]
            } else {
                own[i]
            },
    )
}

/// A read of a client, from finding out what is due to having taken over what
/// came.
pub struct ReadStep {
    /// Which tables are enabled when it is found out what is due.
    pub enabled: Seq<bool>,
    /// Where the client stands then.
    pub at: Poll,
    pub outcome: ReadOutcome,
    pub name: Seq<char>,
    pub time: Seq<char>,
    /// The state that it leads to.
    pub after: AppState,
}

/// Where a client stands before a step: at the start, or where the step before
/// left it.
pub open spec fn place_before(steps: Seq<ReadStep>, counts: Seq<usize>, k: int) -> Poll {
    if k <= 0 {
        Poll { table: 0, offset: 0 }
    } else {
        let p = steps[k - 1].at;
        Poll {
            table: p.table,
            offset: (p.offset + chunk_len(
                p.offset as int,
                counts[p.table as int] as int,
            )) as usize,
        }
    }
}

/// The state before a step.
pub open spec fn state_before(a: AppState, steps: Seq<ReadStep>, k: int) -> AppState {
    if k <= 0 {
        a
    } else {
        steps[k - 1].after
    }
}

/// Whether a step is one of a round: what is due is read, and what came is taken
/// over.
pub open spec fn steps_on(
    a: AppState,
    steps: Seq<ReadStep>,
    counts: Seq<usize>,
    unit: u8,
    k: int,
) -> bool {
    let s = steps[k];
    &&& s.enabled.len() == 4
    &&& s.at == poll_place(place_before(steps, counts, k), counts, s.enabled)
    &&& s.at.table < 4
    &&& !passed(s.at, counts, s.enabled)
    &&& outcome_taken(
        s.at,
        state_before(a, steps, k),
        s.outcome,
        unit,
        s.name,
        s.after,
        Ok::<(), PollError>(()),
        s.time,
    )
}

/// Whether steps are those of a whole round of reading, in which every read
/// succeeds: each is one of the round, and after the last, with the tables that
/// are enabled then, nothing is left.
pub open spec fn whole_round(
    a: AppState,
    steps: Seq<ReadStep>,
    counts: Seq<usize>,
    enabled: Seq<bool>,
    unit: u8,
) -> bool {
    &&& counts.len() == 4
    &&& enabled.len() == 4
    &&& forall|k: int| 0 <= k < steps.len() ==> #[trigger] steps_on(a, steps, counts, unit, k)
    &&& poll_place(place_before(steps, counts, steps.len() as int), counts, enabled).table == 4
}

/// Whether a step reads in full what is due of a device.
pub open spec fn reads_in_full(s: ReadStep, device: Tables, counts: Seq<usize>) -> bool {
    let o = s.at.offset as int;
    values_read(s.outcome) == cells(device, table_at(s.at.table as int)).subrange(
        o,
        o + chunk_len(o, counts[s.at.table as int] as int),
    )
}

/// Whether one of the first `k` steps reads a table.
pub open spec fn is_read(steps: Seq<ReadStep>, k: int, t: int) -> bool
    decreases k,
{
    k > 0 && (steps[k - 1].at.table == t || is_read(steps, k - 1, t))
}

/// How much of a table is read when a client stands before a step.
pub open spec fn read_of(steps: Seq<ReadStep>, counts: Seq<usize>, k: int, t: int) -> int {
    let p = place_before(steps, counts, k);
    if t == p.table {
        p.offset as int
    } else if t < p.table && is_read(steps, k, t) {
        counts[t] as int
    } else {
        0
    }
}

/// A device has as much in its tables as a client reads of them.
pub open spec fn has_counts(device: Tables, counts: Seq<usize>) -> bool {
    forall|t: int| 0 <= t < 4 ==> #[trigger] cells(device, table_at(t)).len() == counts[t]
}

/// Where reading goes on: at the same place, or at the start of a later table,
/// past tables that have nothing left.
proof fn lemma_poll_place(p: Poll, counts: Seq<usize>, enabled: Seq<bool>, t: int)
    requires
        p.table <= 4,
    ensures
        ({
            let q = poll_place(p, counts, enabled);
            &&& p.table <= q.table <= 4
            &&& q.table == p.table ==> q == p
            &&& q.table > p.table ==> q.offset == 0 && passed(p, counts, enabled)
            &&& p.table < t < q.table ==> !enabled[t] || counts[t] == 0
        }),
    decreases 4 - p.table,
{
    if p.table < 4 && passed(p, counts, enabled) {
        lemma_poll_place(Poll { table: (p.table + 1) as usize, offset: 0 }, counts, enabled, t);
    }
}

/// What a read that succeeds does to the tables.
#[verifier::spinoff_prover]
proof fn lemma_taken(
    p: Poll,
    a: AppState,
    outcome: ReadOutcome,
    unit: u8,
    name: Seq<char>,
    b: AppState,
    time: Seq<char>,
    t: int,
)
    requires
        p.table < 4,
        0 <= t < 4,
        outcome_taken(p, a, outcome, unit, name, b, Ok::<(), PollError>(()), time),
    ensures
        ({
            let own = cells(tables_of(a), table_at(t));
            let v = values_read(outcome);
            cells(tables_of(b), table_at(t)) == if t == p.table {
                overwritten(
                    own,
                    p.offset as int,
                    v.take(kept_len(p.offset as int, v.len() as int, own.len() as int)),
                )
            } else {
                own
            }
        }),
{
    let own = cells(tables_of(a), table_at(t));
    let v = values_read(outcome);
    assert(cells(tables_of(b), table_at(t)) =~= if t == p.table {
        overwritten(
            own,
            p.offset as int,
            v.take(kept_len(p.offset as int, v.len() as int, own.len() as int)),
        )
    } else {
        own
    });
}

/// How far the tables are read when a client stands before a step.
#[verifier::spinoff_prover]
proof fn lemma_round(
    a: AppState,
    steps: Seq<ReadStep>,
    counts: Seq<usize>,
    unit: u8,
    device: Tables,
    k: int,
    t: int,
)
    requires
        counts.len() == 4,
        has_counts(device, counts),
        0 <= k <= steps.len(),
        0 <= t < 4,
        forall|j: int| 0 <= j < steps.len() ==> #[trigger] steps_on(a, steps, counts, unit, j),
        forall|j: int|
            0 <= j < steps.len() ==> reads_in_full(#[trigger] steps[j], device, counts),
    ensures
        ({
            let p = place_before(steps, counts, k);
            &&& p.table < 4
            &&& p.offset <= counts[p.table as int]
            &&& p.offset > 0 <==> k > 0
            &&& k > 0 ==> is_read(steps, k, p.table as int)
            &&& is_read(steps, k, t) ==> t <= p.table && counts[t] > 0
        }),
        cells(tables_of(state_before(a, steps, k)), table_at(t)) == filled(
            cells(tables_of(a), table_at(t)),
            cells(device, table_at(t)),
            read_of(steps, counts, k, t),
        ),
    decreases k,
{
    let own = cells(tables_of(a), table_at(t));
    let all = cells(device, table_at(t));
    if k > 0 {
        lemma_round(a, steps, counts, unit, device, k - 1, t);
        let p = place_before(steps, counts, k - 1);
        let s = steps[k - 1];
        assert(steps_on(a, steps, counts, unit, k - 1));
        lemma_poll_place(p, counts, s.enabled, t);
        lemma_taken(
            s.at,
            state_before(a, steps, k - 1),
            s.outcome,
            unit,
            s.name,
            s.after,
            s.time,
            t,
        );
        assert(reads_in_full(s, device, counts));
        let o = s.at.offset as int;
        let n = chunk_len(o, counts[s.at.table as int] as int);
        assert(cells(device, table_at(s.at.table as int)).len() == counts[s.at.table as int]);
        let before = cells(tables_of(state_before(a, steps, k - 1)), table_at(t));
        if t == s.at.table {
            assert(before =~= filled(own, all, o));
            let v = values_read(s.outcome);
            assert(v =~= all.subrange(o, o + n));
            assert(overwritten(
                before,
                o,
                v.take(kept_len(o, v.len() as int, before.len() as int)),
            ) =~= filled(own, all, o + n));
        } else {
            assert(is_read(steps, k, t) == is_read(steps, k - 1, t));
            assert(k == 1 ==> !is_read(steps, k - 1, t));
            assert(read_of(steps, counts, k, t) == read_of(steps, counts, k - 1, t));
        }
    } else {
        assert(own =~= filled(own, all, 0));
    }
}

/// A table that is enabled all the time is not passed over, and one that never is
/// is not read.
#[verifier::spinoff_prover]
proof fn lemma_enabled(
    a: AppState,
    steps: Seq<ReadStep>,
    counts: Seq<usize>,
    unit: u8,
    device: Tables,
    k: int,
    t: int,
)
    requires
        counts.len() == 4,
        has_counts(device, counts),
        0 <= k <= steps.len(),
        0 <= t < 4,
        forall|j: int| 0 <= j < steps.len() ==> #[trigger] steps_on(a, steps, counts, unit, j),
        forall|j: int|
            0 <= j < steps.len() ==> reads_in_full(#[trigger] steps[j], device, counts),
    ensures
        (forall|j: int| 0 <= j < steps.len() ==> (#[trigger] steps[j]).enabled[t]) && counts[t] > 0
            && t < place_before(steps, counts, k).table ==> is_read(steps, k, t),
        (forall|j: int| 0 <= j < steps.len() ==> !(#[trigger] steps[j]).enabled[t]) ==> !is_read(
            steps,
            k,
            t,
        ),
    decreases k,
{
    if k > 0 {
        lemma_enabled(a, steps, counts, unit, device, k - 1, t);
        lemma_round(a, steps, counts, unit, device, k - 1, t);
        let p = place_before(steps, counts, k - 1);
        let s = steps[k - 1];
        assert(steps_on(a, steps, counts, unit, k - 1));
        lemma_poll_place(p, counts, s.enabled, t);
    }
}

/// A round of reading in which every read succeeds in full leaves each table that
/// is read as the device has it, as far as the client has room, and every other
/// table as it was; a table with something in it is read if it is enabled all the
/// time, and none is that never is enabled.
pub proof fn law_round_reads_tables(
    a: AppState,
    steps: Seq<ReadStep>,
    counts: Seq<usize>,
    enabled: Seq<bool>,
    unit: u8,
    device: Tables,
    t: int,
)
    requires
        whole_round(a, steps, counts, enabled, unit),
        has_counts(device, counts),
        forall|k: int|
            0 <= k < steps.len() ==> reads_in_full(#[trigger] steps[k], device, counts),
        0 <= t < 4,
    ensures
        ({
            let n = steps.len() as int;
            let b = state_before(a, steps, n);
            let always = enabled[t] && forall|k: int|
                0 <= k < n ==> (#[trigger] steps[k]).enabled[t];
            let never = forall|k: int| 0 <= k < n ==> !(#[trigger] steps[k]).enabled[t];
            &&& cells(tables_of(b), table_at(t)) == filled(
                cells(tables_of(a), table_at(t)),
                cells(device, table_at(t)),
                if is_read(steps, n, t) {
                    counts[t] as int
                } else {
                    0
                },
            )
            &&& always && counts[t] > 0 ==> is_read(steps, n, t)
            &&& never ==> !is_read(steps, n, t)
        }),
{
    let n = steps.len() as int;
    let p = place_before(steps, counts, n);
    lemma_round(a, steps, counts, unit, device, n, t);
    lemma_enabled(a, steps, counts, unit, device, n, t);
    lemma_poll_place(p, counts, enabled, t);
}

/// After a round of reading in which every read succeeds in full, and in which the
/// same tables are enabled all the time, each place of an enabled table holds what
/// the device has there, as far as it is read; all else is as it was.
pub proof fn law_round_copies_device(
    a: AppState,
    steps: Seq<ReadStep>,
    counts: Seq<usize>,
    enabled: Seq<bool>,
    unit: u8,
    device: Tables,
    i: int,
)
    requires
        whole_round(a, steps, counts, enabled, unit),
        has_counts(device, counts),
        forall|k: int|
            0 <= k < steps.len() ==> reads_in_full(#[trigger] steps[k], device, counts),
        forall|k: int| 0 <= k < steps.len() ==> (#[trigger] steps[k]).enabled == enabled,
        0 <= i,
    ensures
        ({
            let b = state_before(a, steps, steps.len() as int);
            &&& b.holding@.len() == a.holding@.len()
            &&& b.coils@.len() == a.coils@.len()
            &&& b.discrete@.len() == a.discrete@.len()
            &&& b.input_registers@.len() == a.input_registers@.len()
            &&& i < a.holding@.len() ==> b.holding@[i] == if enabled[0] && i < counts[0] {
                device.holding[i]
            } else {
                a.holding@[i]
            }
            &&& i < a.coils@.len() ==> b.coils@[i] == if enabled[1] && i < counts[1] {
                device.coils[i]
            } else {
                a.coils@[i]
            }
            &&& i < a.discrete@.len() ==> b.discrete@[i] == if enabled[2] && i < counts[2] {
                device.discrete[i]
            } else {
                a.discrete@[i]
            }
            &&& i < a.input_registers@.len() ==> b.input_registers@[i] == if enabled[3] && i
                < counts[3] {
                device.input[i]
            } else {
                a.input_registers@[i]
            }
        }),
{
    let b = tables_of(state_before(a, steps, steps.len() as int));
    let own = tables_of(a);
    law_round_reads_tables(a, steps, counts, enabled, unit, device, 0);
    law_round_reads_tables(a, steps, counts, enabled, unit, device, 1);
    law_round_reads_tables(a, steps, counts, enabled, unit, device, 2);
    law_round_reads_tables(a, steps, counts, enabled, unit, device, 3);
    assert(bit_words(b.coils).len() == bit_words(own.coils).len());
    assert(bit_words(b.discrete).len() == bit_words(own.discrete).len());
    assert(cells(device, table_at(0)).len() == counts[0]);
    assert(cells(device, table_at(1)).len() == counts[1]);
    assert(cells(device, table_at(2)).len() == counts[2]);
    assert(cells(device, table_at(3)).len() == counts[3]);
    if i < own.coils.len() {
        assert(bit_words(b.coils)[i] == crate::worker::bit_word(b.coils[i]));
        assert(bit_words(own.coils)[i] == crate::worker::bit_word(own.coils[i]));
    }
    if i < own.discrete.len() {
        assert(bit_words(b.discrete)[i] == crate::worker::bit_word(b.discrete[i]));
        assert(bit_words(own.discrete)[i] == crate::worker::bit_word(own.discrete[i]));
    }
}

} // verus!
