//! Recognition of Codex session lifecycle records and the set of turns that
//! are still running.
use vstd::prelude::*;

use crate::state::HaloState;
use crate::text::{
    TextSet,
    chars_of, contains_text, occurs_at, find_from, first_occurrence_from, lemma_contains_iff_first_occurrence,
    lemma_first_occurrence,
};

verus! {

/// A lifecycle transition reported by Codex.
#[derive(Clone, Copy, Debug, PartialEq, Eq, Structural)]
pub enum CodexActivity {
    Started,
    Completed,
}

/// The halo signal that an activity turns into.
pub open spec fn activity_signal(activity: CodexActivity) -> HaloState {
    match activity {
        CodexActivity::Started => HaloState::Working,
        CodexActivity::Completed => HaloState::Completed,
    }
}

impl CodexActivity {
    /// The halo signal that this activity turns into.
    pub fn halo_state(self) -> (state: HaloState)
        ensures
            state == activity_signal(self),
    {
        match self {
            CodexActivity::Started => HaloState::Working,
            CodexActivity::Completed => HaloState::Completed,
        }
    }
}

/// One lifecycle record: what happened and to which turn.
#[derive(Debug, Clone, PartialEq, Eq)]
pub struct CodexActivityRecord {
    pub activity: CodexActivity,
    pub turn_id: String,
}

/// The top-level shape of a session record announcing that a turn started.
pub open spec fn started_marker() -> Seq<char> {
    "\"type\":\"event_msg\",\"payload\":{\"type\":\"task_started"@
}

/// The top-level shape of a session record announcing that a turn completed.
pub open spec fn completed_marker() -> Seq<char> {
    "\"type\":\"event_msg\",\"payload\":{\"type\":\"task_complete"@
}

/// The key that introduces a turn id.
pub open spec fn turn_key() -> Seq<char> {
    "\"turn_id\":\""@
}

/// The kind of lifecycle record a line announces, if any; a start marker wins.
pub open spec fn line_activity(line: Seq<char>) -> Option<CodexActivity> {
    if contains_text(line, started_marker()) {
        Some(CodexActivity::Started)
    } else if contains_text(line, completed_marker()) {
        Some(CodexActivity::Completed)
    } else {
        None
    }
}

/// The text between the first turn key and the next double quote after it.
pub open spec fn line_turn_id(line: Seq<char>) -> Option<Seq<char>> {
    match first_occurrence_from(line, turn_key(), 0) {
        None => None,
        Some(key_at) => {
            let start: int = key_at + turn_key().len();
            match first_occurrence_from(line, seq!['"'], start) {
                None => None,
                Some(end) => Some(line.subrange(start, end)),
            }
        },
    }
}

/// The lifecycle record a session line holds: its kind and a non-empty turn id.
pub open spec fn line_record(line: Seq<char>) -> Option<(CodexActivity, Seq<char>)> {
    match (line_activity(line), line_turn_id(line)) {
        (Some(activity), Some(turn)) => if turn.len() > 0 {
            Some((activity, turn))
        } else {
            None
        },
        _ => None,
    }
}

/// Recognizes a lifecycle record from the top-level shape of one session line,
/// without parsing or keeping anything else the line holds.
pub fn activity_from_line(line: &str) -> (record: Option<CodexActivityRecord>)
    ensures
        match record {
            Some(r) => line_record(line@) == Some((r.activity, r.turn_id@)),
            None => line_record(line@) is None,
        },
{
    let chars = chars_of(line);
    let started = chars_of("\"type\":\"event_msg\",\"payload\":{\"type\":\"task_started");
    let completed = chars_of("\"type\":\"event_msg\",\"payload\":{\"type\":\"task_complete");
    let key = chars_of("\"turn_id\":\"");
    let quote = chars_of("\"");
    proof {
        reveal_strlit("\"type\":\"event_msg\",\"payload\":{\"type\":\"task_started");
        reveal_strlit("\"type\":\"event_msg\",\"payload\":{\"type\":\"task_complete");
        reveal_strlit("\"turn_id\":\"");
        reveal_strlit("\"");
        assert(quote@ =~= seq!['"']);
        lemma_contains_iff_first_occurrence(chars@, started@);
        lemma_contains_iff_first_occurrence(chars@, completed@);
        lemma_first_occurrence(chars@, key@, 0);
    }
    let activity = if find_from(&chars, &started, 0).is_some() {
        CodexActivity::Started
    } else if find_from(&chars, &completed, 0).is_some() {
        CodexActivity::Completed
    } else {
        return None;
    };
    let key_at: usize = match find_from(&chars, &key, 0) {
        Some(at) => at,
        None => return None,
    };
    let line_len: usize = chars.len();
    assert(occurs_at(chars@, key@, key_at as int));
    assert(key_at + key.len() <= line_len);
    let start: usize = key_at + key.len();
    proof {
        lemma_first_occurrence(chars@, quote@, start as int);
    }
    let end: usize = match find_from(&chars, &quote, start) {
        Some(at) => at,
        None => return None,
    };
    if end == start {
        return None;
    }
    let turn_id = line.substring_char(start, end).to_owned();
    Some(CodexActivityRecord { activity, turn_id })
}

/// The abstract content of a record: what happened and to which turn.
pub open spec fn record_view(record: CodexActivityRecord) -> (CodexActivity, Seq<char>) {
    (record.activity, record.turn_id@)
}

/// The running turns after one record: a start adds its turn, a completion removes it.
pub open spec fn after_record(turns: Set<Seq<char>>, record: (CodexActivity, Seq<char>)) -> Set<
    Seq<char>,
> {
    match record.0 {
        CodexActivity::Started => turns.insert(record.1),
        CodexActivity::Completed => turns.remove(record.1),
    }
}

/// The running turns after a batch of records taken in order.
pub open spec fn after_records(turns: Set<Seq<char>>, records: Seq<(CodexActivity, Seq<char>)>) -> Set<
    Seq<char>,
>
    decreases records.len(),
{
    if records.len() == 0 {
        turns
    } else {
        after_record(after_records(turns, records.drop_last()), records.last())
    }
}

/// What a batch announces: work began (nothing was running and now something
/// is), work finished (something was running and now nothing is), or nothing.
pub open spec fn batch_signal(before: Set<Seq<char>>, after: Set<Seq<char>>) -> Option<
    CodexActivity,
> {
    if before == Set::<Seq<char>>::empty() && after != Set::<Seq<char>>::empty() {
        Some(CodexActivity::Started)
    } else if before != Set::<Seq<char>>::empty() && after == Set::<Seq<char>>::empty() {
        Some(CodexActivity::Completed)
    } else {
        None
    }
}

/// The turns that have started and not yet completed.
pub struct ActiveTurns {
    turn_ids: TextSet,
}

impl View for ActiveTurns {
    type V = Set<Seq<char>>;

    closed spec fn view(&self) -> Set<Seq<char>> {
        self.turn_ids@
    }
}

impl ActiveTurns {
    /// No turn is running.
    pub fn new() -> (turns: ActiveTurns)
        ensures
            turns@ == Set::<Seq<char>>::empty(),
    {
        ActiveTurns { turn_ids: TextSet::new() }
    }

    /// Some turn is still running.
    pub fn is_working(&self) -> (working: bool)
        ensures
            working == (self@ != Set::<Seq<char>>::empty()),
    {
        !self.turn_ids.is_empty()
    }

    /// Applies a batch of records in order and reports whether the batch began
    /// work from nothing running, finished the last running turn, or neither.
    pub fn apply(&mut self, records: Vec<CodexActivityRecord>) -> (signal: Option<CodexActivity>)
        ensures
            final(self)@ == after_records(old(self)@, records@.map_values(|r: CodexActivityRecord| record_view(r))),
            signal == batch_signal(old(self)@, final(self)@),
    {
        let was_working = self.is_working();
        let ghost views = records@.map_values(|r: CodexActivityRecord| record_view(r));
        let mut i: usize = 0;
        while i < records.len()
            invariant
                i <= records@.len(),
                views == records@.map_values(|r: CodexActivityRecord| record_view(r)),
                self@ == after_records(old(self)@, views.take(i as int)),
            decreases records.len() - i,
        {
            let record = &records[i];
            proof {
                assert(views.take(i + 1).drop_last() =~= views.take(i as int));
            }
            match record.activity {
                CodexActivity::Started => self.turn_ids.insert(record.turn_id.clone()),
                CodexActivity::Completed => self.turn_ids.remove(&record.turn_id),
            }
            i = i + 1;
        }
        assert(views.take(records@.len() as int) =~= views);
        let working = self.is_working();
        if !was_working && working {
            Some(CodexActivity::Started)
        } else if was_working && !working {
            Some(CodexActivity::Completed)
        } else {
            None
        }
    }
}

/// Applying two batches one after the other leaves the same running turns as
/// applying them as one batch.
pub proof fn law_batches_compose(
    turns: Set<Seq<char>>,
    first: Seq<(CodexActivity, Seq<char>)>,
    second: Seq<(CodexActivity, Seq<char>)>,
)
    ensures
        after_records(turns, first + second) == after_records(after_records(turns, first), second),
    decreases second.len(),
{
    if second.len() == 0 {
        assert(first + second =~= first);
    } else {
        assert((first + second).drop_last() =~= first + second.drop_last());
        law_batches_compose(turns, first, second.drop_last());
    }
}

/// A turn that starts and completes within one batch, while nothing else runs,
/// leaves the halo dark: such historical batches raise no signal.
pub proof fn law_completed_batch_is_silent(turn: Seq<char>)
    ensures
        batch_signal(
            Set::<Seq<char>>::empty(),
            after_records(
                Set::<Seq<char>>::empty(),
                seq![(CodexActivity::Started, turn), (CodexActivity::Completed, turn)],
            ),
        ) == None::<CodexActivity>,
{
    let batch = seq![(CodexActivity::Started, turn), (CodexActivity::Completed, turn)];
    assert(batch.drop_last() =~= seq![(CodexActivity::Started, turn)]);
    assert(batch.drop_last().drop_last() =~= Seq::<(CodexActivity, Seq<char>)>::empty());
    reveal_with_fuel(after_records, 3);
    assert(after_records(Set::<Seq<char>>::empty(), batch.drop_last()) == Set::<
        Seq<char>,
    >::empty().insert(turn));
    assert(Set::<Seq<char>>::empty().insert(turn).remove(turn) =~= Set::<Seq<char>>::empty());
}

/// While another turn keeps running, completing one turn never announces
/// completion: the halo keeps breathing until all overlapping turns finish.
pub proof fn law_breathes_until_all_turns_finish(turns: Set<Seq<char>>, done: Seq<char>)
    requires
        turns.remove(done) != Set::<Seq<char>>::empty(),
    ensures
        batch_signal(turns, after_records(turns, seq![(CodexActivity::Completed, done)])) == None::<
            CodexActivity,
        >,
{
    let batch = seq![(CodexActivity::Completed, done)];
    assert(batch.drop_last() =~= Seq::<(CodexActivity, Seq<char>)>::empty());
    reveal_with_fuel(after_records, 2);
    assert(after_records(turns, batch) == turns.remove(done));
    if forall|t: Seq<char>| !turns.remove(done).contains(t) {
        assert(turns.remove(done) =~= Set::<Seq<char>>::empty());
    }
    let witness = choose|t: Seq<char>| turns.remove(done).contains(t);
    assert(turns.contains(witness));
}

/// The signals raised by successive rounds, each round a batch of records,
/// starting from the running turns `turns`; rounds that announce nothing are skipped.
pub open spec fn round_signals(
    turns: Set<Seq<char>>,
    rounds: Seq<Seq<(CodexActivity, Seq<char>)>>,
) -> Seq<CodexActivity>
    decreases rounds.len(),
{
    if rounds.len() == 0 {
        Seq::empty()
    } else {
        let next = after_records(turns, rounds[0]);
        let rest = round_signals(next, rounds.drop_first());
        match batch_signal(turns, next) {
            Some(signal) => seq![signal] + rest,
            None => rest,
        }
    }
}

/// Across successive rounds, Started and Completed alternate: from nothing
/// running the signals read Started, Completed, Started, ...; from something
/// running they begin with Completed.
pub proof fn law_signals_alternate(
    turns: Set<Seq<char>>,
    rounds: Seq<Seq<(CodexActivity, Seq<char>)>>,
)
    ensures
        forall|i: int|
            0 <= i < round_signals(turns, rounds).len() ==> (#[trigger] round_signals(turns, rounds)[i]
                == CodexActivity::Started <==> ((i % 2 == 0) == (turns == Set::<Seq<char>>::empty()))),
    decreases rounds.len(),
{
    if rounds.len() > 0 {
        let next = after_records(turns, rounds[0]);
        law_signals_alternate(next, rounds.drop_first());
        let rest = round_signals(next, rounds.drop_first());
        let all = round_signals(turns, rounds);
        match batch_signal(turns, next) {
            Some(signal) => {
                assert forall|i: int| 0 <= i < all.len() implies (#[trigger] all[i]
                    == CodexActivity::Started <==> ((i % 2 == 0) == (turns == Set::<Seq<char>>::empty()))) by {
                    if i > 0 {
                        assert(all[i] == rest[i - 1]);
                        assert(rest[i - 1] == CodexActivity::Started <==> (((i - 1) % 2 == 0) == (next
                            == Set::<Seq<char>>::empty())));
                    }
                }
            },
            None => {},
        }
    }
}

/// A round that brings no records leaves the running turns alone and raises no signal.
pub proof fn law_empty_round_is_silent(turns: Set<Seq<char>>)
    ensures
        after_records(turns, Seq::empty()) == turns,
        batch_signal(turns, after_records(turns, Seq::empty())) == None::<CodexActivity>,
{
}

/// A start only adds its own turn and a completion only removes its own: every
/// other running turn stays exactly as it was.
pub proof fn law_record_touches_only_its_turn(
    turns: Set<Seq<char>>,
    activity: CodexActivity,
    turn: Seq<char>,
    other: Seq<char>,
)
    requires
        other != turn,
    ensures
        after_records(turns, seq![(activity, turn)]).contains(other) == turns.contains(other),
        after_records(turns, seq![(activity, turn)]).contains(turn) == (activity
            == CodexActivity::Started),
{
    reveal_with_fuel(after_records, 2);
    assert(seq![(activity, turn)].drop_last() =~= Seq::<(CodexActivity, Seq<char>)>::empty());
}

/// After a batch, a turn is running exactly when the last record naming it is
/// a start, or when no record names it and it was running before.
pub proof fn law_running_turns_follow_last_record(
    turns: Set<Seq<char>>,
    records: Seq<(CodexActivity, Seq<char>)>,
    turn: Seq<char>,
)
    ensures
        after_records(turns, records).contains(turn) <==> (exists|i: int|
            0 <= i < records.len() && records[i].1 == turn && records[i].0 == CodexActivity::Started
                && forall|j: int| i < j < records.len() ==> records[j].1 != turn) || (turns.contains(
            turn,
        ) && forall|i: int| 0 <= i < records.len() ==> records[i].1 != turn),
    decreases records.len(),
{
    if records.len() > 0 {
        let earlier = records.drop_last();
        let n = records.len() - 1;
        law_running_turns_follow_last_record(turns, earlier, turn);
        if records[n].1 == turn {
            if records[n].0 == CodexActivity::Started {
                assert(records[n].1 == turn && records[n].0 == CodexActivity::Started && forall|j: int|
                    n < j < records.len() ==> records[j].1 != turn);
            } else {
                assert forall|i: int|
                    0 <= i < records.len() && records[i].1 == turn && records[i].0
                        == CodexActivity::Started implies !(forall|j: int|
                    i < j < records.len() ==> records[j].1 != turn) by {
                    assert(i != n);
                    assert(records[n].1 == turn);
                }
            }
        } else {
            if after_records(turns, records).contains(turn) {
                if turns.contains(turn) && forall|i: int| 0 <= i < earlier.len() ==> earlier[i].1 != turn {
                    assert forall|i: int| 0 <= i < records.len() implies records[i].1 != turn by {
                        if i < n {
                            assert(records[i] == earlier[i]);
                        }
                    }
                } else {
                    let i: int = choose|i: int|
                        0 <= i < earlier.len() && earlier[i].1 == turn && earlier[i].0
                            == CodexActivity::Started && forall|j: int|
                            i < j < earlier.len() ==> earlier[j].1 != turn;
                    assert(records[i] == earlier[i]);
                    assert forall|j: int| i < j < records.len() implies records[j].1 != turn by {
                        if j < n {
                            assert(records[j] == earlier[j]);
                        }
                    }
                }
            } else {
                assert forall|i: int|
                    0 <= i < records.len() && records[i].1 == turn && records[i].0
                        == CodexActivity::Started implies !(forall|j: int|
                    i < j < records.len() ==> records[j].1 != turn) by {
                    assert(i < n);
                    assert(records[i] == earlier[i]);
                    if forall|j: int| i < j < records.len() ==> records[j].1 != turn {
                        assert forall|j: int| i < j < earlier.len() implies earlier[j].1 != turn by {
                            assert(records[j] == earlier[j]);
                        }
                    }
                }
                if turns.contains(turn) && forall|i: int| 0 <= i < records.len() ==> records[i].1 != turn {
                    assert forall|i: int| 0 <= i < earlier.len() implies earlier[i].1 != turn by {
                        assert(records[i] == earlier[i]);
                    }
                }
            }
        }
    }
}

impl Default for ActiveTurns {
    /// No turn is running.
    fn default() -> (turns: ActiveTurns)
        ensures
            turns@ == Set::<Seq<char>>::empty(),
    {
        ActiveTurns::new()
    }
}

} // verus!
