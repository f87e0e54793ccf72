use vstd::prelude::*;

use crate::text::{ascii_lowercase, decimal, decimal_text, is_white_space, normalize, normalized, trimmed};

verus! {

/// How urgent a bullet is.
#[derive(PartialEq, Eq, Structural, Clone, Copy, Debug)]
pub enum Priority {
    Safe,
    Euclid,
    Keter,
}

/// Where a bullet stands.
#[derive(PartialEq, Eq, Structural, Clone, Copy, Debug)]
pub enum State {
    Completed,
    Active,
    Discarded,
}

/// The name under which a priority is shown.
pub open spec fn priority_name(p: Priority) -> Seq<char> {
    match p {
        Priority::Safe => "Safe"@,
        Priority::Euclid => "Euclid"@,
        Priority::Keter => "Keter"@,
    }
}

/// The name under which a state is shown.
pub open spec fn state_name(s: State) -> Seq<char> {
    match s {
        State::Completed => "Completed"@,
        State::Active => "Active"@,
        State::Discarded => "Discarded"@,
    }
}

/// The priority that a normalized name stands for.
pub open spec fn priority_named(name: Seq<char>) -> Option<Priority> {
    if name == "safe"@ {
        Some(Priority::Safe)
    } else if name == "euclid"@ {
        Some(Priority::Euclid)
    } else if name == "keter"@ {
        Some(Priority::Keter)
    } else {
        None
    }
}

/// The state that a normalized name stands for.
pub open spec fn state_named(name: Seq<char>) -> Option<State> {
    if name == "completed"@ {
        Some(State::Completed)
    } else if name == "active"@ {
        Some(State::Active)
    } else if name == "discarded"@ {
        Some(State::Discarded)
    } else {
        None
    }
}

impl Priority {
    /// The name under which this priority is shown.
    pub fn to_string(&self) -> (s: String)
        ensures
            s@ == priority_name(*self),
    {
        match self {
            Priority::Safe => "Safe".to_owned(),
            Priority::Euclid => "Euclid".to_owned(),
            Priority::Keter => "Keter".to_owned(),
        }
    }
}

impl State {
    /// The name under which this state is shown.
    pub fn to_string(&self) -> (s: String)
        ensures
            s@ == state_name(*self),
    {
        match self {
            State::Completed => "Completed".to_owned(),
            State::Active => "Active".to_owned(),
            State::Discarded => "Discarded".to_owned(),
        }
    }
}

/// Reads a normalized priority name: "safe", "euclid" or "keter".
pub fn priority_from_name(name: &str) -> (r: Option<Priority>)
    ensures
        r == priority_named(name@),
{
    let n = name.to_owned();
    if n == "safe".to_owned() {
        Some(Priority::Safe)
    } else if n == "euclid".to_owned() {
        Some(Priority::Euclid)
    } else if n == "keter".to_owned() {
        Some(Priority::Keter)
    } else {
        None
    }
}

/// Reads a normalized state name: "completed", "active" or "discarded".
pub fn state_from_name(name: &str) -> (r: Option<State>)
    ensures
        r == state_named(name@),
{
    let n = name.to_owned();
    if n == "completed".to_owned() {
        Some(State::Completed)
    } else if n == "active".to_owned() {
        Some(State::Active)
    } else if n == "discarded".to_owned() {
        Some(State::Discarded)
    } else {
        None
    }
}

/// Turns text back into a state or a priority.
pub trait ConvertEnum {
    type Item;
    type Item2;

    fn convert_to_state(&self) -> Option<Self::Item>;

    fn convert_to_priority(&self) -> Option<Self::Item2>;
}

impl ConvertEnum for String {
    type Item = State;
    type Item2 = Priority;

    /// The state named by this text, in any case and with white space around it.
    fn convert_to_state(&self) -> (r: Option<State>)
        ensures
            r == state_named(normalized(self@)),
    {
        let n = normalize(self.as_str());
        state_from_name(n.as_str())
    }

    /// The priority named by this text, in any case and with white space around it.
    fn convert_to_priority(&self) -> (r: Option<Priority>)
        ensures
            r == priority_named(normalized(self@)),
    {
        let n = normalize(self.as_str());
        priority_from_name(n.as_str())
    }
}

/// One bullet of the journal.
#[derive(Clone, Debug)]
pub struct Entry {
    pub text: String,
    pub state: State,
    pub priority: Priority,
}

/// The largest of `ids`, or 0 where there is none.
pub open spec fn latest(ids: Seq<u32>) -> u32
    decreases ids.len(),
{
    if ids.len() == 0 {
        0
    } else {
        let m = latest(ids.drop_last());
        if m < ids.last() {
            ids.last()
        } else {
            m
        }
    }
}

/// `latest` is an upper bound of the ids, and one of them where there are any.
pub proof fn lemma_latest_is_maximum(ids: Seq<u32>)
    ensures
        forall|i: int| 0 <= i < ids.len() ==> ids[i] <= latest(ids),
        ids.len() == 0 ==> latest(ids) == 0,
        ids.len() > 0 ==> ids.contains(latest(ids)),
    decreases ids.len(),
{
    if ids.len() > 0 {
        let rest = ids.drop_last();
        lemma_latest_is_maximum(rest);
        assert forall|i: int| 0 <= i < ids.len() implies ids[i] <= latest(ids) by {
            if i < ids.len() - 1 {
                assert(ids[i] == rest[i]);
            }
        }
        if latest(rest) < ids.last() {
            assert(ids[ids.len() - 1] == latest(ids));
        } else if rest.len() > 0 {
            let k = choose|k: int| 0 <= k < rest.len() && rest[k] == latest(rest);
            assert(ids[k] == latest(ids));
        } else {
            assert(ids[0] == latest(ids));
        }
    }
}

/// Recording one more migration id makes the latest id the larger of the
/// latest one before and the new one.
pub proof fn lemma_latest_after_recording(ids: Seq<u32>, id: u32)
    ensures
        latest(ids.push(id)) == (if latest(ids) < id { id } else { latest(ids) }),
{
    assert(ids.push(id).drop_last() =~= ids);
}

/// The largest of the recorded migration ids, or 0 where none is recorded.
pub fn find_latest(n: Vec<u32>) -> (number: u32)
    ensures
        number == latest(n@),
        forall|i: int| 0 <= i < n@.len() ==> n@[i] <= number,
        n@.len() == 0 ==> number == 0,
        n@.len() > 0 ==> n@.contains(number),
{
    let mut number: u32 = 0;
    let mut k: usize = 0;
    while k < n.len()
        invariant
            k <= n@.len(),
            number == latest(n@.subrange(0, k as int)),
        decreases n@.len() - k,
    {
        let i = n[k];
        assert(n@.subrange(0, k as int + 1).drop_last() =~= n@.subrange(0, k as int));
        if number < i {
            number = i;
        }
        k = k + 1;
    }
    assert(n@.subrange(0, n@.len() as int) =~= n@);
    proof {
        lemma_latest_is_maximum(n@);
    }
    number
}

/// The latest recorded migration id; `None` where no migration is recorded yet.
pub fn get_last_migration_id(ids: Vec<u32>) -> (r: Option<u32>)
    ensures
        ids@.len() == 0 ==> r is None,
        ids@.len() > 0 ==> r == Some(latest(ids@)),
{
    if ids.len() < 1 {
        None
    } else {
        Some(find_latest(ids))
    }
}

/// An entry is carried into the next migration unless it is safe, completed
/// or discarded.
pub open spec fn carried_forward(e: Entry) -> bool {
    e.priority != Priority::Safe && e.state == State::Active
}

/// Whether `entry` moves on to the next migration.
pub fn is_okay_for_new_migration(entry: &Entry) -> (r: bool)
    ensures
        r == carried_forward(*entry),
        r == (entry.priority != Priority::Safe && entry.state == State::Active),
{
    if entry.priority == Priority::Safe {
        return false;
    }
    if entry.state == State::Completed || entry.state == State::Discarded {
        return false;
    }
    true
}

/// The ids of the journal entries that are carried forward, in journal order.
pub open spec fn carried_ids(journal: Seq<(u32, Entry)>) -> Seq<u32>
    decreases journal.len(),
{
    if journal.len() == 0 {
        Seq::empty()
    } else {
        let rest = carried_ids(journal.drop_last());
        if carried_forward(journal.last().1) {
            rest.push(journal.last().0)
        } else {
            rest
        }
    }
}

/// An entry moves on exactly when its priority is not safe and it is still
/// active: a safe bullet never moves on, whatever its state, and a completed or
/// discarded one never does, whatever its priority.
pub proof fn lemma_carried_forward_rule(e: Entry)
    ensures
        carried_forward(e) <==> (e.priority != Priority::Safe && e.state == State::Active),
        e.priority == Priority::Safe ==> !carried_forward(e),
        e.state != State::Active ==> !carried_forward(e),
{
}

/// The carried ids of a journal grow entry by entry: nothing for no entries,
/// and one more entry adds its id at the end exactly when its priority is not
/// safe and it is active.
pub proof fn lemma_carried_ids_step(journal: Seq<(u32, Entry)>, row: (u32, Entry))
    ensures
        carried_ids(Seq::<(u32, Entry)>::empty()) == Seq::<u32>::empty(),
        carried_ids(journal.push(row)) == (if row.1.priority != Priority::Safe && row.1.state
            == State::Active {
            carried_ids(journal).push(row.0)
        } else {
            carried_ids(journal)
        }),
{
    assert(journal.push(row).drop_last() =~= journal);
}

/// An id is carried forward exactly when some entry with that id is neither
/// safe nor closed.
pub proof fn lemma_carried_ids_exact(journal: Seq<(u32, Entry)>)
    ensures
        forall|x: u32| #[trigger] carried_ids(journal).contains(x) <==>
            exists|i: int| 0 <= i < journal.len() && (#[trigger] journal[i]).0 == x
                && journal[i].1.priority != Priority::Safe && journal[i].1.state == State::Active,
        carried_ids(journal).len() <= journal.len(),
    decreases journal.len(),
{
    if journal.len() > 0 {
        let rest = journal.drop_last();
        lemma_carried_ids_exact(rest);
        assert forall|x: u32| #[trigger] carried_ids(journal).contains(x) <==>
            exists|i: int| 0 <= i < journal.len() && (#[trigger] journal[i]).0 == x
                && journal[i].1.priority != Priority::Safe && journal[i].1.state
                == State::Active by {
            let last = journal.len() - 1;
            if carried_ids(journal).contains(x) {
                if carried_ids(rest).contains(x) {
                    let i = choose|i: int| 0 <= i < rest.len() && (#[trigger] rest[i]).0 == x
                        && rest[i].1.priority != Priority::Safe && rest[i].1.state
                        == State::Active;
                    assert(journal[i] == rest[i]);
                } else {
                    assert(carried_forward(journal[last].1) && journal[last].0 == x);
                }
            }
            if exists|i: int| 0 <= i < journal.len() && (#[trigger] journal[i]).0 == x
                && journal[i].1.priority != Priority::Safe && journal[i].1.state
                == State::Active {
                let i = choose|i: int| 0 <= i < journal.len() && (#[trigger] journal[i]).0 == x
                    && journal[i].1.priority != Priority::Safe && journal[i].1.state
                    == State::Active;
                if i < last {
                    assert(rest[i] == journal[i]);
                    assert(carried_ids(rest).contains(x));
                    let j = choose|j: int| 0 <= j < carried_ids(rest).len() && carried_ids(rest)[j] == x;
                    if carried_forward(journal.last().1) {
                        assert(carried_ids(journal)[j] == x);
                    }
                } else {
                    assert(carried_ids(journal)[carried_ids(journal).len() - 1] == x);
                }
            }
        }
    }
}

/// What a migration does: the migration id it opens, and the entries it
/// moves into it.
pub struct Migration {
    pub next_id: u32,
    pub moved: Vec<u32>,
}

/// Plans the migration that closes migration `id`: it opens migration
/// `id + 1` and moves every entry of `journal` that is carried forward.
pub fn migrate(journal: &Vec<(u32, Entry)>, id: u32) -> (m: Migration)
    requires
        id < u32::MAX,
    ensures
        m.next_id == id + 1,
        m.moved@ == carried_ids(journal@),
        forall|x: u32| #[trigger] m.moved@.contains(x) <==>
            exists|i: int| 0 <= i < journal@.len() && (#[trigger] journal@[i]).0 == x
                && journal@[i].1.priority != Priority::Safe && journal@[i].1.state
                == State::Active,
{
    let mut moved: Vec<u32> = Vec::new();
    let mut k: usize = 0;
    while k < journal.len()
        invariant
            k <= journal@.len(),
            moved@ == carried_ids(journal@.subrange(0, k as int)),
        decreases journal@.len() - k,
    {
        let (primary_id, entry) = &journal[k];
        assert(journal@.subrange(0, k as int + 1).drop_last() =~= journal@.subrange(0, k as int));
        if is_okay_for_new_migration(entry) {
            moved.push(*primary_id);
        }
        k = k + 1;
    }
    assert(journal@.subrange(0, journal@.len() as int) =~= journal@);
    proof {
        lemma_carried_ids_exact(journal@);
    }
    Migration { next_id: id + 1, moved }
}

/// How many of `rows` (priority text, migration id) belong to migration `mid`.
pub open spec fn rows_in_migration(rows: Seq<(String, u32)>, mid: u32) -> nat
    decreases rows.len(),
{
    if rows.len() == 0 {
        0
    } else {
        rows_in_migration(rows.drop_last(), mid) + if rows.last().1 == mid { 1nat } else { 0nat }
    }
}

/// Whether a stored priority text reads as "keter".
pub open spec fn is_keter_text(p: Seq<char>) -> bool {
    normalized(p) == "keter"@
}

/// How many of `rows` belong to migration `mid` and have a keter priority.
pub open spec fn keter_rows_in_migration(rows: Seq<(String, u32)>, mid: u32) -> nat
    decreases rows.len(),
{
    if rows.len() == 0 {
        0
    } else {
        keter_rows_in_migration(rows.drop_last(), mid) + if rows.last().1 == mid && is_keter_text(
            rows.last().0@,
        ) {
            1nat
        } else {
            0nat
        }
    }
}

/// The header counts grow row by row: an empty journal counts nothing, and
/// one more row adds exactly one bullet when it belongs to the migration, and
/// exactly one keter bullet when it also has a priority text that reads
/// "keter" once lowercased and trimmed; no other row changes either count.
pub proof fn lemma_header_counts_step(rows: Seq<(String, u32)>, row: (String, u32), mid: u32)
    ensures
        rows_in_migration(Seq::<(String, u32)>::empty(), mid) == 0,
        keter_rows_in_migration(Seq::<(String, u32)>::empty(), mid) == 0,
        rows_in_migration(rows.push(row), mid) == rows_in_migration(rows, mid) + (if row.1 == mid {
            1int
        } else {
            0int
        }),
        keter_rows_in_migration(rows.push(row), mid) == keter_rows_in_migration(rows, mid) + (
        if row.1 == mid && normalized(row.0@) == "keter"@ {
            1int
        } else {
            0int
        }),
{
    assert(rows.push(row).drop_last() =~= rows);
}

/// The bullet count of a migration is the number of its rows.
pub proof fn lemma_rows_in_migration_is_filter(rows: Seq<(String, u32)>, mid: u32)
    ensures
        rows_in_migration(rows, mid) == rows.filter(|r: (String, u32)| r.1 == mid).len(),
    decreases rows.len(),
{
    reveal_with_fuel(Seq::<_>::filter, 1);
    if rows.len() > 0 {
        lemma_rows_in_migration_is_filter(rows.drop_last(), mid);
    }
}

/// There are never more keter bullets in a migration than bullets, nor more
/// bullets than rows.
pub proof fn lemma_keter_rows_bounded(rows: Seq<(String, u32)>, mid: u32)
    ensures
        keter_rows_in_migration(rows, mid) <= rows_in_migration(rows, mid),
        rows_in_migration(rows, mid) <= rows.len(),
    decreases rows.len(),
{
    if rows.len() > 0 {
        lemma_keter_rows_bounded(rows.drop_last(), mid);
    }
}

/// A prefix of the rows holds no more bullets of a migration than all of them.
proof fn lemma_rows_in_migration_prefix(rows: Seq<(String, u32)>, mid: u32, k: int)
    requires
        0 <= k <= rows.len(),
    ensures
        rows_in_migration(rows.subrange(0, k), mid) <= rows_in_migration(rows, mid),
    decreases rows.len(),
{
    if k < rows.len() {
        let rest = rows.drop_last();
        assert(rows.subrange(0, k) =~= rest.subrange(0, k));
        lemma_rows_in_migration_prefix(rest, mid, k);
    } else {
        assert(rows.subrange(0, k) =~= rows);
    }
}

/// The header numbers for migration `migration_id`, from the journal's
/// (priority, migration) rows: how many bullets it holds, and how many of
/// them are keter.
pub fn get_header_contents(rows: &Vec<(String, u32)>, migration_id: u32) -> (r: (u32, u32))
    requires
        rows_in_migration(rows@, migration_id) <= u32::MAX,
    ensures
        r.0 == rows_in_migration(rows@, migration_id),
        r.1 == keter_rows_in_migration(rows@, migration_id),
        r.1 <= r.0,
{
    let mut general_count: u32 = 0;
    let mut prior_count: u32 = 0;
    let keter = "keter".to_owned();
    proof {
        reveal_strlit("keter");
    }
    let mut k: usize = 0;
    while k < rows.len()
        invariant
            k <= rows@.len(),
            rows_in_migration(rows@, migration_id) <= u32::MAX,
            keter@ == "keter"@,
            general_count == rows_in_migration(rows@.subrange(0, k as int), migration_id),
            prior_count == keter_rows_in_migration(rows@.subrange(0, k as int), migration_id),
        decreases rows@.len() - k,
    {
        let (p, id) = &rows[k];
        let ghost before = rows@.subrange(0, k as int);
        assert(rows@.subrange(0, k as int + 1).drop_last() =~= before);
        proof {
            lemma_keter_rows_bounded(before, migration_id);
            lemma_rows_in_migration_prefix(rows@, migration_id, k as int + 1);
        }
        if *id == migration_id {
            general_count = general_count + 1;
        }
        if normalize(p.as_str()) == keter && *id == migration_id {
            prior_count = prior_count + 1;
        }
        k = k + 1;
    }
    assert(rows@.subrange(0, rows@.len() as int) =~= rows@);
    proof {
        lemma_keter_rows_bounded(rows@, migration_id);
    }
    (general_count, prior_count)
}

/// The text under which a state is stored in the journal: its name in lower case.
pub open spec fn stored_state_name(s: State) -> Seq<char> {
    match s {
        State::Completed => "completed"@,
        State::Active => "active"@,
        State::Discarded => "discarded"@,
    }
}

impl State {
    /// The text under which this state is stored in the journal.
    pub fn stored_name(&self) -> (s: String)
        ensures
            s@ == stored_state_name(*self),
    {
        match self {
            State::Completed => "completed".to_owned(),
            State::Active => "active".to_owned(),
            State::Discarded => "discarded".to_owned(),
        }
    }
}

/// Text that starts and ends with a character other than white space is left
/// as it is by trimming.
proof fn lemma_trim_keeps(s: Seq<char>)
    requires
        s.len() > 0,
        !is_white_space(s[0]),
        !is_white_space(s.last()),
    ensures
        trimmed(s) == s,
{
}

/// The name under which a priority is shown reads back as that priority.
pub proof fn lemma_priority_name_reads_back(p: Priority)
    ensures
        priority_named(normalized(priority_name(p))) == Some(p),
{
    reveal_strlit("Safe");
    reveal_strlit("Euclid");
    reveal_strlit("Keter");
    reveal_strlit("safe");
    reveal_strlit("euclid");
    reveal_strlit("keter");
    let name = priority_name(p);
    let lower = ascii_lowercase(name);
    match p {
        Priority::Safe => {
            assert(lower =~= "safe"@);
        },
        Priority::Euclid => {
            assert(lower =~= "euclid"@);
        },
        Priority::Keter => {
            assert(lower =~= "keter"@);
        },
    }
    lemma_trim_keeps(lower);
    assert("euclid"@[0] != "safe"@[0]);
    assert("keter"@[0] != "safe"@[0]);
    assert("keter"@[0] != "euclid"@[0]);
}

/// The name under which a state is shown reads back as that state.
pub proof fn lemma_state_name_reads_back(s: State)
    ensures
        state_named(normalized(state_name(s))) == Some(s),
{
    reveal_strlit("Completed");
    reveal_strlit("Active");
    reveal_strlit("Discarded");
    reveal_strlit("completed");
    reveal_strlit("active");
    reveal_strlit("discarded");
    let name = state_name(s);
    let lower = ascii_lowercase(name);
    match s {
        State::Completed => {
            assert(lower =~= "completed"@);
        },
        State::Active => {
            assert(lower =~= "active"@);
        },
        State::Discarded => {
            assert(lower =~= "discarded"@);
        },
    }
    lemma_trim_keeps(lower);
    assert("active"@[0] != "completed"@[0]);
    assert("discarded"@[0] != "completed"@[0]);
    assert("discarded"@[0] != "active"@[0]);
}

/// The text under which a state is stored reads back as that state.
pub proof fn lemma_stored_state_reads_back(s: State)
    ensures
        state_named(normalized(stored_state_name(s))) == Some(s),
{
    reveal_strlit("completed");
    reveal_strlit("active");
    reveal_strlit("discarded");
    let name = stored_state_name(s);
    let lower = ascii_lowercase(name);
    assert(lower =~= name);
    lemma_trim_keeps(lower);
    assert("active"@[0] != "completed"@[0]);
    assert("discarded"@[0] != "completed"@[0]);
    assert("discarded"@[0] != "active"@[0]);
}

/// A row to insert into the journal.
#[derive(Clone, Debug)]
pub struct NewEntry {
    pub text: String,
    pub state: String,
    pub priority: String,
    pub migration: u32,
}

/// The row that adding bullet `msg` with priority text `priority` to
/// migration `id` inserts: the bullet starts active, and the priority is kept
/// as it was written. `None` where the priority names no priority.
pub fn add_entry(msg: String, priority: String, id: u32) -> (r: Option<NewEntry>)
    ensures
        r is Some <==> priority_named(normalized(priority@)) is Some,
        r matches Some(e) ==> {
            &&& e.text@ == msg@
            &&& e.state@ == stored_state_name(State::Active)
            &&& state_named(normalized(e.state@)) == Some(State::Active)
            &&& e.priority@ == priority@
            &&& e.migration == id
        },
{
    proof {
        lemma_stored_state_reads_back(State::Active);
    }
    match priority.convert_to_priority() {
        Some(_n) => Some(
            NewEntry { text: msg, state: State::Active.stored_name(), priority, migration: id },
        ),
        None => None,
    }
}

/// The message shown where a priority name is not valid.
pub open spec fn invalid_priority_text() -> Seq<char> {
    "Priority name is not valid. Valid values are "@ + priority_name(Priority::Safe) + ", "@
        + priority_name(Priority::Euclid) + ", "@ + priority_name(Priority::Keter)
}

/// The message shown where a priority name is not valid.
pub fn invalid_priority_message() -> (r: String)
    ensures
        r@ == invalid_priority_text(),
{
    let r = "Priority name is not valid. Valid values are ".to_owned();
    let r = r.concat(Priority::Safe.to_string().as_str());
    let r = r.concat(", ");
    let r = r.concat(Priority::Euclid.to_string().as_str());
    let r = r.concat(", ");
    r.concat(Priority::Keter.to_string().as_str())
}

/// Why a journal row cannot be read back as an entry.
#[derive(PartialEq, Eq, Structural, Clone, Copy, Debug)]
pub enum CorruptRow {
    InvalidState,
    InvalidPriority,
}

/// What reading a row with text `text`, state text `state` and priority text
/// `priority` gives.
pub open spec fn decoded_entry(text: String, state: Seq<char>, priority: Seq<char>) -> Result<
    Entry,
    CorruptRow,
> {
    match state_named(normalized(state)) {
        None => Err(CorruptRow::InvalidState),
        Some(s) => match priority_named(normalized(priority)) {
            None => Err(CorruptRow::InvalidPriority),
            Some(p) => Ok(Entry { text, state: s, priority: p }),
        },
    }
}

/// Reads a journal row back as an entry.
pub fn decode_entry(text: String, state: &String, priority: &String) -> (r: Result<Entry, CorruptRow>)
    ensures
        r == decoded_entry(text, state@, priority@),
        r matches Ok(e) ==> {
            &&& e.text == text
            &&& state_named(normalized(state@)) == Some(e.state)
            &&& priority_named(normalized(priority@)) == Some(e.priority)
        },
        r == Err::<Entry, CorruptRow>(CorruptRow::InvalidState) <==> state_named(normalized(state@)) is None,
{
    let s = match state.convert_to_state() {
        Some(n) => n,
        None => return Err(CorruptRow::InvalidState),
    };
    let p = match priority.convert_to_priority() {
        Some(n) => n,
        None => return Err(CorruptRow::InvalidPriority),
    };
    Ok(Entry { text, state: s, priority: p })
}

/// Reading a row keeps what it names: where the state text names state `s`
/// and the priority text names priority `p`, the row reads back as an entry
/// with that text, that state and that priority.
pub proof fn lemma_decode_keeps_names(
    text: String,
    state: Seq<char>,
    priority: Seq<char>,
    s: State,
    p: Priority,
)
    requires
        state_named(normalized(state)) == Some(s),
        priority_named(normalized(priority)) == Some(p),
    ensures
        decoded_entry(text, state, priority) == Ok::<Entry, CorruptRow>(
            Entry { text, state: s, priority: p },
        ),
{
}

/// Every state and priority, written under its shown name or (for a state)
/// its stored name, reads back as itself.
pub proof fn lemma_decode_names_round_trip(text: String, s: State, p: Priority)
    ensures
        decoded_entry(text, state_name(s), priority_name(p)) == Ok::<Entry, CorruptRow>(
            Entry { text, state: s, priority: p },
        ),
        decoded_entry(text, stored_state_name(s), priority_name(p)) == Ok::<Entry, CorruptRow>(
            Entry { text, state: s, priority: p },
        ),
{
    lemma_state_name_reads_back(s);
    lemma_stored_state_reads_back(s);
    lemma_priority_name_reads_back(p);
}

/// A normalized name reads as a state exactly when it is that state's stored
/// name: distinct states have distinct names, and no other text names one.
pub proof fn lemma_state_named_exact(name: Seq<char>, s: State)
    ensures
        state_named(name) == Some(s) <==> name == stored_state_name(s),
{
    lemma_stored_state_reads_back(State::Completed);
    lemma_stored_state_reads_back(State::Active);
    lemma_stored_state_reads_back(State::Discarded);
}

/// A normalized name reads as a priority exactly when it is that priority's
/// shown name in lower case.
pub proof fn lemma_priority_named_exact(name: Seq<char>, p: Priority)
    ensures
        priority_named(name) == Some(p) <==> name == ascii_lowercase(priority_name(p)),
{
    reveal_strlit("Safe");
    reveal_strlit("Euclid");
    reveal_strlit("Keter");
    reveal_strlit("safe");
    reveal_strlit("euclid");
    reveal_strlit("keter");
    assert(ascii_lowercase(priority_name(Priority::Safe)) =~= "safe"@);
    assert(ascii_lowercase(priority_name(Priority::Euclid)) =~= "euclid"@);
    assert(ascii_lowercase(priority_name(Priority::Keter)) =~= "keter"@);
    assert("euclid"@[0] != "safe"@[0]);
    assert("keter"@[0] != "safe"@[0]);
    assert("keter"@[0] != "euclid"@[0]);
}

/// A row inserted by `add_entry` reads back as an active entry with the
/// priority that was given, and so moves on at the next migration exactly
/// when that priority is not safe.
pub proof fn lemma_added_entry_reads_back(text: String, priority: Seq<char>, p: Priority)
    requires
        priority_named(normalized(priority)) == Some(p),
    ensures
        decoded_entry(text, stored_state_name(State::Active), priority) == Ok::<Entry, CorruptRow>(
            Entry { text, state: State::Active, priority: p },
        ),
        carried_forward(Entry { text, state: State::Active, priority: p }) <==> p
            != Priority::Safe,
{
    lemma_stored_state_reads_back(State::Active);
}

/// The text "Err" names neither a state nor a priority.
proof fn lemma_err_names_nothing()
    ensures
        state_named(normalized("Err"@)) is None,
        priority_named(normalized("Err"@)) is None,
{
    reveal_strlit("Err");
    reveal_strlit("err");
    reveal_strlit("completed");
    reveal_strlit("active");
    reveal_strlit("discarded");
    reveal_strlit("safe");
    reveal_strlit("euclid");
    reveal_strlit("keter");
    let lower = ascii_lowercase("Err"@);
    assert(lower =~= "err"@);
    lemma_trim_keeps(lower);
    assert("err"@.len() != "completed"@.len());
    assert("err"@.len() != "active"@.len());
    assert("err"@.len() != "discarded"@.len());
    assert("err"@.len() != "safe"@.len());
    assert("err"@.len() != "euclid"@.len());
    assert("err"@.len() != "keter"@.len());
}

/// The text of an optional column, or `default` where the column could not be read.
pub open spec fn column_or(column: Option<String>, default: Seq<char>) -> Seq<char> {
    match column {
        Some(c) => c@,
        None => default,
    }
}

/// Reads a row of the current migration: a state that cannot be read counts
/// as "Completed", a priority that cannot be read as "Safe".
pub fn load_journal_entry(text: String, state: Option<String>, priority: Option<String>) -> (r:
    Result<Entry, CorruptRow>)
    ensures
        r == decoded_entry(text, column_or(state, "Completed"@), column_or(priority, "Safe"@)),
        state is None ==> r != Err::<Entry, CorruptRow>(CorruptRow::InvalidState) && (r matches Ok(
            e,
        ) ==> e.state == State::Completed),
        priority is None ==> r != Err::<Entry, CorruptRow>(CorruptRow::InvalidPriority) && (
        r matches Ok(e) ==> e.priority == Priority::Safe),
{
    proof {
        lemma_state_name_reads_back(State::Completed);
        lemma_priority_name_reads_back(Priority::Safe);
    }
    let s = match state {
        Some(s) => s,
        None => "Completed".to_owned(),
    };
    let p = match priority {
        Some(p) => p,
        None => "Safe".to_owned(),
    };
    decode_entry(text, &s, &p)
}

/// Reads a row of the whole journal: a column that cannot be read counts as
/// the text "Err".
pub fn print_all_entry(text: String, state: Option<String>, priority: Option<String>) -> (r: Result<
    Entry,
    CorruptRow,
>)
    ensures
        r == decoded_entry(text, column_or(state, "Err"@), column_or(priority, "Err"@)),
        state is None ==> r == Err::<Entry, CorruptRow>(CorruptRow::InvalidState),
        priority is None ==> r is Err,
{
    proof {
        lemma_err_names_nothing();
    }
    let s = match state {
        Some(s) => s,
        None => "Err".to_owned(),
    };
    let p = match priority {
        Some(p) => p,
        None => "Err".to_owned(),
    };
    decode_entry(text, &s, &p)
}

/// The statement that sets the state of bullet `proc_id`.
pub open spec fn change_state_sql(state: State, proc_id: u32) -> Seq<char> {
    "UPDATE Journal SET state='"@ + stored_state_name(state) + "' WHERE id="@ + decimal(
        proc_id as nat,
    ) + ";"@
}

/// The state written by the statement is the one it was given: the text
/// between the quotes reads back as that state, and the statement ends with
/// the bullet's id in decimal.
pub proof fn lemma_change_state_names_state(state: State, proc_id: u32)
    ensures
        exists|q: Seq<char>| #[trigger] state_named(normalized(q)) == Some(state) && change_state_sql(state, proc_id)
            == "UPDATE Journal SET state='"@ + q + "' WHERE id="@ + decimal(proc_id as nat) + ";"@,
{
    lemma_stored_state_reads_back(state);
    assert(state_named(normalized(stored_state_name(state))) == Some(state));
}

/// The statement that sets the state of bullet `proc_id`.
pub fn change_state_statement(state: State, proc_id: u32) -> (r: String)
    ensures
        r@ == change_state_sql(state, proc_id),
        exists|q: Seq<char>| #[trigger] state_named(normalized(q)) == Some(state) && r@ == "UPDATE Journal SET state='"@
            + q + "' WHERE id="@ + decimal(proc_id as nat) + ";"@,
{
    proof {
        lemma_change_state_names_state(state, proc_id);
    }
    let r = "UPDATE Journal SET state='".to_owned();
    let r = r.concat(state.stored_name().as_str());
    let r = r.concat("' WHERE id=");
    let r = r.concat(decimal_text(proc_id).as_str());
    r.concat(";")
}

/// The statement that deletes bullet `proc_id`.
pub open spec fn delete_sql(proc_id: u32) -> Seq<char> {
    "DELETE FROM Journal WHERE id = "@ + decimal(proc_id as nat) + ";"@
}

/// The statement that deletes bullet `proc_id`.
pub fn delete_statement(proc_id: u32) -> (r: String)
    ensures
        r@ == delete_sql(proc_id),
{
    let r = "DELETE FROM Journal WHERE id = ".to_owned();
    let r = r.concat(decimal_text(proc_id).as_str());
    r.concat(";")
}

/// The query that reads the bullets of migration `migration_id`.
pub open spec fn journal_sql(migration_id: u32) -> Seq<char> {
    "SELECT id, text, state, priority FROM Journal WHERE migration="@ + decimal(
        migration_id as nat,
    )
}

/// The query that reads the bullets of migration `migration_id`.
pub fn journal_query(migration_id: u32) -> (r: String)
    ensures
        r@ == journal_sql(migration_id),
{
    let r = "SELECT id, text, state, priority FROM Journal WHERE migration=".to_owned();
    r.concat(decimal_text(migration_id).as_str())
}

} // verus!
