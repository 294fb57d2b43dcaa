//! The diagnostics bundle: counts, host-defined names and times.
//!
//! Redaction is a matter of shape. Nothing here has a field for the text of a
//! message, an argument, a device's name or the payload of a record.

use vstd::prelude::*;

use crate::api::{AdapterHealth, AdapterState};
use crate::ordered;
use crate::text;
use crate::time;
use crate::time::Timestamp;

verus! {

/// How many types of audit event are reported.
pub const MAX_AUDIT_SHAPES: u32 = 25;

#[derive(Debug)]
pub struct AdapterLineDto {
    pub name: String,
    pub state: String,
    pub detail: Option<String>,
}

pub open spec fn state_named(state: AdapterState) -> &'static str {
    match state {
        AdapterState::Up => "up",
        AdapterState::Down => "down",
        AdapterState::Disabled => "disabled",
    }
}

fn state_name(state: AdapterState) -> (s: &'static str)
    ensures
        s == state_named(state),
{
    match state {
        AdapterState::Up => "up",
        AdapterState::Down => "down",
        AdapterState::Disabled => "disabled",
    }
}

pub open spec fn shows_adapter(line: AdapterLineDto, entry: (String, AdapterHealth)) -> bool {
    &&& line.name@ == entry.0@
    &&& line.state@ == state_named(entry.1.state)@
    &&& text::opt_view(line.detail) == text::opt_view(entry.1.detail)
}

/// One line for each adapter, in the order of their names.
pub fn adapter_lines(adapters: &Vec<(String, AdapterHealth)>) -> (lines: Vec<AdapterLineDto>)
    ensures
        lines@.len() == adapters@.len(),
        forall|i: int|
            0 <= i < lines@.len() ==> shows_adapter(#[trigger] lines@[i], adapters@[i]),
{
    let mut lines: Vec<AdapterLineDto> = Vec::new();
    let mut i: usize = 0;
    while i < adapters.len()
        invariant
            i <= adapters@.len(),
            lines@.len() == i,
            forall|k: int| 0 <= k < i ==> shows_adapter(#[trigger] lines@[k], adapters@[k]),
        decreases adapters@.len() - i,
    {
        lines.push(
            AdapterLineDto {
                name: adapters[i].0.clone(),
                state: state_name(adapters[i].1.state).to_owned(),
                detail: text::copy_opt(&adapters[i].1.detail),
            },
        );
        i = i + 1;
    }
    lines
}

/// A tally that a store gave: none where it failed, and none where it is
/// negative.
pub open spec fn tally_of(n: Option<i64>) -> u64 {
    match n {
        Some(n) => if n < 0 {
            0
        } else {
            n as u64
        },
        None => 0,
    }
}

/// A count that never fails the bundle: a bundle is made because something is
/// wrong, and the rest of the picture is still worth having.
pub fn count(n: Option<i64>) -> (c: u64)
    ensures
        c == tally_of(n),
{
    match n {
        Some(n) => if n < 0 {
            0
        } else {
            n as u64
        },
        None => 0,
    }
}

#[derive(Debug)]
pub struct AuditShapeDto {
    pub event_type: String,
    pub count: u64,
    pub last_at: String,
}

/// A type of event and its tally. A time that cannot be written is left blank.
pub fn audit_shape(event_type: String, events: i64, last_at: Timestamp) -> (shape: AuditShapeDto)
    ensures
        shape.event_type == event_type,
        shape.count == tally_of(Some(events)),
        shape.last_at@ == time::blank_or_rfc3339(last_at),
{
    AuditShapeDto { event_type, count: count(Some(events)), last_at: time::rfc3339_or_blank(last_at) }
}

/// How many runs ended in which way.
#[derive(Debug, Clone, Copy, PartialEq, Eq, Structural)]
pub struct RunOutcomesDto {
    pub total: u64,
    pub completed: u64,
    pub failed: u64,
    pub cancelled: u64,
    pub in_flight: u64,
}

/// The runs of the rows that a predicate picks by their state.
pub open spec fn runs_where(rows: Seq<(String, i64)>, picks: spec_fn(Seq<char>) -> bool) -> nat
    decreases rows.len(),
{
    if rows.len() == 0 {
        0
    } else {
        let before = runs_where(rows.drop_last(), picks);
        if picks(rows.last().0@) {
            before + tally_of(Some(rows.last().1)) as nat
        } else {
            before
        }
    }
}

pub open spec fn all_runs(rows: Seq<(String, i64)>) -> nat {
    runs_where(rows, |s: Seq<char>| true)
}

pub open spec fn runs_in(rows: Seq<(String, i64)>, state: Seq<char>) -> nat {
    runs_where(rows, |s: Seq<char>| s == state)
}

pub open spec fn runs_under_way(rows: Seq<(String, i64)>) -> nat {
    runs_where(rows, |s: Seq<char>| s != "completed"@ && s != "failed"@ && s != "cancelled"@)
}

proof fn lemma_fewer_rows(rows: Seq<(String, i64)>, i: int)
    requires
        0 <= i <= rows.len(),
    ensures
        all_runs(rows.take(i)) <= all_runs(rows),
    decreases rows.len(),
{
    if i < rows.len() {
        assert(rows.drop_last().take(i) =~= rows.take(i));
        lemma_fewer_rows(rows.drop_last(), i);
    } else {
        assert(rows.take(i) =~= rows);
    }
}

proof fn lemma_states_differ()
    ensures
        "completed"@ != "failed"@,
        "completed"@ != "cancelled"@,
        "failed"@ != "cancelled"@,
{
    reveal_strlit("completed");
    reveal_strlit("failed");
    reveal_strlit("cancelled");
    assert("completed"@[1] == 'o');
    assert("cancelled"@[1] == 'a');
    assert("failed"@.len() == 6);
}

/// The runs by how they ended. A run whose state is none of the three terminal
/// ones is under way.
pub fn run_outcomes(rows: &Vec<(String, i64)>) -> (out: RunOutcomesDto)
    requires
        all_runs(rows@) <= u64::MAX,
    ensures
        out.total == all_runs(rows@),
        out.completed == runs_in(rows@, "completed"@),
        out.failed == runs_in(rows@, "failed"@),
        out.cancelled == runs_in(rows@, "cancelled"@),
        out.in_flight == runs_under_way(rows@),
        out.total == out.completed + out.failed + out.cancelled + out.in_flight,
{
    let mut out = RunOutcomesDto { total: 0, completed: 0, failed: 0, cancelled: 0, in_flight: 0 };
    let mut i: usize = 0;
    proof {
        assert(rows@.take(0) =~= seq![]);
        lemma_states_differ();
    }
    while i < rows.len()
        invariant
            i <= rows@.len(),
            all_runs(rows@) <= u64::MAX,
            "completed"@ != "failed"@,
            "completed"@ != "cancelled"@,
            "failed"@ != "cancelled"@,
            out.total == all_runs(rows@.take(i as int)),
            out.completed == runs_in(rows@.take(i as int), "completed"@),
            out.failed == runs_in(rows@.take(i as int), "failed"@),
            out.cancelled == runs_in(rows@.take(i as int), "cancelled"@),
            out.in_flight == runs_under_way(rows@.take(i as int)),
            out.total == out.completed + out.failed + out.cancelled + out.in_flight,
        decreases rows@.len() - i,
    {
        proof {
            assert(rows@.take(i + 1).drop_last() =~= rows@.take(i as int));
            lemma_fewer_rows(rows@, i + 1);
        }
        let n: u64 = count(Some(rows[i].1));
        let state = rows[i].0.as_str();
        out.total = out.total + n;
        if text::same(state, "completed") {
            out.completed = out.completed + n;
        } else if text::same(state, "failed") {
            out.failed = out.failed + n;
        } else if text::same(state, "cancelled") {
            out.cancelled = out.cancelled + n;
        } else {
            out.in_flight = out.in_flight + n;
        }
        i = i + 1;
    }
    assert(rows@.take(rows@.len() as int) =~= rows@);
    out
}

/// The pages that a statement of memory use counts as resident: its second
/// word.
pub open spec fn resident_pages(statm: Seq<char>) -> Option<u64> {
    let words = text::words(statm);
    if words.len() < 2 {
        None
    } else {
        match text::unsigned_number(words[1]) {
            Some(n) => if n <= u64::MAX {
                Some(n as u64)
            } else {
                None
            },
            None => None,
        }
    }
}

/// Resident memory, in kibibytes, where pages are four of them. `statm` is what
/// the system says of this process, where it says anything.
pub fn rss_kib(statm: Option<&str>) -> (r: Option<u64>)
    requires
        statm matches Some(s) ==> (resident_pages(s@) matches Some(n) ==> n <= u64::MAX / 4),
    ensures
        statm is Some ==> r == kib_of(resident_pages(statm->0@)),
        r == (match statm {
            Some(s) => match resident_pages(s@) {
                Some(pages) => Some((pages * 4) as u64),
                None => None,
            },
            None => None,
        }),
{
    let words = match statm {
        Some(s) => text::split_words(s),
        None => {
            return None;
        },
    };
    if words.len() < 2 {
        return None;
    }
    assert(words@[1]@ == text::views(words@)[1]);
    match text::parse_unsigned(words[1].as_str(), u64::MAX) {
        Some(pages) => Some(pages * 4),
        None => None,
    }
}

/// The bundle.
#[derive(Debug)]
pub struct DiagnosticsBundleDto {
    pub generated_at: String,
    pub version: String,
    pub adapters: Vec<AdapterLineDto>,
    pub migrations_applied: u64,
    pub latest_migration: Option<i64>,
    pub tools: Vec<String>,
    pub audit_shapes: Vec<AuditShapeDto>,
    pub runs: RunOutcomesDto,
    pub rss_kib: Option<u64>,
    pub uptime_secs: u64,
    pub device_count: u64,
    pub session_count: u64,
    pub message_count: u64,
}

/// The tallies that stores gave, each of them where it could be had.
#[derive(Debug, Clone, Copy)]
pub struct Tallies {
    pub migrations: Option<i64>,
    pub latest_migration: Option<i64>,
    pub devices: Option<i64>,
    pub sessions: Option<i64>,
    pub messages: Option<i64>,
}

/// What is collected of the host.
#[derive(Debug)]
pub struct HostFacts {
    pub version: String,
    pub tools: Vec<String>,
    pub audit_shapes: Vec<AuditShapeDto>,
    pub runs: RunOutcomesDto,
    pub rss_kib: Option<u64>,
    pub uptime_secs: u64,
}

/// Assemble the bundle. Messages are counted and never read.
pub fn bundle(
    now: Timestamp,
    adapters: &Vec<(String, AdapterHealth)>,
    tallies: Tallies,
    host: HostFacts,
) -> (b: DiagnosticsBundleDto)
    requires
        ordered::rising(adapters@),
    ensures
        b.generated_at@ == time::blank_or_rfc3339(now),
        b.version == host.version,
        b.adapters@.len() == adapters@.len(),
        forall|i: int|
            0 <= i < adapters@.len() ==> shows_adapter(#[trigger] b.adapters@[i], adapters@[i]),
        b.migrations_applied == tally_of(tallies.migrations),
        b.latest_migration == tallies.latest_migration,
        b.tools == host.tools,
        b.audit_shapes == host.audit_shapes,
        b.runs == host.runs,
        b.rss_kib == host.rss_kib,
        b.uptime_secs == host.uptime_secs,
        b.device_count == tally_of(tallies.devices),
        b.session_count == tally_of(tallies.sessions),
        b.message_count == tally_of(tallies.messages),
{
    DiagnosticsBundleDto {
        generated_at: time::rfc3339_or_blank(now),
        version: host.version,
        adapters: adapter_lines(adapters),
        migrations_applied: count(tallies.migrations),
        latest_migration: tallies.latest_migration,
        tools: host.tools,
        audit_shapes: host.audit_shapes,
        runs: host.runs,
        rss_kib: host.rss_kib,
        uptime_secs: host.uptime_secs,
        device_count: count(tallies.devices),
        session_count: count(tallies.sessions),
        message_count: count(tallies.messages),
    }
}

proof fn lemma_runs_add(a: Seq<(String, i64)>, b: Seq<(String, i64)>, state: Seq<char>)
    ensures
        all_runs(a + b) == all_runs(a) + all_runs(b),
        runs_in(a + b, state) == runs_in(a, state) + runs_in(b, state),
        runs_under_way(a + b) == runs_under_way(a) + runs_under_way(b),
    decreases b.len(),
{
    if b.len() == 0 {
        assert(a + b =~= a);
    } else {
        lemma_runs_add(a, b.drop_last(), state);
        assert((a + b).drop_last() =~= a + b.drop_last());
    }
}

/// The counts of runs add up: those of two tables are the sums of the two, a row
/// counts for its own state, and a count below zero counts for nothing.
pub proof fn law_counts_of_runs_add_up(
    a: Seq<(String, i64)>,
    b: Seq<(String, i64)>,
    row: (String, i64),
    state: Seq<char>,
)
    ensures
        all_runs(a + b) == all_runs(a) + all_runs(b),
        runs_in(a + b, state) == runs_in(a, state) + runs_in(b, state),
        runs_under_way(a + b) == runs_under_way(a) + runs_under_way(b),
        all_runs(seq![row]) == (if row.1 < 0 {
            0nat
        } else {
            row.1 as nat
        }),
        runs_in(seq![row], state) == (if row.0@ == state {
            all_runs(seq![row])
        } else {
            0
        }),
{
    lemma_runs_add(a, b, state);
    assert(seq![row].drop_last() =~= Seq::<(String, i64)>::empty());
    assert(seq![row].last() == row);
    reveal_with_fuel(runs_where, 2);
}

/// Every run is under way, completed, failed or cancelled, and none is two of
/// these.
pub proof fn law_every_run_is_counted_once(rows: Seq<(String, i64)>)
    ensures
        all_runs(rows) == runs_under_way(rows) + runs_in(rows, "completed"@) + runs_in(
            rows,
            "failed"@,
        ) + runs_in(rows, "cancelled"@),
    decreases rows.len(),
{
    reveal_strlit("completed");
    reveal_strlit("failed");
    reveal_strlit("cancelled");
    assert("completed"@[1] == 'o');
    assert("failed"@.len() == 6);
    assert("cancelled"@[1] == 'a' && "cancelled"@.len() == 9);
    if rows.len() > 0 {
        law_every_run_is_counted_once(rows.drop_last());
    }
}

/// The resident pages are the second number of the statement, whatever stands
/// behind it; without a second number there are none to tell.
pub proof fn law_the_second_number_is_resident(size: Seq<char>, n: nat, behind: Seq<char>)
    requires
        size.len() > 0,
        forall|k: int| 0 <= k < size.len() ==> !text::is_white_space(#[trigger] size[k]),
        n <= u64::MAX,
    ensures
        resident_pages(size + seq![' '] + text::decimal(n) + seq![' '] + behind) == Some(n as u64),
        resident_pages(size) is None,
{
    text::law_words_are_parted_by_white_space(size, ' ', text::decimal(n));
    text::law_decimal_round_trip(n);
    text::lemma_plain_has_no_sign(text::decimal(n));
    let number = text::decimal(n);
    assert forall|k: int| 0 <= k < number.len() implies !text::is_white_space(#[trigger] number[k]) by {
        assert(text::is_digit(number[k]));
    }
    text::law_words_are_parted_by_white_space(number, ' ', behind);
    let both = size + seq![' '] + number;
    text::law_words_are_parted_by_white_space(both, ' ', behind);
    assert(text::words(both) =~= seq![size, number]);
    let all = text::words(both + seq![' '] + behind);
    assert(all == seq![size, number] + text::words(behind));
    assert(all[1] == number);
}

/// An adapter is shown under its own name, as up, down or disabled, with what it
/// said of itself.
pub proof fn law_adapters_are_shown_as_they_are(
    line: AdapterLineDto,
    entry: (String, AdapterHealth),
)
    requires
        shows_adapter(line, entry),
    ensures
        line.name@ == entry.0@,
        line.state@ == "up"@ <==> entry.1.state is Up,
        line.state@ == "down"@ <==> entry.1.state is Down,
        line.state@ == "disabled"@ <==> entry.1.state is Disabled,
        text::opt_view(line.detail) == text::opt_view(entry.1.detail),
{
    reveal_strlit("up");
    reveal_strlit("down");
    reveal_strlit("disabled");
    assert("up"@.len() == 2);
    assert("down"@.len() == 4);
    assert("disabled"@.len() == 8);
}

/// Pages in kibibytes.
pub open spec fn kib_of(pages: Option<u64>) -> Option<u64> {
    match pages {
        Some(pages) => Some((pages * 4) as u64),
        None => None,
    }
}

/// A page has 4096 bytes, and a kibibyte 1024.
pub proof fn law_pages_are_told_in_kibibytes(pages: u64)
    requires
        pages <= u64::MAX / 4,
    ensures
        kib_of(Some(pages)) matches Some(kib) && kib * 1024 == pages * 4096,
        kib_of(None) is None,
{
}

/// A count that could not be had, or that is below nothing, is told as none.
pub proof fn law_counts_are_never_negative(n: i64)
    ensures
        n >= 0 ==> tally_of(Some(n)) == n,
        n < 0 ==> tally_of(Some(n)) == 0,
        tally_of(None) == 0,
{
}

} // verus!
