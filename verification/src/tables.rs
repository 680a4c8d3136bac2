//! What the store's statements do to the database, and what its queries find there.
//!
//! The tables of calendars, events and imports are modelled by maps from their primary keys to
//! their rows, without the times that the database adds. The laws relate what was saved to what
//! is read.

use vstd::prelude::*;

use crate::model::{CalendarView, EventView};
use crate::rows;
use crate::rows::{CalendarRowView, ColumnErrorView, EventRowView, SummaryView};
use crate::store;
use crate::store::{StatementView, StoreErrorView};
use crate::text;
use crate::validate;

verus! {

/// What was imported for a calendar: where it came from, its text, the events that were found in
/// it, and whether they were applied.
#[verifier::ext_equal]
pub struct ImportView {
    pub calendar_id: Seq<char>,
    pub source_url: Option<Seq<char>>,
    pub raw_text: Seq<char>,
    pub extracted_json: Seq<char>,
    pub applied: bool,
}

/// The tables of calendars, of events and of imports, and the number of the last import.
#[verifier::ext_equal]
pub struct Tables {
    pub calendars: Map<Seq<char>, CalendarRowView>,
    pub events: Map<(Seq<char>, Seq<char>), EventRowView>,
    pub imports: Map<int, ImportView>,
    pub last_import: int,
}

/// The tables after a statement. What refers to a calendar that is not stored is refused, and
/// changes nothing.
pub open spec fn run(tables: Tables, statement: StatementView) -> Tables {
    match statement {
        StatementView::UpsertCalendar(row) => Tables {
            calendars: tables.calendars.insert(row.id, row),
            ..tables
        },
        StatementView::DeleteEvents(calendar_id) => Tables {
            events: tables.events.restrict(
                Set::new(|key: (Seq<char>, Seq<char>)| key.0 != calendar_id),
            ),
            ..tables
        },
        StatementView::UpsertEvent(calendar_id, row) => if tables.calendars.contains_key(
            calendar_id,
        ) {
            Tables { events: tables.events.insert((calendar_id, row.id), row), ..tables }
        } else {
            tables
        },
        StatementView::RecordImport(
            calendar_id,
            source_url,
            raw_text,
            extracted_json,
        ) => if tables.calendars.contains_key(calendar_id) {
            Tables {
                imports: tables.imports.insert(
                    tables.last_import + 1,
                    ImportView {
                        calendar_id,
                        source_url,
                        raw_text,
                        extracted_json,
                        applied: false,
                    },
                ),
                last_import: tables.last_import + 1,
                ..tables
            }
        } else {
            tables
        },
        StatementView::MarkImportApplied(id) => if tables.imports.contains_key(id) {
            Tables {
                imports: tables.imports.insert(
                    id,
                    ImportView { applied: true, ..tables.imports[id] },
                ),
                ..tables
            }
        } else {
            tables
        },
    }
}

/// The tables after some statements.
pub open spec fn run_all(tables: Tables, statements: Seq<StatementView>) -> Tables
    decreases statements.len(),
{
    if statements.len() == 0 {
        tables
    } else {
        run(run_all(tables, statements.drop_last()), statements.last())
    }
}

/// The row of an event.
pub open spec fn stored_event(tables: Tables, calendar_id: Seq<char>, id: Seq<char>) -> Option<
    EventRowView,
> {
    if tables.events.contains_key((calendar_id, id)) {
        Some(tables.events[(calendar_id, id)])
    } else {
        None
    }
}

/// The row of a calendar.
pub open spec fn stored_calendar(tables: Tables, id: Seq<char>) -> Option<CalendarRowView> {
    if tables.calendars.contains_key(id) {
        Some(tables.calendars[id])
    } else {
        None
    }
}

/// The order in which events are found: by start, then by identifier.
pub open spec fn listed_before(
    start: Seq<char>,
    id: Seq<char>,
    other_start: Seq<char>,
    other_id: Seq<char>,
) -> bool {
    ||| text::text_before(start, other_start)
    ||| start == other_start && text::text_before(id, other_id)
}

/// What the queries for a calendar and for its events find: the calendar's row if there is one,
/// and each of its events' rows once, in order.
pub open spec fn finds(
    tables: Tables,
    id: Seq<char>,
    row: Option<CalendarRowView>,
    event_rows: Seq<EventRowView>,
) -> bool {
    &&& row == stored_calendar(tables, id)
    &&& row matches Some(row) ==> row.id == id
    &&& forall|i: int|
        0 <= i < event_rows.len() ==> stored_event(tables, id, (#[trigger] event_rows[i]).id)
            == Some(event_rows[i])
    &&& forall|event_id: Seq<char>| #[trigger]
        stored_event(tables, id, event_id) is Some ==> exists|i: int|
            0 <= i < event_rows.len() && (#[trigger] event_rows[i]).id == event_id
    &&& forall|i: int, j: int|
        0 <= i < j < event_rows.len() ==> listed_before(
            (#[trigger] event_rows[i]).start,
            event_rows[i].id,
            (#[trigger] event_rows[j]).start,
            event_rows[j].id,
        )
}

/// The line of a calendar's row in the list of calendars.
pub open spec fn summary_of(row: CalendarRowView) -> SummaryView {
    SummaryView {
        id: row.id,
        title: row.title,
        year: row.year,
        region: row.region,
        exam_type: row.exam_type,
    }
}

/// The order of the list of calendars: by region, type, year and identifier.
pub open spec fn summary_before(a: SummaryView, b: SummaryView) -> bool {
    ||| text::text_before(a.region, b.region)
    ||| a.region == b.region && text::text_before(a.exam_type, b.exam_type)
    ||| a.region == b.region && a.exam_type == b.exam_type && a.year < b.year
    ||| a.region == b.region && a.exam_type == b.exam_type && a.year == b.year && text::text_before(
        a.id,
        b.id,
    )
}

/// A summary of a calendar shows the columns of its row, and summaries are ordered by the first of
/// region, type, year and identifier in which they differ.
pub proof fn summaries_show_their_rows(row: CalendarRowView, a: SummaryView, b: SummaryView)
    ensures
        summary_of(row).id == row.id && summary_of(row).title == row.title,
        summary_of(row).year == row.year && summary_of(row).region == row.region,
        summary_of(row).exam_type == row.exam_type,
        a.region != b.region ==> (summary_before(a, b) <==> text::text_before(a.region, b.region)),
        a.region == b.region && a.exam_type != b.exam_type ==> (summary_before(a, b)
            <==> text::text_before(a.exam_type, b.exam_type)),
        a.region == b.region && a.exam_type == b.exam_type && a.year != b.year ==> (summary_before(
            a,
            b,
        ) <==> a.year < b.year),
        a.region == b.region && a.exam_type == b.exam_type && a.year == b.year ==> (summary_before(
            a,
            b,
        ) <==> text::text_before(a.id, b.id)),
{
    text::text_order_is_total(a.region, b.region);
    text::text_order_is_total(a.exam_type, b.exam_type);
    text::text_not_before_itself(a.region);
    text::text_not_before_itself(a.exam_type);
}

/// What the query for all calendars finds: a line for each calendar, in order.
pub open spec fn lists(tables: Tables, listed: Seq<SummaryView>) -> bool {
    &&& forall|i: int|
        0 <= i < listed.len() ==> {
            &&& stored_calendar(tables, (#[trigger] listed[i]).id) matches Some(row)
            &&& summary_of(row) == listed[i]
        }
    &&& forall|id: Seq<char>| #[trigger]
        stored_calendar(tables, id) is Some ==> exists|i: int|
            0 <= i < listed.len() && (#[trigger] listed[i]).id == id
    &&& forall|i: int, j: int|
        0 <= i < j < listed.len() ==> summary_before(#[trigger] listed[i], #[trigger] listed[j])
}

/// The last event of an identifier in a list.
pub open spec fn last_version(events: Seq<EventView>, id: Seq<char>) -> Option<EventView>
    decreases events.len(),
{
    if events.len() == 0 {
        None
    } else if events.last().id == id {
        Some(events.last())
    } else {
        last_version(events.drop_last(), id)
    }
}

/// The row of an optional event.
pub open spec fn optional_row(event: Option<EventView>) -> Option<EventRowView> {
    match event {
        Some(event) => Some(rows::event_row_of(event)),
        None => None,
    }
}

/// The tables hold a calendar: its row, and for each identifier the row of its last event.
pub open spec fn holds(tables: Tables, calendar: CalendarView) -> bool {
    &&& stored_calendar(tables, calendar.id) == Some(rows::calendar_row_of(calendar))
    &&& forall|id: Seq<char>| #[trigger]
        stored_event(tables, calendar.id, id) == optional_row(last_version(calendar.events, id))
}

/// A row, if there is one, is read as an event, if there is one.
pub open spec fn reads_as(row: Option<EventRowView>, event: Option<EventView>) -> bool {
    match (row, event) {
        (Some(row), Some(event)) => rows::read_event_row(row) == Ok::<_, ColumnErrorView>(event),
        (None, None) => true,
        _ => false,
    }
}

/// The row of each event of a list is read as that event.
pub open spec fn events_read_back(events: Seq<EventView>) -> bool {
    forall|i: int|
        0 <= i < events.len() ==> rows::read_event_row(rows::event_row_of(#[trigger] events[i]))
            == Ok::<_, ColumnErrorView>(events[i])
}

/// The tables show a calendar: its row is read as the calendar, and for each identifier the row
/// is read as its last event, whatever the rows look like.
pub open spec fn shows(tables: Tables, calendar: CalendarView) -> bool {
    &&& stored_calendar(tables, calendar.id) matches Some(row)
    &&& rows::read_row(row) == Ok::<_, ColumnErrorView>(
        CalendarView { events: Seq::empty(), ..calendar },
    )
    &&& forall|id: Seq<char>|
        reads_as(
            #[trigger] stored_event(tables, calendar.id, id),
            last_version(calendar.events, id),
        )
}

/// The tables show a valid calendar, and whatever is found for its identifier is loaded as that
/// calendar.
pub open spec fn keeps(tables: Tables, calendar: CalendarView) -> bool {
    &&& validate::valid_calendar(calendar)
    &&& shows(tables, calendar)
    &&& forall|row: Option<CalendarRowView>, event_rows: Seq<EventRowView>| #[trigger]
        finds(tables, calendar.id, row, event_rows) ==> (store::loaded(
            calendar.id,
            row,
            event_rows,
        ) matches Ok(loaded) && is_reading_of(calendar, loaded))
}

/// Each event of a list is the last one of its identifier in another list, each identifier
/// there occurs, and the list is in the order in which events are found.
pub open spec fn is_listing(events: Seq<EventView>, listed: Seq<EventView>) -> bool {
    &&& forall|i: int|
        0 <= i < listed.len() ==> last_version(events, (#[trigger] listed[i]).id) == Some(listed[i])
    &&& forall|k: int|
        0 <= k < events.len() ==> exists|i: int|
            0 <= i < listed.len() && (#[trigger] listed[i]).id == (#[trigger] events[k]).id
    &&& forall|i: int, j: int|
        0 <= i < j < listed.len() ==> listed_before(
            (#[trigger] listed[i]).start,
            listed[i].id,
            (#[trigger] listed[j]).start,
            listed[j].id,
        )
}

/// A calendar as it is read after another one was saved: the same but for the order of its
/// events and, where several have the same identifier, for all of them but the last.
pub open spec fn is_reading_of(saved: CalendarView, loaded: CalendarView) -> bool {
    &&& loaded == CalendarView { events: loaded.events, ..saved }
    &&& is_listing(saved.events, loaded.events)
}

/// No two events of a list have the same identifier.
pub open spec fn distinct_ids(events: Seq<EventView>) -> bool {
    forall|i: int, j: int|
        0 <= i < j < events.len() ==> (#[trigger] events[i]).id != (#[trigger] events[j]).id
}

// ---------------------------------------------------------------------------
// Laws of saving
// ---------------------------------------------------------------------------

proof fn lemma_run_all_concat(tables: Tables, a: Seq<StatementView>, b: Seq<StatementView>)
    ensures
        run_all(tables, a + b) == run_all(run_all(tables, a), b),
    decreases b.len(),
{
    if b.len() == 0 {
        assert(a + b =~= a);
    } else {
        lemma_run_all_concat(tables, a, b.drop_last());
        assert((a + b).drop_last() =~= a + b.drop_last());
        assert((a + b).last() == b.last());
    }
}

proof fn lemma_run_upserts(tables: Tables, calendar_id: Seq<char>, events: Seq<EventView>)
    ensures
        ({
            let after = run_all(tables, store::event_upserts(calendar_id, events));
            &&& after.calendars == tables.calendars
            &&& after.imports == tables.imports
            &&& after.last_import == tables.last_import
            &&& tables.calendars.contains_key(calendar_id) ==> forall|id: Seq<char>| #[trigger]
                stored_event(after, calendar_id, id) == (match last_version(events, id) {
                    Some(event) => Some(rows::event_row_of(event)),
                    None => stored_event(tables, calendar_id, id),
                })
            &&& forall|other: Seq<char>, id: Seq<char>|
                other != calendar_id ==> #[trigger] stored_event(after, other, id) == stored_event(
                    tables,
                    other,
                    id,
                )
        }),
    decreases events.len(),
{
    let upserts = store::event_upserts(calendar_id, events);
    if events.len() > 0 {
        let before = run_all(tables, store::event_upserts(calendar_id, events.drop_last()));
        lemma_run_upserts(tables, calendar_id, events.drop_last());
        assert(upserts.drop_last() =~= store::event_upserts(calendar_id, events.drop_last()));
        let row = rows::event_row_of(events.last());
        let after = run_all(tables, upserts);
        assert(after == run(before, StatementView::UpsertEvent(calendar_id, row)));
        assert forall|id: Seq<char>|
            tables.calendars.contains_key(calendar_id) implies #[trigger] stored_event(
            after,
            calendar_id,
            id,
        ) == (match last_version(events, id) {
            Some(event) => Some(rows::event_row_of(event)),
            None => stored_event(tables, calendar_id, id),
        }) by {
            assert(stored_event(before, calendar_id, id) == stored_event(before, calendar_id, id));
        }
        assert forall|other: Seq<char>, id: Seq<char>|
            other != calendar_id implies #[trigger] stored_event(after, other, id) == stored_event(
            tables,
            other,
            id,
        ) by {
            assert(stored_event(before, other, id) == stored_event(tables, other, id));
        }
    }
}

/// After a calendar was saved the tables hold it, and of it nothing else, whatever they held
/// before.
pub proof fn saving_stores_the_calendar(before: Tables, calendar: CalendarView)
    ensures
        holds(run_all(before, store::save_statements(calendar)), calendar),
{
    lemma_save(before, calendar);
}

proof fn lemma_save(before: Tables, calendar: CalendarView)
    ensures
        holds(run_all(before, store::save_statements(calendar)), calendar),
        run_all(before, store::save_statements(calendar)).imports == before.imports,
        run_all(before, store::save_statements(calendar)).last_import == before.last_import,
        forall|other: Seq<char>|
            other != calendar.id ==> #[trigger] stored_calendar(
                run_all(before, store::save_statements(calendar)),
                other,
            ) == stored_calendar(before, other),
        forall|other: Seq<char>, id: Seq<char>|
            other != calendar.id ==> #[trigger] stored_event(
                run_all(before, store::save_statements(calendar)),
                other,
                id,
            ) == stored_event(before, other, id),
{
    let head = seq![
        StatementView::UpsertCalendar(rows::calendar_row_of(calendar)),
        StatementView::DeleteEvents(calendar.id),
    ];
    let cleared = run_all(before, head);
    let upserts = store::event_upserts(calendar.id, calendar.events);
    lemma_run_all_concat(before, head, upserts);
    assert(store::save_statements(calendar) =~= head + upserts);
    lemma_run_upserts(cleared, calendar.id, calendar.events);
    assert(head.drop_last() =~= seq![head[0]]);
    assert(seq![head[0]].drop_last() =~= Seq::<StatementView>::empty());
    assert(cleared == run(run(before, head[0]), head[1])) by {
        assert(run_all(before, seq![head[0]]) == run(
            run_all(before, Seq::<StatementView>::empty()),
            head[0],
        ));
    }
    assert forall|id: Seq<char>| #[trigger] stored_event(cleared, calendar.id, id) is None by {}
    assert forall|other: Seq<char>, id: Seq<char>|
        other != calendar.id implies #[trigger] stored_event(cleared, other, id) == stored_event(
        before,
        other,
        id,
    ) by {}
}

/// Saving a calendar leaves every other calendar as it was.
pub proof fn saving_leaves_other_calendars(
    before: Tables,
    calendar: CalendarView,
    other: CalendarView,
)
    requires
        other.id != calendar.id,
    ensures
        holds(before, other) <==> holds(run_all(before, store::save_statements(calendar)), other),
{
    lemma_save(before, calendar);
    let after = run_all(before, store::save_statements(calendar));
    assert forall|id: Seq<char>| #[trigger]
        stored_event(before, other.id, id) == stored_event(after, other.id, id) by {
        assert(stored_event(after, other.id, id) == stored_event(before, other.id, id));
    }
}

/// Saving a calendar leaves the rows of every other calendar and of its events, and all imports,
/// as they were.
pub proof fn saving_leaves_other_rows(before: Tables, calendar: CalendarView, other: Seq<char>)
    requires
        other != calendar.id,
    ensures
        ({
            let after = run_all(before, store::save_statements(calendar));
            &&& stored_calendar(after, other) == stored_calendar(before, other)
            &&& forall|id: Seq<char>| #[trigger]
                stored_event(after, other, id) == stored_event(before, other, id)
            &&& after.imports == before.imports
            &&& after.last_import == before.last_import
        }),
{
    lemma_save(before, calendar);
}

/// Saving a calendar again changes nothing.
pub proof fn saving_again_changes_nothing(before: Tables, calendar: CalendarView)
    ensures
        ({
            let once = run_all(before, store::save_statements(calendar));
            run_all(once, store::save_statements(calendar)) == once
        }),
{
    let once = run_all(before, store::save_statements(calendar));
    let twice = run_all(once, store::save_statements(calendar));
    lemma_save(before, calendar);
    lemma_save(once, calendar);
    assert forall|id: Seq<char>| #[trigger]
        stored_calendar(twice, id) == stored_calendar(once, id) by {}
    assert forall|calendar_id: Seq<char>, id: Seq<char>| #[trigger]
        stored_event(twice, calendar_id, id) == stored_event(once, calendar_id, id) by {
        if calendar_id == calendar.id {
            assert(stored_event(once, calendar.id, id) == optional_row(
                last_version(calendar.events, id),
            ));
        }
    }
    lemma_same_rows(twice, once);
}

proof fn lemma_same_rows(a: Tables, b: Tables)
    requires
        forall|id: Seq<char>| #[trigger] stored_calendar(a, id) == stored_calendar(b, id),
        forall|calendar_id: Seq<char>, id: Seq<char>| #[trigger]
            stored_event(a, calendar_id, id) == stored_event(b, calendar_id, id),
        a.imports == b.imports,
        a.last_import == b.last_import,
    ensures
        a == b,
{
    assert forall|id: Seq<char>|
        (#[trigger] a.calendars.contains_key(id)) == b.calendars.contains_key(id) && (
        a.calendars.contains_key(id) ==> a.calendars[id] == b.calendars[id]) by {
        assert(stored_calendar(a, id) == stored_calendar(b, id));
    }
    assert(a.calendars =~= b.calendars);
    assert forall|key: (Seq<char>, Seq<char>)|
        (#[trigger] a.events.contains_key(key)) == b.events.contains_key(key) && (
        a.events.contains_key(key) ==> a.events[key] == b.events[key]) by {
        assert(stored_event(a, key.0, key.1) == stored_event(b, key.0, key.1));
    }
    assert(a.events =~= b.events);
}

/// A calendar that was saved is listed once.
pub proof fn saved_calendars_are_listed(
    before: Tables,
    calendar: CalendarView,
    listed: Seq<SummaryView>,
)
    requires
        lists(run_all(before, store::save_statements(calendar)), listed),
    ensures
        exists|i: int|
            0 <= i < listed.len() && #[trigger] listed[i] == summary_of(
                rows::calendar_row_of(calendar),
            ),
        forall|i: int, j: int|
            0 <= i < j < listed.len() ==> (#[trigger] listed[i]).id != (#[trigger] listed[j]).id,
{
    let after = run_all(before, store::save_statements(calendar));
    lemma_save(before, calendar);
    assert(stored_calendar(after, calendar.id) is Some);
    let i = choose|i: int| 0 <= i < listed.len() && (#[trigger] listed[i]).id == calendar.id;
    assert(listed[i] == summary_of(rows::calendar_row_of(calendar)));
    assert forall|i: int, j: int| 0 <= i < j < listed.len() implies (#[trigger] listed[i]).id != (
    #[trigger] listed[j]).id by {
        if listed[i].id == listed[j].id {
            assert(listed[i] == listed[j]);
            text::text_not_before_itself(listed[i].region);
            text::text_not_before_itself(listed[i].exam_type);
            text::text_not_before_itself(listed[i].id);
        }
    }
}

// ---------------------------------------------------------------------------
// Laws of reading
// ---------------------------------------------------------------------------

/// The last event of an identifier has that identifier and is an event of the list.
pub proof fn last_version_is_an_event(events: Seq<EventView>, id: Seq<char>)
    ensures
        last_version(events, id) matches Some(event) ==> event.id == id && events.contains(event),
        last_version(events, id) is None ==> forall|i: int|
            0 <= i < events.len() ==> (#[trigger] events[i]).id != id,
    decreases events.len(),
{
    if events.len() > 0 {
        let rest = events.drop_last();
        last_version_is_an_event(rest, id);
        if events.last().id == id {
            assert(events[events.len() - 1] == events.last());
        } else {
            if let Some(event) = last_version(rest, id) {
                let i = choose|i: int| 0 <= i < rest.len() && rest[i] == event;
                assert(events[i] == event);
            }
            if last_version(events, id) is None {
                assert forall|i: int| 0 <= i < events.len() implies (#[trigger] events[i]).id
                    != id by {
                    if i < rest.len() {
                        assert(rest[i] == events[i]);
                    }
                }
            }
        }
    }
}

/// The last events of the identifiers of some rows.
pub open spec fn versions(events: Seq<EventView>, event_rows: Seq<EventRowView>) -> Seq<
    EventView,
> {
    event_rows.map_values(|row: EventRowView| last_version(events, row.id)->0)
}

/// What is found of a calendar that the tables hold are the rows of a listing of its events.
pub proof fn found_rows_list_the_events(
    tables: Tables,
    saved: CalendarView,
    row: Option<CalendarRowView>,
    event_rows: Seq<EventRowView>,
)
    requires
        holds(tables, saved),
        finds(tables, saved.id, row, event_rows),
    ensures
        row == Some(rows::calendar_row_of(saved)),
        versions(saved.events, event_rows).len() == event_rows.len(),
        forall|i: int|
            0 <= i < event_rows.len() ==> rows::event_row_of(
                #[trigger] versions(saved.events, event_rows)[i],
            ) == event_rows[i],
        is_listing(saved.events, versions(saved.events, event_rows)),
{
    let listed = versions(saved.events, event_rows);
    assert forall|i: int| 0 <= i < listed.len() implies rows::event_row_of(#[trigger] listed[i])
        == event_rows[i] && last_version(saved.events, listed[i].id) == Some(listed[i]) by {
        let id = event_rows[i].id;
        assert(stored_event(tables, saved.id, id) == Some(event_rows[i]));
        last_version_is_an_event(saved.events, id);
    }
    assert forall|k: int| 0 <= k < saved.events.len() implies exists|i: int|
        0 <= i < listed.len() && (#[trigger] listed[i]).id == (#[trigger] saved.events[k]).id by {
        let id = saved.events[k].id;
        last_version_is_an_event(saved.events, id);
        assert(stored_event(tables, saved.id, id) is Some);
        let i = choose|i: int| 0 <= i < event_rows.len() && (#[trigger] event_rows[i]).id == id;
        assert(rows::event_row_of(listed[i]) == event_rows[i]);
        assert(listed[i].id == id);
    }
    assert forall|i: int, j: int| 0 <= i < j < listed.len() implies listed_before(
        (#[trigger] listed[i]).start,
        listed[i].id,
        (#[trigger] listed[j]).start,
        listed[j].id,
    ) by {
        assert(rows::event_row_of(listed[i]) == event_rows[i]);
        assert(rows::event_row_of(listed[j]) == event_rows[j]);
    }
}

/// What is read of a valid calendar is valid.
pub proof fn reading_is_valid(saved: CalendarView, loaded: CalendarView)
    requires
        validate::valid_calendar(saved),
        is_reading_of(saved, loaded),
    ensures
        validate::valid_calendar(loaded),
{
    let defaults = saved.default_alarm_minutes;
    let before = validate::calendar_readings(saved);
    let after = validate::calendar_readings(loaded);
    validate::events_are_valid_one_by_one(defaults, saved.events, before.events);
    validate::events_are_valid_one_by_one(defaults, loaded.events, after.events);
    assert forall|i: int| 0 <= i < loaded.events.len() implies validate::event_defect(
        defaults,
        #[trigger] loaded.events[i],
        after.events[i],
    ) is None by {
        last_version_is_an_event(saved.events, loaded.events[i].id);
        let k = choose|k: int| 0 <= k < saved.events.len() && saved.events[k] == loaded.events[i];
        assert(validate::event_defect(defaults, saved.events[k], before.events[k]) is None);
    }
}

/// No two events of what is read of a calendar have the same identifier, whatever was saved.
pub proof fn reading_has_distinct_ids(saved: CalendarView, loaded: CalendarView)
    requires
        is_reading_of(saved, loaded),
    ensures
        distinct_ids(loaded.events),
{
    assert forall|i: int, j: int| 0 <= i < j < loaded.events.len() implies (
    #[trigger] loaded.events[i]).id != (#[trigger] loaded.events[j]).id by {
        text::text_not_before_itself(loaded.events[i].start);
        text::text_not_before_itself(loaded.events[i].id);
        if loaded.events[i].id == loaded.events[j].id {
            assert(loaded.events[i] == loaded.events[j]);
        }
    }
}

/// In a list without repeated identifiers each event is the last one of its identifier.
pub proof fn distinct_events_are_their_last_versions(events: Seq<EventView>, k: int)
    requires
        distinct_ids(events),
        0 <= k < events.len(),
    ensures
        last_version(events, events[k].id) == Some(events[k]),
    decreases events.len(),
{
    if k < events.len() - 1 {
        let rest = events.drop_last();
        assert(events.last() == events[events.len() - 1]);
        assert forall|i: int, j: int| 0 <= i < j < rest.len() implies (#[trigger] rest[i]).id != (
        #[trigger] rest[j]).id by {
            assert(rest[i] == events[i] && rest[j] == events[j]);
        }
        distinct_events_are_their_last_versions(rest, k);
    }
}

/// Tables that hold a calendar also hold what is read of it.
pub proof fn reading_is_held(tables: Tables, saved: CalendarView, loaded: CalendarView)
    requires
        holds(tables, saved),
        is_reading_of(saved, loaded),
    ensures
        holds(tables, loaded),
{
    reading_has_distinct_ids(saved, loaded);
    assert forall|id: Seq<char>| #[trigger]
        stored_event(tables, loaded.id, id) == optional_row(last_version(loaded.events, id)) by {
        last_version_is_an_event(saved.events, id);
        last_version_is_an_event(loaded.events, id);
        match last_version(saved.events, id) {
            Some(event) => {
                let k = choose|k: int| 0 <= k < saved.events.len() && saved.events[k] == event;
                assert(saved.events[k].id == id);
                let i = choose|i: int|
                    0 <= i < loaded.events.len() && (#[trigger] loaded.events[i]).id == id;
                distinct_events_are_their_last_versions(loaded.events, i);
            },
            None => {
                if let Some(event) = last_version(loaded.events, id) {
                    let i = choose|i: int|
                        0 <= i < loaded.events.len() && loaded.events[i] == event;
                    assert(last_version(saved.events, loaded.events[i].id) is Some);
                }
            },
        }
        assert(last_version(saved.events, id) == last_version(loaded.events, id));
        assert(stored_event(tables, saved.id, id) == optional_row(last_version(saved.events, id)));
    }
}

/// What is read of a calendar without repeated identifiers holds the same events, each as often
/// as it was saved.
pub proof fn distinct_events_are_all_read(saved: CalendarView, loaded: CalendarView)
    requires
        distinct_ids(saved.events),
        is_reading_of(saved, loaded),
    ensures
        saved.events.to_multiset() == loaded.events.to_multiset(),
{
    broadcast use vstd::seq_lib::group_to_multiset_ensures;

    reading_has_distinct_ids(saved, loaded);
    assert(saved.events.no_duplicates());
    assert(loaded.events.no_duplicates());
    saved.events.lemma_multiset_has_no_duplicates();
    loaded.events.lemma_multiset_has_no_duplicates();
    let a = saved.events.to_multiset();
    let b = loaded.events.to_multiset();
    assert forall|event: EventView| #[trigger] a.count(event) == b.count(event) by {
        if saved.events.contains(event) {
            let k = choose|k: int| 0 <= k < saved.events.len() && saved.events[k] == event;
            let i = choose|i: int|
                0 <= i < loaded.events.len() && (#[trigger] loaded.events[i]).id
                    == saved.events[k].id;
            distinct_events_are_their_last_versions(saved.events, k);
            assert(loaded.events[i] == event);
            assert(loaded.events.contains(event));
        }
        if loaded.events.contains(event) {
            let i = choose|i: int| 0 <= i < loaded.events.len() && loaded.events[i] == event;
            last_version_is_an_event(saved.events, loaded.events[i].id);
            assert(saved.events.contains(event));
        }
    }
    assert(a =~= b);
}

/// A calendar that is loaded is valid, has the identifier that it was loaded for and no repeated
/// identifiers, and is what the tables show.
pub proof fn loaded_calendars_are_shown(
    tables: Tables,
    id: Seq<char>,
    row: Option<CalendarRowView>,
    event_rows: Seq<EventRowView>,
    calendar: CalendarView,
)
    requires
        finds(tables, id, row, event_rows),
        store::loaded(id, row, event_rows) == Ok::<_, StoreErrorView>(calendar),
    ensures
        calendar.id == id,
        validate::valid_calendar(calendar),
        distinct_ids(calendar.events),
        shows(tables, calendar),
{
    let outcomes = event_rows.map_values(|row: EventRowView| rows::read_event_row(row));
    let events = calendar.events;
    store::all_read_gives_every_event(outcomes);
    assert(store::all_read(outcomes) == Ok::<_, ColumnErrorView>(events));
    assert forall|i: int| 0 <= i < events.len() implies rows::read_event_row(event_rows[i])
        == Ok::<_, ColumnErrorView>(#[trigger] events[i]) by {
        assert(outcomes[i] == Ok::<_, ColumnErrorView>(events[i]));
    }
    assert forall|i: int, j: int| 0 <= i < j < events.len() implies (#[trigger] events[i]).id != (
    #[trigger] events[j]).id by {
        assert(stored_event(tables, id, event_rows[i].id) == Some(event_rows[i]));
        assert(stored_event(tables, id, event_rows[j].id) == Some(event_rows[j]));
        assert(listed_before(
            event_rows[i].start,
            event_rows[i].id,
            event_rows[j].start,
            event_rows[j].id,
        ));
        text::text_not_before_itself(event_rows[i].start);
        text::text_not_before_itself(event_rows[i].id);
    }
    assert forall|event_id: Seq<char>|
        reads_as(
            #[trigger] stored_event(tables, id, event_id),
            last_version(events, event_id),
        ) by {
        last_version_is_an_event(events, event_id);
        if stored_event(tables, id, event_id) is Some {
            let i = choose|i: int|
                0 <= i < event_rows.len() && (#[trigger] event_rows[i]).id == event_id;
            assert(stored_event(tables, id, event_rows[i].id) == Some(event_rows[i]));
            assert(rows::read_event_row(event_rows[i]) == Ok::<_, ColumnErrorView>(events[i]));
            distinct_events_are_their_last_versions(events, i);
        } else {
            if let Some(event) = last_version(events, event_id) {
                let i = choose|i: int| 0 <= i < events.len() && events[i] == event;
                assert(rows::read_event_row(event_rows[i]) == Ok::<_, ColumnErrorView>(events[i]));
                assert(stored_event(tables, id, event_rows[i].id) == Some(event_rows[i]));
            }
        }
    }
}

/// A valid calendar that the tables show is loaded.
pub proof fn shown_calendars_are_loaded(
    tables: Tables,
    calendar: CalendarView,
    row: Option<CalendarRowView>,
    event_rows: Seq<EventRowView>,
)
    requires
        shows(tables, calendar),
        validate::valid_calendar(calendar),
        finds(tables, calendar.id, row, event_rows),
    ensures
        store::loaded(calendar.id, row, event_rows) matches Ok(loaded) && is_reading_of(
            calendar,
            loaded,
        ),
{
    let outcomes = event_rows.map_values(|row: EventRowView| rows::read_event_row(row));
    let listed = versions(calendar.events, event_rows);
    assert forall|i: int| 0 <= i < listed.len() implies outcomes[i] == Ok::<_, ColumnErrorView>(
        #[trigger] listed[i],
    ) && last_version(calendar.events, listed[i].id) == Some(listed[i]) && listed[i].id
        == event_rows[i].id && listed[i].start == event_rows[i].start by {
        let id = event_rows[i].id;
        assert(stored_event(tables, calendar.id, id) == Some(event_rows[i]));
        last_version_is_an_event(calendar.events, id);
    }
    assert forall|i: int| 0 <= i < outcomes.len() implies #[trigger] outcomes[i] == Ok::<
        _,
        ColumnErrorView,
    >(listed[i]) by {
        assert(outcomes[i] == Ok::<_, ColumnErrorView>(listed[i]));
    }
    store::all_read_of_events(outcomes, listed);
    assert forall|k: int| 0 <= k < calendar.events.len() implies exists|i: int|
        0 <= i < listed.len() && (#[trigger] listed[i]).id == (
        #[trigger] calendar.events[k]).id by {
        let id = calendar.events[k].id;
        last_version_is_an_event(calendar.events, id);
        assert(reads_as(
            stored_event(tables, calendar.id, id),
            last_version(calendar.events, id),
        ));
        let i = choose|i: int| 0 <= i < event_rows.len() && (#[trigger] event_rows[i]).id == id;
        assert(listed[i].id == id);
    }
    assert forall|i: int, j: int| 0 <= i < j < listed.len() implies listed_before(
        (#[trigger] listed[i]).start,
        listed[i].id,
        (#[trigger] listed[j]).start,
        listed[j].id,
    ) by {
        assert(listed[i].id == event_rows[i].id && listed[j].id == event_rows[j].id);
    }
    let loaded = CalendarView { events: listed, ..calendar };
    assert(is_reading_of(calendar, loaded));
    reading_is_valid(calendar, loaded);
}

/// Tables that show a valid calendar keep it.
pub proof fn shown_calendars_are_kept(tables: Tables, calendar: CalendarView)
    requires
        shows(tables, calendar),
        validate::valid_calendar(calendar),
    ensures
        keeps(tables, calendar),
{
    assert forall|row: Option<CalendarRowView>, event_rows: Seq<EventRowView>| #[trigger]
        finds(tables, calendar.id, row, event_rows) implies (store::loaded(
        calendar.id,
        row,
        event_rows,
    ) matches Ok(loaded) && is_reading_of(calendar, loaded)) by {
        shown_calendars_are_loaded(tables, calendar, row, event_rows);
    }
}

/// Tables that hold a calendar whose rows are read back show it.
pub proof fn held_calendars_are_shown(tables: Tables, calendar: CalendarView)
    requires
        holds(tables, calendar),
        rows::read_row(rows::calendar_row_of(calendar)) == Ok::<_, ColumnErrorView>(
            CalendarView { events: Seq::empty(), ..calendar },
        ),
        events_read_back(calendar.events),
    ensures
        shows(tables, calendar),
{
    assert forall|id: Seq<char>|
        reads_as(
            #[trigger] stored_event(tables, calendar.id, id),
            last_version(calendar.events, id),
        ) by {
        last_version_is_an_event(calendar.events, id);
        if let Some(event) = last_version(calendar.events, id) {
            let i = choose|i: int| 0 <= i < calendar.events.len() && calendar.events[i] == event;
            assert(rows::read_event_row(rows::event_row_of(calendar.events[i])) == Ok::<
                _,
                ColumnErrorView,
            >(event));
        }
    }
}

// ---------------------------------------------------------------------------
// Laws of writing events
// ---------------------------------------------------------------------------

/// Putting events into a list without repeated identifiers leaves none, and the events that
/// were put last are the ones of their identifiers.
pub proof fn merging_keeps_ids_distinct(events: Seq<EventView>, updates: Seq<EventView>)
    requires
        distinct_ids(events),
    ensures
        distinct_ids(store::merged(events, updates)),
        forall|id: Seq<char>| #[trigger]
            last_version(store::merged(events, updates), id) == (match last_version(updates, id) {
                Some(event) => Some(event),
                None => last_version(events, id),
            }),
    decreases updates.len(),
{
    if updates.len() > 0 {
        let before = store::merged(events, updates.drop_last());
        merging_keeps_ids_distinct(events, updates.drop_last());
        lemma_merge_one(before, updates.last());
    }
}

proof fn lemma_merge_one(events: Seq<EventView>, event: EventView)
    requires
        distinct_ids(events),
    ensures
        distinct_ids(store::merged_one(events, event)),
        forall|id: Seq<char>| #[trigger]
            last_version(store::merged_one(events, event), id) == (if id == event.id {
                Some(event)
            } else {
                last_version(events, id)
            }),
{
    let after = store::merged_one(events, event);
    store::event_position_is_first(events, event.id);
    let p = match store::event_position(events, event.id) {
        Some(p) => p,
        None => events.len() as int,
    };
    assert(after[p] == event);
    assert(forall|i: int| 0 <= i < after.len() && i != p ==> #[trigger] after[i] == events[i]);
    assert forall|i: int, j: int| 0 <= i < j < after.len() implies (#[trigger] after[i]).id != (
    #[trigger] after[j]).id by {
        if i == p {
            assert(after[j] == events[j]);
            if p < events.len() {
                assert(events[p].id != events[j].id);
            }
        } else if j == p {
            assert(after[i] == events[i]);
            assert(events[i].id != event.id);
        } else {
            assert(events[i].id != events[j].id);
        }
    }
    assert forall|id: Seq<char>| #[trigger] last_version(after, id) == (if id == event.id {
        Some(event)
    } else {
        last_version(events, id)
    }) by {
        if id == event.id {
            distinct_events_are_their_last_versions(after, p);
        } else {
            last_version_is_an_event(events, id);
            last_version_is_an_event(after, id);
            if let Some(old_event) = last_version(events, id) {
                let k = choose|k: int| 0 <= k < events.len() && events[k] == old_event;
                assert(after[k] == events[k]);
                distinct_events_are_their_last_versions(after, k);
            } else {
                if let Some(new_event) = last_version(after, id) {
                    let k = choose|k: int| 0 <= k < after.len() && after[k] == new_event;
                    assert(k != p);
                    assert(after[k] == events[k]);
                }
            }
        }
    }
}

/// A calendar with events put into it.
pub open spec fn with_events(calendar: CalendarView, updates: Seq<EventView>) -> CalendarView {
    CalendarView { events: store::merged(calendar.events, updates), ..calendar }
}

/// An event that chrono can read and that meets the rules in a calendar.
pub open spec fn event_is_valid(calendar: CalendarView, event: EventView) -> bool {
    validate::event_defect(
        calendar.default_alarm_minutes,
        event,
        validate::event_reading(event),
    ) is None
}

/// The last event of each identifier in a list is valid in a calendar.
pub open spec fn last_events_are_valid(calendar: CalendarView, events: Seq<EventView>) -> bool {
    forall|id: Seq<char>| (#[trigger] last_version(events, id)) matches Some(event)
        ==> event_is_valid(calendar, event)
}

/// After events were written to a calendar without repeated identifiers, the tables hold the
/// calendar with those events put into it.
pub proof fn writing_events_stores_the_merged_calendar(
    before: Tables,
    calendar: CalendarView,
    updates: Seq<EventView>,
)
    requires
        holds(before, calendar),
        distinct_ids(calendar.events),
    ensures
        holds(
            run_all(before, store::event_upserts(calendar.id, updates)),
            with_events(calendar, updates),
        ),
{
    lemma_run_upserts(before, calendar.id, updates);
    merging_keeps_ids_distinct(calendar.events, updates);
    let after = run_all(before, store::event_upserts(calendar.id, updates));
    let merged = store::merged(calendar.events, updates);
    assert forall|id: Seq<char>| #[trigger]
        stored_event(after, calendar.id, id) == optional_row(last_version(merged, id)) by {
        assert(stored_event(before, calendar.id, id) == optional_row(
            last_version(calendar.events, id),
        ));
    }
}

/// After events whose rows are read back were written to a calendar that the tables show, they
/// show the calendar with those events put into it.
pub proof fn writing_events_shows_the_merged_calendar(
    before: Tables,
    calendar: CalendarView,
    updates: Seq<EventView>,
)
    requires
        shows(before, calendar),
        distinct_ids(calendar.events),
        events_read_back(updates),
    ensures
        shows(
            run_all(before, store::event_upserts(calendar.id, updates)),
            with_events(calendar, updates),
        ),
{
    lemma_run_upserts(before, calendar.id, updates);
    merging_keeps_ids_distinct(calendar.events, updates);
    let after = run_all(before, store::event_upserts(calendar.id, updates));
    let merged = store::merged(calendar.events, updates);
    assert(before.calendars.contains_key(calendar.id));
    assert forall|id: Seq<char>|
        reads_as(
            #[trigger] stored_event(after, calendar.id, id),
            last_version(merged, id),
        ) by {
        assert(reads_as(
            stored_event(before, calendar.id, id),
            last_version(calendar.events, id),
        ));
        last_version_is_an_event(updates, id);
        if let Some(event) = last_version(updates, id) {
            let i = choose|i: int| 0 <= i < updates.len() && updates[i] == event;
            assert(rows::read_event_row(rows::event_row_of(updates[i])) == Ok::<
                _,
                ColumnErrorView,
            >(updates[i]));
        }
    }
}

/// A valid calendar without repeated identifiers stays valid with events put into it exactly
/// when the last event of each identifier among them is valid.
pub proof fn merged_calendars_are_valid_with_valid_events(
    calendar: CalendarView,
    updates: Seq<EventView>,
)
    requires
        validate::valid_calendar(calendar),
        distinct_ids(calendar.events),
    ensures
        validate::valid_calendar(with_events(calendar, updates)) <==> last_events_are_valid(
            calendar,
            updates,
        ),
{
    let defaults = calendar.default_alarm_minutes;
    let new = with_events(calendar, updates);
    let merged = new.events;
    let before = validate::calendar_readings(calendar).events;
    let after = validate::calendar_readings(new).events;
    merging_keeps_ids_distinct(calendar.events, updates);
    validate::events_are_valid_one_by_one(defaults, calendar.events, before);
    validate::events_are_valid_one_by_one(defaults, merged, after);
    if validate::valid_calendar(new) {
        assert forall|id: Seq<char>|
            (#[trigger] last_version(updates, id)) matches Some(event) implies event_is_valid(
            calendar,
            last_version(updates, id)->0,
        ) by {
            last_version_is_an_event(merged, id);
            let event = last_version(updates, id)->0;
            assert(last_version(merged, id) == Some(event));
            let k = choose|k: int| 0 <= k < merged.len() && merged[k] == event;
            assert(validate::event_defect(defaults, merged[k], after[k]) is None);
        }
    }
    if last_events_are_valid(calendar, updates) {
        assert forall|k: int| 0 <= k < merged.len() implies validate::event_defect(
            defaults,
            #[trigger] merged[k],
            after[k],
        ) is None by {
            let id = merged[k].id;
            distinct_events_are_their_last_versions(merged, k);
            if last_version(updates, id) is Some {
                assert(event_is_valid(calendar, last_version(updates, id)->0));
            } else {
                last_version_is_an_event(calendar.events, id);
                let j = choose|j: int|
                    0 <= j < calendar.events.len() && calendar.events[j] == merged[k];
                assert(validate::event_defect(defaults, calendar.events[j], before[j]) is None);
            }
        }
    }
}

/// Writing events to a calendar leaves every other calendar as it was.
pub proof fn writing_events_leaves_other_calendars(
    before: Tables,
    calendar_id: Seq<char>,
    updates: Seq<EventView>,
    other: CalendarView,
)
    requires
        other.id != calendar_id,
    ensures
        holds(before, other) <==> holds(
            run_all(before, store::event_upserts(calendar_id, updates)),
            other,
        ),
{
    lemma_run_upserts(before, calendar_id, updates);
    let after = run_all(before, store::event_upserts(calendar_id, updates));
    assert forall|id: Seq<char>| #[trigger]
        stored_event(before, other.id, id) == stored_event(after, other.id, id) by {
        assert(stored_event(after, other.id, id) == stored_event(before, other.id, id));
    }
}

/// Writing events to a calendar leaves all calendars' rows, the events of every other calendar
/// and all imports as they were.
pub proof fn writing_events_leaves_other_rows(
    before: Tables,
    calendar_id: Seq<char>,
    updates: Seq<EventView>,
    other: Seq<char>,
)
    requires
        other != calendar_id,
    ensures
        ({
            let after = run_all(before, store::event_upserts(calendar_id, updates));
            &&& after.calendars == before.calendars
            &&& forall|id: Seq<char>| #[trigger]
                stored_event(after, other, id) == stored_event(before, other, id)
            &&& after.imports == before.imports
            &&& after.last_import == before.last_import
        }),
{
    lemma_run_upserts(before, calendar_id, updates);
}

// ---------------------------------------------------------------------------
// Laws of imports
// ---------------------------------------------------------------------------

/// No import has a greater number than the last one.
pub open spec fn imports_numbered(tables: Tables) -> bool {
    forall|id: int| #[trigger] tables.imports.contains_key(id) ==> id <= tables.last_import
}

/// An import that is recorded for a stored calendar gets a new number, under which it is found,
/// not yet applied. All earlier imports, and calendars and events, stay as they were.
pub proof fn recorded_imports_are_kept(
    before: Tables,
    calendar_id: Seq<char>,
    source_url: Option<Seq<char>>,
    raw_text: Seq<char>,
    extracted_json: Seq<char>,
)
    requires
        imports_numbered(before),
        before.calendars.contains_key(calendar_id),
    ensures
        ({
            let after = run(
                before,
                StatementView::RecordImport(calendar_id, source_url, raw_text, extracted_json),
            );
            let number = after.last_import;
            &&& imports_numbered(after)
            &&& !before.imports.contains_key(number)
            &&& after.imports.contains_key(number)
            &&& after.imports[number] == (ImportView {
                calendar_id,
                source_url,
                raw_text,
                extracted_json,
                applied: false,
            })
            &&& after.imports.remove(number) == before.imports
            &&& after.calendars == before.calendars
            &&& after.events == before.events
        }),
{
    let after = run(
        before,
        StatementView::RecordImport(calendar_id, source_url, raw_text, extracted_json),
    );
    assert(!before.imports.contains_key(after.last_import));
    assert(after.imports.remove(after.last_import) =~= before.imports);
}

/// Marking an import as applied changes that import in nothing else, and all else in nothing.
pub proof fn marking_applies_one_import(before: Tables, id: int)
    ensures
        ({
            let after = run(before, StatementView::MarkImportApplied(id));
            &&& before.imports.contains_key(id) ==> {
                &&& after.imports.contains_key(id)
                &&& after.imports[id] == (ImportView { applied: true, ..before.imports[id] })
            }
            &&& after.imports.remove(id) == before.imports.remove(id)
            &&& after.imports.dom() == before.imports.dom()
            &&& after.last_import == before.last_import
            &&& after.calendars == before.calendars
            &&& after.events == before.events
        }),
{
    let after = run(before, StatementView::MarkImportApplied(id));
    assert(after.imports.remove(id) =~= before.imports.remove(id));
    assert(after.imports.dom() =~= before.imports.dom());
}

} // verus!
