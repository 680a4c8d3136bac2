//! What the editor's server decides: the answers to its requests and the questions to the
//! service that extracts events from texts.

use vstd::prelude::*;

use crate::json;
use crate::model;
use crate::model::{CalendarFile, CalendarView, Event, EventView};
use crate::rows;
use crate::rows::{CalendarRow, EventRow};
use crate::store;
use crate::store::{Statement, StatementView, Store, StoreError, StoreErrorView};
use crate::tables;
use crate::text;
use crate::validate;

verus! {

// ---------------------------------------------------------------------------
// Errors
// ---------------------------------------------------------------------------

/// The HTTP status of a request that cannot be served.
pub const BAD_REQUEST: u16 = 400;

/// The HTTP status of a failure of the server.
pub const INTERNAL_SERVER_ERROR: u16 = 500;

/// The HTTP status of a failure of another server.
pub const BAD_GATEWAY: u16 = 502;

/// The answer to a request that failed.
#[derive(Debug)]
pub struct ApiError {
    pub status: u16,
    pub message: String,
}

/// The model of an [`ApiError`].
#[verifier::ext_equal]
pub struct ApiErrorView {
    pub status: int,
    pub message: Seq<char>,
}

impl View for ApiError {
    type V = ApiErrorView;

    open spec fn view(&self) -> ApiErrorView {
        ApiErrorView { status: self.status as int, message: self.message@ }
    }
}

/// The answer to a request that cannot be served.
pub open spec fn bad_request(message: Seq<char>) -> ApiErrorView {
    ApiErrorView { status: BAD_REQUEST as int, message }
}

/// The answer to a request that failed here.
pub open spec fn internal(message: Seq<char>) -> ApiErrorView {
    ApiErrorView { status: INTERNAL_SERVER_ERROR as int, message }
}

/// The answer to a request that failed at another server.
pub open spec fn bad_gateway(message: Seq<char>) -> ApiErrorView {
    ApiErrorView { status: BAD_GATEWAY as int, message }
}

/// An answer carries its message, and the status of its kind: 400, 500 or 502.
pub proof fn answers_carry_status_and_message(message: Seq<char>)
    ensures
        bad_request(message).status == 400 && bad_request(message).message == message,
        internal(message).status == 500 && internal(message).message == message,
        bad_gateway(message).status == 502 && bad_gateway(message).message == message,
{
}

impl ApiError {
    /// The answer to a request that cannot be served.
    pub fn bad_request(message: &str) -> (res: Self)
        ensures
            res@ == bad_request(message@),
    {
        ApiError { status: BAD_REQUEST, message: message.to_string() }
    }

    /// The answer to a request that failed here.
    pub fn internal(message: &str) -> (res: Self)
        ensures
            res@ == internal(message@),
    {
        ApiError { status: INTERNAL_SERVER_ERROR, message: message.to_string() }
    }

    /// The answer to a request that failed at another server.
    pub fn bad_gateway(message: &str) -> (res: Self)
        ensures
            res@ == bad_gateway(message@),
    {
        ApiError { status: BAD_GATEWAY, message: message.to_string() }
    }
}

/// What can go wrong with a page or with the service that extracts events.
#[derive(Debug, Clone, Copy, PartialEq, Eq, Structural)]
pub enum RemoteFailure {
    /// A page could not be asked for.
    PageRequest,
    /// A page came with the status of an error.
    PageStatus,
    /// The text of a page could not be read.
    PageText,
    /// The service could not be asked.
    ServiceRequest,
    /// The service answered with the status of an error.
    ServiceStatus,
    /// The service answered with something else than JSON.
    ServiceReply,
}

impl RemoteFailure {
    /// What is said of the failure before the complaint.
    pub open spec fn prefix_text(self) -> Seq<char> {
        match self {
            RemoteFailure::PageRequest => "failed to fetch url: "@,
            RemoteFailure::PageStatus => "url returned an error: "@,
            RemoteFailure::PageText => "failed to read response text: "@,
            RemoteFailure::ServiceRequest => "ai request failed: "@,
            RemoteFailure::ServiceStatus => "ai returned an error: "@,
            RemoteFailure::ServiceReply => "ai response was not JSON: "@,
        }
    }

    fn prefix(&self) -> (res: &'static str)
        ensures
            res@ == self.prefix_text(),
    {
        match self {
            RemoteFailure::PageRequest => "failed to fetch url: ",
            RemoteFailure::PageStatus => "url returned an error: ",
            RemoteFailure::PageText => "failed to read response text: ",
            RemoteFailure::ServiceRequest => "ai request failed: ",
            RemoteFailure::ServiceStatus => "ai returned an error: ",
            RemoteFailure::ServiceReply => "ai response was not JSON: ",
        }
    }

    /// The answer to a request that failed so, with this complaint.
    pub fn answer(&self, complaint: &str) -> (res: ApiError)
        ensures
            res@ == bad_gateway(self.prefix_text() + complaint@),
    {
        ApiError::bad_gateway(self.prefix().to_string().concat(complaint).as_str())
    }
}

/// A failure of a page and one of the service are told apart, and so are the steps at which they
/// failed; each is told before the complaint.
pub proof fn remote_failures_are_told()
    ensures
        RemoteFailure::PageRequest.prefix_text() == "failed to fetch url: "@,
        RemoteFailure::PageStatus.prefix_text() == "url returned an error: "@,
        RemoteFailure::PageText.prefix_text() == "failed to read response text: "@,
        RemoteFailure::ServiceRequest.prefix_text() == "ai request failed: "@,
        RemoteFailure::ServiceStatus.prefix_text() == "ai returned an error: "@,
        RemoteFailure::ServiceReply.prefix_text() == "ai response was not JSON: "@,
        forall|a: RemoteFailure, b: RemoteFailure|
            #![trigger a.prefix_text(), b.prefix_text()]
            a.prefix_text() == b.prefix_text() ==> a == b,
{
    reveal_strlit("failed to fetch url: ");
    reveal_strlit("url returned an error: ");
    reveal_strlit("failed to read response text: ");
    reveal_strlit("ai request failed: ");
    reveal_strlit("ai returned an error: ");
    reveal_strlit("ai response was not JSON: ");
    assert forall|a: RemoteFailure, b: RemoteFailure|
        #![trigger a.prefix_text(), b.prefix_text()]
        a.prefix_text() == b.prefix_text() implies a == b by {
        assert(a.prefix_text().len() == b.prefix_text().len());
    }
}

/// What rusqlite says of a column of text that could not be converted.
pub open spec fn column_message(column: int, complaint: Seq<char>) -> Seq<char> {
    if column == usize::MAX {
        complaint
    } else {
        "Conversion error from type Text at index: "@ + text::decimal(column) + ", "@ + complaint
    }
}

/// Shows a `rusqlite::Error::FromSqlConversionFailure` of a column of text. It names the type,
/// the column and the complaint, and only the complaint where the column is `usize::MAX`.
#[verifier::external_body]
fn rusqlite_conversion_failure(column: usize, complaint: &str) -> (res: String)
    ensures
        res@ == column_message(column as int, complaint@),
{
    rusqlite::Error::FromSqlConversionFailure(
        column,
        rusqlite::types::Type::Text,
        complaint.into(),
    ).to_string()
}

/// What is said of a failure of the store.
pub open spec fn store_message(error: StoreErrorView) -> Seq<char> {
    match error {
        StoreErrorView::Column(error) => column_message(error.column, error.message),
        StoreErrorView::Refused(message) => message,
    }
}

/// What is said of a failure of the store is the message of what was refused, or the column that
/// could not be converted with the complaint about it.
pub proof fn store_failures_are_told(column: int, complaint: Seq<char>)
    ensures
        store_message(StoreErrorView::Refused(complaint)) == complaint,
        column != usize::MAX ==> store_message(
            StoreErrorView::Column(rows::ColumnErrorView { column, message: complaint }),
        ) == "Conversion error from type Text at index: "@ + text::decimal(column) + ", "@
            + complaint,
{
}

/// What is said of a failure of the store.
pub fn store_error_message(error: &StoreError) -> (res: String)
    ensures
        res@ == store_message(error@),
{
    match error {
        StoreError::Column(error) => rusqlite_conversion_failure(error.column, &error.message),
        StoreError::Refused(message) => message.clone(),
    }
}

// ---------------------------------------------------------------------------
// Calendars
// ---------------------------------------------------------------------------

/// The answer to a calendar that was sent for an identifier, of whose dates and times these were
/// read.
pub open spec fn save_answer(
    res: Result<Vec<Statement>, ApiError>,
    id: Seq<char>,
    calendar: CalendarView,
    readings: validate::ReadingsView,
) -> bool {
    if id != calendar.id {
        res matches Err(error) && error@ == bad_request("path id does not match calendar id"@)
    } else {
        match validate::calendar_defect(calendar, readings) {
            Some(message) => res matches Err(error) && error@ == internal(message),
            None => res matches Ok(statements) && store::statement_views(statements@)
                == store::save_statements(calendar),
        }
    }
}

/// A calendar that is sent for another identifier is refused with status 400, one that breaks a
/// rule with status 500 and the message of the rule, and any other one is accepted.
pub proof fn save_answers(
    res: Result<Vec<Statement>, ApiError>,
    id: Seq<char>,
    calendar: CalendarView,
    readings: validate::ReadingsView,
)
    requires
        save_answer(res, id, calendar, readings),
    ensures
        res is Ok <==> id == calendar.id && validate::calendar_defect(calendar, readings) is None,
        res matches Ok(statements) ==> store::statement_views(statements@)
            == store::save_statements(calendar),
        res matches Err(error) ==> (if id != calendar.id {
            error.status == 400 && error.message@ == "path id does not match calendar id"@
        } else {
            error.status == 500 && validate::calendar_defect(calendar, readings) == Some(
                error.message@,
            )
        }),
{
}

/// What saves a calendar that was sent for an identifier, if it is the calendar of that
/// identifier and valid.
pub fn save_request(store: &Store, id: &str, calendar: &CalendarFile) -> (res: Result<
    Vec<Statement>,
    ApiError,
>)
    ensures
        save_answer(res, id@, calendar@, validate::calendar_readings(calendar@)),
        forall|readings: validate::ReadingsView| #[trigger]
            readings.written(calendar@) ==> save_answer(res, id@, calendar@, readings),
        res matches Ok(statements) ==> id@ == calendar@.id && forall|held: tables::Tables|
            tables::keeps(
                #[trigger] tables::run_all(held, store::statement_views(statements@)),
                calendar@,
            ),
{
    if !text::same_text(id, &calendar.id) {
        return Err(ApiError::bad_request("path id does not match calendar id"));
    }
    match store.save_calendar(calendar) {
        Ok(statements) => Ok(statements),
        Err(message) => Err(ApiError::internal(&message)),
    }
}

/// The events to write to a calendar, and the import that they come from.
#[derive(Debug)]
pub struct ApplyRequest {
    pub calendar_id: String,
    pub import_id: Option<i64>,
    pub events: Vec<Event>,
}

/// What applies an import.
#[derive(Debug)]
pub struct Application {
    /// What writes the events, in one transaction.
    pub statements: Vec<Statement>,
    /// What marks the import as applied afterwards.
    pub mark: Option<Statement>,
    /// How many events are written.
    pub applied: usize,
}

/// What applies an import to a calendar of which the database found these rows.
pub fn apply_request(
    store: &Store,
    request: &ApplyRequest,
    row: Option<CalendarRow>,
    event_rows: Vec<EventRow>,
) -> (res: Result<Application, ApiError>)
    ensures
        match store::accepted(
            request.calendar_id@,
            store::loaded(
                request.calendar_id@,
                store::optional_row(row),
                rows::row_views(event_rows@),
            ),
            model::event_views(request.events@),
        ) {
            Ok((statements, count)) => {
                &&& res matches Ok(application)
                &&& store::statement_views(application.statements@) == statements
                &&& application.applied == count
                &&& match request.import_id {
                    Some(id) => application.mark matches Some(mark) && mark@
                        == StatementView::MarkImportApplied(id as int),
                    None => application.mark is None,
                }
            },
            Err(error) => res matches Err(answer) && answer@ == internal(store_message(error)),
        },
        forall|held: tables::Tables| #[trigger]
            tables::finds(
                held,
                request.calendar_id@,
                store::optional_row(row),
                rows::row_views(event_rows@),
            ) ==> (store::loaded(
                request.calendar_id@,
                store::optional_row(row),
                rows::row_views(event_rows@),
            ) matches Ok(calendar) ==> {
                let updates = model::event_views(request.events@);
                &&& res is Ok <==> tables::last_events_are_valid(calendar, updates)
                &&& res matches Ok(application) ==> application.applied == updates.len()
                    && tables::keeps(
                    tables::run_all(held, store::statement_views(application.statements@)),
                    tables::with_events(calendar, updates),
                )
            }),
{
    match store.upsert_events(&request.calendar_id, row, event_rows, request.events.as_slice()) {
        Ok(accepted) => {
            let mark = match request.import_id {
                Some(id) => Some(store.mark_import_applied(id)),
                None => None,
            };
            Ok(Application { statements: accepted.statements, mark, applied: accepted.count })
        },
        Err(error) => Err(ApiError::internal(&store_error_message(&error))),
    }
}

// ---------------------------------------------------------------------------
// Previews
// ---------------------------------------------------------------------------

/// How to reach the service that extracts events.
#[derive(Debug)]
pub struct AiConfig {
    pub base_url: String,
    pub model: String,
    pub api_key: String,
}

/// A request to extract events from a text or from a page.
#[derive(Debug)]
pub struct PreviewRequest {
    pub calendar_id: String,
    pub url: Option<String>,
    pub text: Option<String>,
    pub ai: AiConfig,
}

/// Where the text comes from that events are extracted from.
#[derive(Debug)]
pub enum PreviewSource {
    /// The text itself.
    Given(String),
    /// The page to fetch.
    Page(String),
}

/// The model of a [`PreviewSource`].
#[verifier::ext_equal]
pub enum PreviewSourceView {
    Given(Seq<char>),
    Page(Seq<char>),
}

impl View for PreviewSource {
    type V = PreviewSourceView;

    open spec fn view(&self) -> PreviewSourceView {
        match self {
            PreviewSource::Given(text) => PreviewSourceView::Given(text@),
            PreviewSource::Page(url) => PreviewSourceView::Page(url@),
        }
    }
}

/// Where the text of a request comes from: the text that it gives without the white space around
/// it, or the page where that is missing or blank.
pub open spec fn source_of_request(
    calendar_id: Seq<char>,
    given: Option<Seq<char>>,
    url: Option<Seq<char>>,
) -> Result<PreviewSourceView, ApiErrorView> {
    if text::blank(calendar_id) {
        Err(bad_request("calendar_id is required"@))
    } else {
        match (given, url) {
            (Some(given), _) if !text::blank(given) => Ok(
                PreviewSourceView::Given(text::trimmed(given)),
            ),
            (_, Some(url)) => Ok(PreviewSourceView::Page(url)),
            (_, None) => Err(bad_request("url or text is required"@)),
        }
    }
}

/// A request needs a calendar. Its text is the one that it gives, without the white space around
/// it, unless that is blank; the page is fetched only where there is no such text.
pub proof fn texts_come_before_pages(
    calendar_id: Seq<char>,
    given: Seq<char>,
    url: Seq<char>,
    no_text: Option<Seq<char>>,
)
    requires
        no_text matches Some(blank) ==> text::trimmed(blank).len() == 0,
    ensures
        text::trimmed(calendar_id).len() == 0 ==> source_of_request(
            calendar_id,
            Some(given),
            Some(url),
        ) == Err::<PreviewSourceView, _>(
            ApiErrorView { status: 400, message: "calendar_id is required"@ },
        ),
        text::trimmed(calendar_id).len() > 0 ==> {
            &&& text::trimmed(given).len() > 0 ==> source_of_request(
                calendar_id,
                Some(given),
                Some(url),
            ) == Ok::<_, ApiErrorView>(PreviewSourceView::Given(text::trimmed(given)))
                && source_of_request(calendar_id, Some(given), None) == Ok::<_, ApiErrorView>(
                PreviewSourceView::Given(text::trimmed(given)),
            )
            &&& source_of_request(calendar_id, no_text, Some(url)) == Ok::<_, ApiErrorView>(
                PreviewSourceView::Page(url),
            )
            &&& source_of_request(calendar_id, no_text, None) == Err::<PreviewSourceView, _>(
                ApiErrorView { status: 400, message: "url or text is required"@ },
            )
        },
{
    text::blank_iff_trimmed_empty(calendar_id);
    text::blank_iff_trimmed_empty(given);
    if let Some(blank) = no_text {
        text::blank_iff_trimmed_empty(blank);
    }
}

/// Where the text of a request comes from.
pub fn preview_source(request: &PreviewRequest) -> (res: Result<PreviewSource, ApiError>)
    ensures
        match source_of_request(
            request.calendar_id@,
            model::optional_text(request.text),
            model::optional_text(request.url),
        ) {
            Ok(source) => res matches Ok(found) && found@ == source,
            Err(error) => res matches Err(answer) && answer@ == error,
        },
{
    if text::is_blank(&request.calendar_id) {
        return Err(ApiError::bad_request("calendar_id is required"));
    }
    if let Some(given) = &request.text {
        if !text::is_blank(given) {
            return Ok(PreviewSource::Given(text::trim(given).to_string()));
        }
    }
    match &request.url {
        Some(url) => Ok(PreviewSource::Page(url.clone())),
        None => Err(ApiError::bad_request("url or text is required")),
    }
}

/// Events with the given page for those that name none.
pub open spec fn with_url(events: Seq<EventView>, url: Option<Seq<char>>) -> Seq<EventView> {
    events.map_values(
        |event: EventView|
            if event.url is None {
                EventView { url, ..event }
            } else {
                event
            },
    )
}

/// Every event is kept, in its place and with all that it gives; only a missing page is filled
/// in.
pub proof fn only_missing_urls_are_filled(
    events: Seq<EventView>,
    url: Option<Seq<char>>,
    i: int,
)
    requires
        0 <= i < events.len(),
    ensures
        with_url(events, url).len() == events.len(),
        events[i].url is Some ==> with_url(events, url)[i] == events[i],
        events[i].url is None ==> with_url(events, url)[i].url == url,
        ({
            let event = with_url(events, url)[i];
            &&& event.id == events[i].id && event.title == events[i].title
            &&& event.start == events[i].start && event.end == events[i].end
            &&& event.all_day == events[i].all_day
            &&& event.description == events[i].description
            &&& event.location == events[i].location
            &&& event.source == events[i].source && event.status == events[i].status
            &&& event.alarm_minutes == events[i].alarm_minutes
        }),
{
}

/// Gives events that name no page the given one.
pub fn fill_urls(events: Vec<Event>, url: &Option<String>) -> (res: Vec<Event>)
    ensures
        model::event_views(res@) == with_url(
            model::event_views(events@),
            model::optional_text(*url),
        ),
{
    let mut filled: Vec<Event> = Vec::new();
    let ghost expected = with_url(model::event_views(events@), model::optional_text(*url));
    for event in iter: events
        invariant
            iter.seq() == events@,
            expected == with_url(model::event_views(events@), model::optional_text(*url)),
            model::event_views(filled@) == expected.take(iter.index() as int),
    {
        let ghost before = filled@;
        let mut event = event;
        if event.url.is_none() {
            event.url = model::copy_text(url);
        }
        proof {
            assert(event@ == expected[iter.index() as int]);
        }
        filled.push(event);
        proof {
            assert(model::event_views(filled@) =~= model::event_views(before).push(event@));
            let i = iter.index() as int;
            assert(expected.take(i + 1) =~= expected.take(i).push(expected[i]));
        }
    }
    proof {
        assert(expected.take(expected.len() as int) =~= expected);
    }
    filled
}

// ---------------------------------------------------------------------------
// The question to the service
// ---------------------------------------------------------------------------

/// How many characters of a text are sent to the service.
pub const MAX_INPUT_CHARS: usize = 20000;

/// What the service is told to do.
pub const SYSTEM_PROMPT: &'static str = "Extract exam calendar events from official Chinese exam notices. Return strict JSON only, with an events array. Each event must match this schema: id, title, start, end, all_day, description, location, url, status, alarm_minutes. Use YYYY-MM-DD for all-day dates and YYYY-MM-DDTHH:MM:SS for timed events. For all-day events, end must be the exclusive end date. If unsure, use all_day true and put uncertainty in description. Do not invent dates.";

/// The end of the address of the service.
pub const CHAT_COMPLETIONS: &'static str = "/chat/completions";

/// A text without a character at its end, however often it stands there.
pub open spec fn without_trailing(s: Seq<char>, c: char) -> Seq<char>
    decreases s.len(),
{
    if s.len() > 0 && s.last() == c {
        without_trailing(s.drop_last(), c)
    } else {
        s
    }
}

/// The address of the service for a base address or for the address itself.
pub open spec fn endpoint(base_url: Seq<char>) -> Seq<char> {
    let base = without_trailing(text::trimmed(base_url), '/');
    if text::has_suffix(base, CHAT_COMPLETIONS@) {
        base
    } else {
        base + CHAT_COMPLETIONS@
    }
}

proof fn lemma_without_trailing(s: Seq<char>, c: char)
    ensures
        without_trailing(s, c).len() <= s.len(),
        without_trailing(s, c).len() > 0 ==> without_trailing(s, c)[0] == s[0],
    decreases s.len(),
{
    if s.len() > 0 && s.last() == c {
        lemma_without_trailing(s.drop_last(), c);
    }
}

/// The address of the service is taken as it is: its own address is the same.
pub proof fn endpoint_of_endpoint(base_url: Seq<char>)
    ensures
        endpoint(endpoint(base_url)) == endpoint(base_url),
        text::has_suffix(endpoint(base_url), CHAT_COMPLETIONS@),
{
    reveal_strlit("/chat/completions");
    let trimmed = text::trimmed(base_url);
    let base = without_trailing(trimmed, '/');
    let address = endpoint(base_url);
    text::trimmed_text_has_no_outer_white_space(base_url);
    lemma_without_trailing(trimmed, '/');
    let n = address.len();
    assert(address.skip(n - 17) =~= CHAT_COMPLETIONS@);
    assert(address.last() == address.skip(n - 17)[16]);
    assert(address.last() == 's');
    if base.len() > 0 {
        assert(address[0] == base[0]);
    } else {
        assert(address[0] == '/');
    }
    text::text_without_outer_white_space_is_trimmed(address);
}

/// A base address that neither begins nor ends with white space nor ends with a slash gets the
/// service's path behind it, and the address of the service itself is left as it is.
pub proof fn endpoint_of_a_plain_address(base_url: Seq<char>)
    requires
        base_url.len() > 0 ==> !text::white_space(base_url[0]) && !text::white_space(
            base_url.last(),
        ) && base_url.last() != '/',
    ensures
        endpoint(base_url) == (if exists|head: Seq<char>| #[trigger]
            (head + "/chat/completions"@) == base_url {
            base_url
        } else {
            base_url + "/chat/completions"@
        }),
{
    text::text_without_outer_white_space_is_trimmed(base_url);
    text::suffix_is_what_stands_behind(base_url, "/chat/completions"@);
}

/// White space around a base address and a further slash behind it change nothing.
pub proof fn endpoint_of_a_padded_address(
    before: Seq<char>,
    base_url: Seq<char>,
    after: Seq<char>,
)
    requires
        text::blank(before),
        text::blank(after),
    ensures
        endpoint(before + base_url + after) == endpoint(base_url),
        endpoint(text::trimmed(base_url).push('/')) == endpoint(base_url),
{
    text::outer_white_space_is_trimmed(before, base_url, after);
    let base = text::trimmed(base_url);
    let longer = base.push('/');
    text::trimmed_text_has_no_outer_white_space(base_url);
    assert(longer[0] == (if base.len() > 0 { base[0] } else { '/' }));
    text::text_without_outer_white_space_is_trimmed(longer);
    assert(longer.drop_last() =~= base);
}

/// The address of the service for a base address or for the address itself.
pub fn chat_completions_endpoint(base_url: &str) -> (res: String)
    ensures
        res@ == endpoint(base_url@),
{
    let trimmed = text::trim(base_url);
    let chars = text::chars_of(trimmed);
    let mut n: usize = chars.len();
    proof {
        assert(trimmed@.take(n as int) =~= trimmed@);
    }
    while n > 0 && chars[n - 1] == '/'
        invariant
            n <= chars@.len(),
            chars@ == trimmed@,
            without_trailing(trimmed@, '/') == without_trailing(trimmed@.take(n as int), '/'),
        decreases n,
    {
        proof {
            assert(trimmed@.take(n as int).drop_last() =~= trimmed@.take(n - 1));
        }
        n = n - 1;
    }
    let base = trimmed.substring_char(0, n);
    proof {
        assert(base@ =~= trimmed@.take(n as int));
    }
    if text::ends_with(base, CHAT_COMPLETIONS) {
        base.to_string()
    } else {
        base.to_string().concat(CHAT_COMPLETIONS)
    }
}

/// The beginning of a text.
pub open spec fn truncated(value: Seq<char>, max_chars: int) -> Seq<char> {
    if value.len() <= max_chars {
        value
    } else {
        value.take(max_chars)
    }
}

/// A truncated text is the beginning of the text, as long as the text or as the limit allows.
pub proof fn truncated_text_is_a_beginning(value: Seq<char>, max_chars: int)
    requires
        max_chars >= 0,
    ensures
        truncated(value, max_chars).len() == if value.len() <= max_chars {
            value.len() as int
        } else {
            max_chars
        },
        forall|i: int|
            0 <= i < truncated(value, max_chars).len() ==> #[trigger] truncated(
                value,
                max_chars,
            )[i] == value[i],
{
}

/// The beginning of a text, of at most so many characters.
pub fn truncate_chars(value: &str, max_chars: usize) -> (res: String)
    ensures
        res@ == truncated(value@, max_chars as int),
{
    if value.unicode_len() <= max_chars {
        value.to_string()
    } else {
        let head = value.substring_char(0, max_chars);
        proof {
            assert(head@ =~= value@.take(max_chars as int));
        }
        head.to_string()
    }
}

/// A question to the service that extracts events.
#[derive(Debug)]
pub struct ChatRequest {
    /// Where the question is sent.
    pub endpoint: String,
    /// The token that comes with it.
    pub bearer: String,
    /// The model that is asked.
    pub model: String,
    /// How freely it answers.
    pub temperature: i64,
    /// The form of its answer.
    pub response_format: String,
    /// What it is told to do.
    pub system: String,
    /// The text that it is told to do it with.
    pub user: String,
}

/// The question to the service about a text, if it is known how to reach the service.
pub fn chat_request(config: &AiConfig, raw_text: &str) -> (res: Result<ChatRequest, ApiError>)
    ensures
        if text::blank(config.base_url@) || text::blank(config.model@) || text::blank(
            config.api_key@,
        ) {
            res matches Err(error) && error@ == bad_request(
                "ai.base_url, ai.model and ai.api_key are required"@,
            )
        } else {
            &&& res matches Ok(request)
            &&& request.endpoint@ == endpoint(config.base_url@)
            &&& request.bearer@ == text::trimmed(config.api_key@)
            &&& request.model@ == config.model@
            &&& request.temperature == 0
            &&& request.response_format@ == "json_object"@
            &&& request.system@ == SYSTEM_PROMPT@
            &&& request.user@ == truncated(raw_text@, MAX_INPUT_CHARS as int)
        },
{
    if text::is_blank(&config.base_url) || text::is_blank(&config.model) || text::is_blank(
        &config.api_key,
    ) {
        return Err(ApiError::bad_request("ai.base_url, ai.model and ai.api_key are required"));
    }
    Ok(
        ChatRequest {
            endpoint: chat_completions_endpoint(&config.base_url),
            bearer: text::trim(&config.api_key).to_string(),
            model: config.model.clone(),
            temperature: 0,
            response_format: "json_object".to_string(),
            system: SYSTEM_PROMPT.to_string(),
            user: truncate_chars(raw_text, MAX_INPUT_CHARS),
        },
    )
}

// ---------------------------------------------------------------------------
// The answer of the service
// ---------------------------------------------------------------------------

/// Where the answer stands in the service's reply.
pub const CONTENT_POINTER: &'static str = "/choices/0/message/content";

/// The outcome of looking for the answer.
pub open spec fn content_found(res: Result<String, ApiError>, found: Option<Seq<char>>) -> bool {
    match found {
        Some(content) => res matches Ok(text) && text@ == content,
        None => res matches Err(error) && error@ == bad_gateway(
            "ai response did not contain message content"@,
        ),
    }
}

/// What is found in the service's reply is the answer; without it the service failed.
pub proof fn found_content_is_the_answer(res: Result<String, ApiError>, found: Option<Seq<char>>)
    requires
        content_found(res, found),
    ensures
        res matches Ok(content) ==> found == Some(content@),
        res matches Err(error) ==> found is None && error.status == 502 && error.message@
            == "ai response did not contain message content"@,
{
}

/// Takes the answer that was found in the service's reply, or says that there was none.
pub fn content_or_error(found: Option<String>) -> (res: Result<String, ApiError>)
    ensures
        content_found(res, model::optional_text(found)),
{
    match found {
        Some(content) => Ok(content),
        None => Err(ApiError::bad_gateway("ai response did not contain message content")),
    }
}

/// The answer in the service's reply, which is JSON.
pub fn message_content(reply: &str) -> (res: Result<String, ApiError>)
    ensures
        content_found(res, json::pointed_text(reply@, CONTENT_POINTER@)),
{
    content_or_error(json::find_text(reply, CONTENT_POINTER))
}

/// The part of a text from its first opening to its last closing brace.
pub open spec fn braced(content: Seq<char>) -> Option<Seq<char>> {
    match (text::first_position(content, '{'), text::last_position(content, '}')) {
        (Some(start), Some(end)) => Some(content.subrange(start, end + 1)),
        _ => None,
    }
}

/// The last closing brace of a text stands at most one place before its first opening one.
pub open spec fn braces_in_order(content: Seq<char>) -> bool {
    match (text::first_position(content, '{'), text::last_position(content, '}')) {
        (Some(start), Some(end)) => start <= end + 1,
        _ => true,
    }
}

/// The braced part begins with the first opening brace and ends with the last closing one, and
/// there is one exactly where the text has both.
pub proof fn braced_part_is_between_the_outer_braces(content: Seq<char>)
    requires
        braces_in_order(content),
    ensures
        braced(content) is Some <==> content.contains('{') && content.contains('}'),
        braced(content) matches Some(part) ==> part.len() == 0 || exists|
            before: Seq<char>,
            after: Seq<char>,
        |
            {
                &&& content == #[trigger] (before + part + after)
                &&& !before.contains('{')
                &&& !after.contains('}')
                &&& part[0] == '{'
                &&& part.last() == '}'
            },
{
    text::first_position_is_first(content, '{');
    text::last_position_is_last(content, '}');
    if let Some(part) = braced(content) {
        let start = text::first_position(content, '{')->0;
        let end = text::last_position(content, '}')->0;
        assert(content[start] == '{');
        assert(content[end] == '}');
        let before = content.take(start);
        let after = content.skip(end + 1);
        if start <= end {
            assert(content =~= before + part + after);
        }
        assert forall|i: int| 0 <= i < before.len() implies before[i] != '{' by {
            assert(before[i] == content[i]);
        }
        assert forall|i: int| 0 <= i < after.len() implies after[i] != '}' by {
            assert(after[i] == content[end + 1 + i]);
        }
    }
}

/// Whether the last closing brace of an answer, without the white space around it, stands at
/// most one place before its first opening one.
pub fn has_braces_in_order(content: &str) -> (res: bool)
    ensures
        res == braces_in_order(text::trimmed(content@)),
{
    let chars = text::chars_of(text::trim(content));
    match (text::find_first(&chars, '{'), text::find_last(&chars, '}')) {
        (Some(start), Some(end)) => start <= end + 1,
        _ => true,
    }
}

/// The part of an answer that may hold the events where the whole does not: from its first
/// opening to its last closing brace.
pub fn braced_part(content: &str) -> (res: Result<String, ApiError>)
    requires
        braces_in_order(text::trimmed(content@)),
    ensures
        match braced(text::trimmed(content@)) {
            Some(part) => res matches Ok(found) && found@ == part,
            None => res matches Err(error) && error@ == bad_gateway(
                "ai output did not contain JSON"@,
            ),
        },
{
    let chars = text::chars_of(text::trim(content));
    let start: usize = match text::find_first(&chars, '{') {
        Some(start) => start,
        None => return Err(ApiError::bad_gateway("ai output did not contain JSON")),
    };
    let end: usize = match text::find_last(&chars, '}') {
        Some(end) => end,
        None => return Err(ApiError::bad_gateway("ai output did not contain JSON")),
    };
    Ok(text::text_of(&chars, start, end + 1))
}

/// What was read from an answer.
#[derive(Debug)]
pub struct AnswerReadings {
    /// The events of the whole answer, read as an object that holds them.
    pub object: Option<Vec<Event>>,
    /// The events of the whole answer, read as a list.
    pub list: Option<Vec<Event>>,
    /// The events of the braced part, read as an object that holds them, or the complaint.
    pub part: Result<Vec<Event>, String>,
}

/// The events of an answer of which these were read.
pub open spec fn events_of_answer(
    content: Seq<char>,
    object: Option<Seq<EventView>>,
    list: Option<Seq<EventView>>,
    part: Result<Seq<EventView>, Seq<char>>,
) -> Result<Seq<EventView>, ApiErrorView> {
    match (object, list, braced(text::trimmed(content)), part) {
        (Some(events), _, _, _) => Ok(events),
        (None, Some(events), _, _) => Ok(events),
        (None, None, None, _) => Err(bad_gateway("ai output did not contain JSON"@)),
        (None, None, Some(_), Ok(events)) => Ok(events),
        (None, None, Some(_), Err(complaint)) => Err(
            bad_gateway("failed to parse ai events: "@ + complaint),
        ),
    }
}

/// The events of an answer are exactly those that were read: from the whole answer as an object,
/// else from the whole answer as a list, else from its braced part. Without a braced part, or
/// with a complaint about it, there are none.
pub proof fn answers_give_the_events_that_were_read(
    content: Seq<char>,
    events: Seq<EventView>,
    object: Option<Seq<EventView>>,
    list: Option<Seq<EventView>>,
    part: Result<Seq<EventView>, Seq<char>>,
    complaint: Seq<char>,
)
    ensures
        events_of_answer(content, Some(events), list, part) == Ok::<_, ApiErrorView>(events),
        events_of_answer(content, None, Some(events), part) == Ok::<_, ApiErrorView>(events),
        ({
            let answer = text::trimmed(content);
            let braces = answer.contains('{') && answer.contains('}');
            &&& braces ==> events_of_answer(content, None, None, Ok(events)) == Ok::<
                _,
                ApiErrorView,
            >(events)
            &&& braces ==> events_of_answer(content, None, None, Err(complaint)) == Err::<
                Seq<EventView>,
                _,
            >(
                ApiErrorView {
                    status: 502,
                    message: "failed to parse ai events: "@ + complaint,
                },
            )
            &&& !braces ==> events_of_answer(content, None, None, part) == Err::<
                Seq<EventView>,
                _,
            >(ApiErrorView { status: 502, message: "ai output did not contain JSON"@ })
        }),
{
    let answer = text::trimmed(content);
    text::first_position_is_first(answer, '{');
    text::last_position_is_last(answer, '}');
}

/// The models of an optional list of events.
pub open spec fn optional_events(events: Option<Vec<Event>>) -> Option<Seq<EventView>> {
    match events {
        Some(events) => Some(model::event_views(events@)),
        None => None,
    }
}

/// The outcome of reading events.
pub open spec fn events_outcome(res: Result<Vec<Event>, String>) -> Result<
    Seq<EventView>,
    Seq<char>,
> {
    match res {
        Ok(events) => Ok(model::event_views(events@)),
        Err(message) => Err(message@),
    }
}

/// What was read is told as it is, and so are sources and errors.
pub proof fn readings_are_told_as_they_are(
    events: Vec<Event>,
    message: String,
    error: ApiError,
)
    ensures
        optional_events(Some(events)) == Some(model::event_views(events@)),
        optional_events(None) is None,
        events_outcome(Ok(events)) == Ok::<_, Seq<char>>(model::event_views(events@)),
        events_outcome(Err(message)) == Err::<Seq<EventView>, _>(message@),
        PreviewSource::Given(message)@ == PreviewSourceView::Given(message@),
        PreviewSource::Page(message)@ == PreviewSourceView::Page(message@),
        error@.status == error.status && error@.message == error.message@,
{
}

/// What is asked, where the answer stands, and how much of a text is sent.
pub proof fn constants_of_the_service()
    ensures
        CONTENT_POINTER@ == "/choices/0/message/content"@,
        CHAT_COMPLETIONS@ == "/chat/completions"@,
        MAX_INPUT_CHARS == 20000,
{
}

/// The events of an answer of which these were read: those of the whole answer, as an object or
/// as a list, or else those of its braced part.
pub fn parse_extracted_events(content: &str, readings: AnswerReadings) -> (res: Result<
    Vec<Event>,
    ApiError,
>)
    requires
        readings.object is None && readings.list is None ==> braces_in_order(
            text::trimmed(content@),
        ),
    ensures
        match events_of_answer(
            content@,
            optional_events(readings.object),
            optional_events(readings.list),
            events_outcome(readings.part),
        ) {
            Ok(events) => res matches Ok(found) && model::event_views(found@) == events,
            Err(error) => res matches Err(answer) && answer@ == error,
        },
        readings.object matches Some(events) ==> (res matches Ok(found) && found@ == events@),
        readings.object is None ==> (readings.list matches Some(events) ==> (res matches Ok(found)
            && found@ == events@)),
        readings.object is None && readings.list is None ==> (res matches Ok(found) ==> (
        readings.part matches Ok(events) && found@ == events@)),
        readings.object is None && readings.list is None && text::trimmed(content@).contains('{')
            && text::trimmed(content@).contains('}') ==> (res is Ok <==> readings.part is Ok),
{
    proof {
        text::first_position_is_first(text::trimmed(content@), '{');
        text::last_position_is_last(text::trimmed(content@), '}');
    }
    if let Some(events) = readings.object {
        return Ok(events);
    }
    if let Some(events) = readings.list {
        return Ok(events);
    }
    match braced_part(content) {
        Ok(_) => {},
        Err(error) => return Err(error),
    }
    match readings.part {
        Ok(events) => Ok(events),
        Err(complaint) => Err(
            ApiError::bad_gateway(
                "failed to parse ai events: ".to_string().concat(complaint.as_str()).as_str(),
            ),
        ),
    }
}

/// What `parse_extracted_events` gives back are all the events that were read, each as it was read:
/// those of the object, else those of the list, else those of the braced part.
pub proof fn every_event_of_the_answer_is_given(
    content: &str,
    readings: AnswerReadings,
    res: Result<Vec<Event>, ApiError>,
)
    requires
        call_ensures(parse_extracted_events, (content, readings), res),
    ensures
        readings.object matches Some(events) ==> (res matches Ok(found) && found@.len()
            == events@.len() && forall|i: int|
            0 <= i < events@.len() ==> #[trigger] found@[i] == events@[i]),
        readings.object is None ==> (readings.list matches Some(events) ==> (res matches Ok(found)
            && found@.len() == events@.len() && forall|i: int|
            0 <= i < events@.len() ==> #[trigger] found@[i] == events@[i])),
        readings.object is None && readings.list is None ==> (res matches Ok(found) ==> (
        readings.part matches Ok(events) && found@.len() == events@.len() && forall|i: int|
            0 <= i < events@.len() ==> #[trigger] found@[i] == events@[i])),
        res matches Err(error) ==> readings.object is None && readings.list is None && error.status
            == 502,
{
}

/// `fill_urls` gives back every event in its place: with its own page where it names one, and else
/// with the given page.
pub proof fn every_event_keeps_its_place_and_page(
    events: Vec<Event>,
    url: &Option<String>,
    res: Vec<Event>,
    i: int,
)
    requires
        call_ensures(fill_urls, (events, url), res),
        0 <= i < events@.len(),
    ensures
        res@.len() == events@.len(),
        res@[i].id@ == events@[i].id@ && res@[i].title@ == events@[i].title@,
        res@[i].start@ == events@[i].start@ && res@[i].end@ == events@[i].end@,
        res@[i].all_day == events@[i].all_day,
        events@[i].url matches Some(own) ==> (res@[i].url matches Some(found) && found@ == own@),
        events@[i].url is None ==> (*url matches Some(given) ==> (res@[i].url matches Some(found)
            && found@ == given@)),
        events@[i].url is None && *url is None ==> res@[i].url is None,
{
    let views = model::event_views(events@);
    assert(views[i] == events@[i]@);
    only_missing_urls_are_filled(views, model::optional_text(*url), i);
    assert(model::event_views(res@).len() == res@.len());
    assert(model::event_views(res@)[i] == res@[i]@);
}

/// A question that is put to the service goes to its endpoint with the trimmed key, names the
/// model, asks for JSON, and hands on the text or its first 20000 characters.
pub proof fn questions_carry_the_text(
    config: &AiConfig,
    raw_text: &str,
    res: Result<ChatRequest, ApiError>,
)
    requires
        call_ensures(chat_request, (config, raw_text), res),
    ensures
        res is Ok <==> text::trimmed(config.base_url@).len() > 0 && text::trimmed(
            config.model@,
        ).len() > 0 && text::trimmed(config.api_key@).len() > 0,
        res matches Ok(question) ==> {
            &&& question.endpoint@ == endpoint(config.base_url@)
            &&& question.bearer@ == text::trimmed(config.api_key@)
            &&& question.model@ == config.model@
            &&& question.temperature == 0
            &&& question.response_format@ == "json_object"@
            &&& question.system@ == SYSTEM_PROMPT@
            &&& raw_text@.len() <= 20000 ==> question.user@ == raw_text@
            &&& raw_text@.len() > 20000 ==> question.user@ == raw_text@.take(20000)
        },
        res matches Err(error) ==> error.status == 400 && error.message@
            == "ai.base_url, ai.model and ai.api_key are required"@,
{
    text::blank_iff_trimmed_empty(config.base_url@);
    text::blank_iff_trimmed_empty(config.model@);
    text::blank_iff_trimmed_empty(config.api_key@);
}

} // verus!
