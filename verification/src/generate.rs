//! Generation of iCalendar files from the JSON files of a directory, and the export of calendars
//! into such files.

use vstd::prelude::*;

use crate::files;
use crate::files::{OutputFile, OutputFileView};
use crate::model::{CalendarFile, CalendarView};
use crate::render;
use crate::text;
use crate::validate;

verus! {

/// What was read from a JSON file.
#[derive(Debug)]
pub enum FileReading {
    /// The file could not be read.
    Unreadable(String),
    /// The file holds no calendar.
    NoCalendar(String),
    /// The file holds a calendar.
    Calendar(CalendarFile),
}

/// A JSON file of a directory.
#[derive(Debug)]
pub struct InputFile {
    /// The file's name, by which files are ordered: a character for each of its bytes.
    pub name: String,
    /// The file's path, as it is shown.
    pub path: String,
    /// What was read from the file.
    pub reading: FileReading,
}

/// What is generated.
#[derive(Debug)]
pub struct Generation {
    /// The files to write, in order.
    pub files: Vec<OutputFile>,
    /// What went wrong after them.
    pub failure: Option<String>,
}

/// A calendar to export, and its JSON text.
#[derive(Debug)]
pub struct Exportable {
    pub calendar: CalendarFile,
    pub json: String,
}

/// The model of a [`FileReading`].
#[verifier::ext_equal]
pub enum FileReadingView {
    Unreadable(Seq<char>),
    NoCalendar(Seq<char>),
    Calendar(CalendarView),
}

/// The model of an [`InputFile`].
#[verifier::ext_equal]
pub struct InputView {
    pub name: Seq<char>,
    pub path: Seq<char>,
    pub reading: FileReadingView,
}

/// The model of a [`Generation`].
#[verifier::ext_equal]
pub struct GenerationView {
    pub files: Seq<OutputFileView>,
    pub failure: Option<Seq<char>>,
}

/// The model of an [`Exportable`].
#[verifier::ext_equal]
pub struct ExportableView {
    pub calendar: CalendarView,
    pub json: Seq<char>,
}

impl View for FileReading {
    type V = FileReadingView;

    open spec fn view(&self) -> FileReadingView {
        match self {
            FileReading::Unreadable(message) => FileReadingView::Unreadable(message@),
            FileReading::NoCalendar(message) => FileReadingView::NoCalendar(message@),
            FileReading::Calendar(calendar) => FileReadingView::Calendar(calendar@),
        }
    }
}

impl View for InputFile {
    type V = InputView;

    open spec fn view(&self) -> InputView {
        InputView { name: self.name@, path: self.path@, reading: self.reading@ }
    }
}

impl View for Generation {
    type V = GenerationView;

    open spec fn view(&self) -> GenerationView {
        GenerationView {
            files: output_views(self.files@),
            failure: match self.failure {
                Some(message) => Some(message@),
                None => None,
            },
        }
    }
}

impl View for Exportable {
    type V = ExportableView;

    open spec fn view(&self) -> ExportableView {
        ExportableView { calendar: self.calendar@, json: self.json@ }
    }
}

/// The models of a list of files to write.
pub open spec fn output_views(files: Seq<OutputFile>) -> Seq<OutputFileView> {
    files.map_values(|file: OutputFile| file@)
}

/// The models of a list of JSON files.
pub open spec fn input_views(files: Seq<InputFile>) -> Seq<InputView> {
    files.map_values(|file: InputFile| file@)
}

/// The models of a list of calendars to export.
pub open spec fn exportable_views(list: Seq<Exportable>) -> Seq<ExportableView> {
    list.map_values(|item: Exportable| item@)
}

/// The models of files, and of what is generated, show all that they hold.
pub proof fn generation_models_show_everything(
    file: InputFile,
    message: String,
    calendar: CalendarFile,
    generation: Generation,
    item: Exportable,
    files: Seq<InputFile>,
    items: Seq<Exportable>,
)
    ensures
        file@.name == file.name@ && file@.path == file.path@ && file@.reading == file.reading@,
        FileReading::Unreadable(message)@ == FileReadingView::Unreadable(message@),
        FileReading::NoCalendar(message)@ == FileReadingView::NoCalendar(message@),
        FileReading::Calendar(calendar)@ == FileReadingView::Calendar(calendar@),
        generation@.files.len() == generation.files@.len(),
        forall|i: int|
            0 <= i < generation.files@.len() ==> #[trigger] generation@.files[i]
                == generation.files@[i]@,
        generation.failure is None <==> generation@.failure is None,
        generation.failure matches Some(message) ==> generation@.failure == Some(message@),
        item@.calendar == item.calendar@ && item@.json == item.json@,
        input_views(files).len() == files.len(),
        forall|i: int| 0 <= i < files.len() ==> #[trigger] input_views(files)[i] == files[i]@,
        exportable_views(items).len() == items.len(),
        forall|i: int| 0 <= i < items.len() ==> #[trigger] exportable_views(items)[i] == items[i]@,
{
}

// ---------------------------------------------------------------------------
// Order
// ---------------------------------------------------------------------------

/// A list of files with one more, behind all that it does not come before.
pub open spec fn inserted(files: Seq<InputView>, file: InputView) -> Seq<InputView>
    decreases files.len(),
{
    if files.len() > 0 && text::text_before(file.name, files.last().name) {
        inserted(files.drop_last(), file).push(files.last())
    } else {
        files.push(file)
    }
}

/// Files in the order of their names.
pub open spec fn sorted(files: Seq<InputView>) -> Seq<InputView>
    decreases files.len(),
{
    if files.len() == 0 {
        files
    } else {
        inserted(sorted(files.drop_last()), files.last())
    }
}

/// No file of a list comes before an earlier one.
pub open spec fn ordered(files: Seq<InputView>) -> bool {
    forall|i: int, j: int|
        0 <= i < j < files.len() ==> !text::text_before(
            (#[trigger] files[j]).name,
            (#[trigger] files[i]).name,
        )
}

proof fn lemma_inserted(files: Seq<InputView>, file: InputView)
    requires
        ordered(files),
    ensures
        ordered(inserted(files, file)),
        inserted(files, file).to_multiset() == files.to_multiset().insert(file),
    decreases files.len(),
{
    broadcast use vstd::seq_lib::group_to_multiset_ensures;

    if files.len() > 0 && text::text_before(file.name, files.last().name) {
        let rest = files.drop_last();
        let last = files.last();
        let before = inserted(rest, file);
        assert forall|i: int, j: int| 0 <= i < j < rest.len() implies !text::text_before(
            (#[trigger] rest[j]).name,
            (#[trigger] rest[i]).name,
        ) by {
            assert(rest[i] == files[i] && rest[j] == files[j]);
        }
        lemma_inserted(rest, file);
        let after = before.push(last);
        assert(files =~= rest.push(last));
        assert(files.to_multiset() == rest.to_multiset().insert(last));
        assert(after.to_multiset() == before.to_multiset().insert(last));
        assert(after.to_multiset() =~= files.to_multiset().insert(file));
        assert forall|i: int, j: int| 0 <= i < j < after.len() implies !text::text_before(
            (#[trigger] after[j]).name,
            (#[trigger] after[i]).name,
        ) by {
            if j < before.len() {
                assert(after[i] == before[i] && after[j] == before[j]);
            } else {
                assert(after[j] == last);
                assert(before.to_multiset().contains(before[i]));
                if before[i] == file {
                    if text::text_before(last.name, file.name) {
                        text::text_order_is_transitive(last.name, file.name, last.name);
                        text::text_not_before_itself(last.name);
                    }
                } else {
                    assert(rest.to_multiset().contains(before[i]));
                    let k = choose|k: int| 0 <= k < rest.len() && rest[k] == before[i];
                    assert(files[k] == before[i]);
                    assert(files[files.len() - 1] == last);
                }
            }
        }
    } else {
        let after = files.push(file);
        assert forall|i: int, j: int| 0 <= i < j < after.len() implies !text::text_before(
            (#[trigger] after[j]).name,
            (#[trigger] after[i]).name,
        ) by {
            if j < files.len() {
                assert(after[i] == files[i] && after[j] == files[j]);
            } else {
                let last = files.last();
                assert(files[files.len() - 1] == last);
                if text::text_before(file.name, files[i].name) && i < files.len() - 1 {
                    text::text_order_is_total(files[i].name, last.name);
                    assert(!text::text_before(last.name, files[i].name));
                    if files[i].name != last.name {
                        text::text_order_is_transitive(file.name, files[i].name, last.name);
                    }
                }
            }
        }
    }
}

/// Sorting keeps the files and puts them in order.
pub proof fn sorted_files_are_ordered(files: Seq<InputView>)
    ensures
        ordered(sorted(files)),
        sorted(files).to_multiset() == files.to_multiset(),
    decreases files.len(),
{
    broadcast use vstd::seq_lib::group_to_multiset_ensures;

    if files.len() > 0 {
        sorted_files_are_ordered(files.drop_last());
        lemma_inserted(sorted(files.drop_last()), files.last());
        assert(files =~= files.drop_last().push(files.last()));
        assert(sorted(files).to_multiset() =~= files.to_multiset());
    }
}

fn insert_file(files: &mut Vec<InputFile>, file: InputFile)
    ensures
        input_views(final(files)@) == inserted(input_views(old(files)@), file@),
{
    let ghost all = input_views(files@);
    let mut p: usize = files.len();
    proof {
        assert(all.take(p as int) =~= all);
        assert(inserted(all, file@) + all.skip(p as int) =~= inserted(all, file@));
    }
    while p > 0 && text::is_text_before(&file.name, &files[p - 1].name)
        invariant
            p <= files@.len(),
            files@ == old(files)@,
            all == input_views(files@),
            inserted(all, file@) == inserted(all.take(p as int), file@) + all.skip(p as int),
        decreases p,
    {
        proof {
            let head = all.take(p as int);
            assert(head.last() == files@[p - 1]@);
            assert(head.drop_last() =~= all.take(p - 1));
            assert(inserted(head, file@) == inserted(all.take(p - 1), file@).push(head.last()));
            assert(inserted(all, file@) =~= inserted(all.take(p - 1), file@) + all.skip(p - 1));
        }
        p = p - 1;
    }
    proof {
        let head = all.take(p as int);
        if p > 0 {
            assert(head.last() == files@[p - 1]@);
        }
        assert(inserted(head, file@) == head.push(file@));
    }
    files.insert(p, file);
    proof {
        assert(input_views(files@) =~= all.take(p as int).push(file@) + all.skip(p as int));
    }
}

/// Puts files in the order of their names.
pub fn sort_files(files: Vec<InputFile>) -> (res: Vec<InputFile>)
    ensures
        input_views(res@) == sorted(input_views(files@)),
{
    let ghost all = input_views(files@);
    let mut out: Vec<InputFile> = Vec::new();
    proof {
        assert(input_views(out@) =~= sorted(all.take(0)));
    }
    for file in iter: files
        invariant
            iter.seq() == files@,
            all == input_views(files@),
            input_views(out@) == sorted(all.take(iter.index() as int)),
    {
        proof {
            let i = iter.index() as int;
            assert(all.take(i + 1).drop_last() =~= all.take(i));
            assert(all.take(i + 1).last() == file@);
        }
        insert_file(&mut out, file);
    }
    proof {
        assert(all.take(all.len() as int) =~= all);
    }
    out
}

// ---------------------------------------------------------------------------
// Generation
// ---------------------------------------------------------------------------

/// The calendar of a file, or what is said of a file that gives none.
pub open spec fn calendar_of_input(file: InputView) -> Result<CalendarView, Seq<char>> {
    match file.reading {
        FileReadingView::Unreadable(message) => Err(message),
        FileReadingView::NoCalendar(complaint) => Err(
            files::invalid_json_error(file.path, complaint),
        ),
        FileReadingView::Calendar(calendar) => Ok(calendar),
    }
}

/// The rendering of the calendar of a file, or what is said of a file that gives none.
pub open spec fn output_of_input(file: InputView) -> Result<OutputFileView, Seq<char>> {
    match calendar_of_input(file) {
        Err(message) => Err(message),
        Ok(calendar) => {
            let readings = validate::calendar_readings(calendar);
            match validate::calendar_defect(calendar, readings) {
                Some(message) => Err(file.path + ": "@ + message),
                None => Ok(
                    OutputFileView {
                        name: files::ics_file_name(calendar.id),
                        contents: render::rendered(calendar, readings),
                    },
                ),
            }
        },
    }
}

/// The files up to the first failure, and the failure.
pub open spec fn until_failure(outcomes: Seq<Result<OutputFileView, Seq<char>>>) -> GenerationView
    decreases outcomes.len(),
{
    if outcomes.len() == 0 {
        GenerationView { files: Seq::empty(), failure: None }
    } else {
        let before = until_failure(outcomes.drop_last());
        match (before.failure, outcomes.last()) {
            (Some(_), _) => before,
            (None, Ok(file)) => GenerationView { files: before.files.push(file), failure: None },
            (None, Err(message)) => GenerationView { failure: Some(message), ..before },
        }
    }
}

/// What is generated from the JSON files of a directory: they are taken in the order of their
/// names, up to the first one that gives no rendering.
pub open spec fn generation(files: Seq<InputView>) -> GenerationView {
    until_failure(sorted(files).map_values(|file: InputView| output_of_input(file)))
}

/// The outcome of rendering a file.
pub open spec fn output_outcome(res: Result<OutputFile, String>) -> Result<
    OutputFileView,
    Seq<char>,
> {
    match res {
        Ok(file) => Ok(file@),
        Err(message) => Err(message@),
    }
}

/// The outcomes of rendering files.
pub open spec fn output_outcomes(outcomes: Seq<Result<OutputFile, String>>) -> Seq<
    Result<OutputFileView, Seq<char>>,
> {
    outcomes.map_values(|outcome: Result<OutputFile, String>| output_outcome(outcome))
}

/// Outcomes are told as they are.
pub proof fn outcomes_are_told_as_they_are(
    file: OutputFile,
    message: String,
    outcomes: Seq<Result<OutputFile, String>>,
)
    ensures
        output_outcome(Ok(file)) == Ok::<_, Seq<char>>(file@),
        output_outcome(Err(message)) == Err::<OutputFileView, _>(message@),
        output_outcomes(outcomes).len() == outcomes.len(),
        forall|i: int|
            0 <= i < outcomes.len() ==> #[trigger] output_outcomes(outcomes)[i] == output_outcome(
                outcomes[i],
            ),
{
}

proof fn lemma_failure_stays(outcomes: Seq<Result<OutputFileView, Seq<char>>>, n: int)
    requires
        0 <= n <= outcomes.len(),
        until_failure(outcomes.take(n)).failure is Some,
    ensures
        until_failure(outcomes) == until_failure(outcomes.take(n)),
    decreases outcomes.len(),
{
    if n == outcomes.len() {
        assert(outcomes.take(n) =~= outcomes);
    } else {
        assert(outcomes.drop_last().take(n) =~= outcomes.take(n));
        lemma_failure_stays(outcomes.drop_last(), n);
    }
}

/// The files before the first failure are taken, all of them and in their order, and then the
/// failure; without one, all files.
pub proof fn files_are_taken_up_to_the_first_failure(
    outcomes: Seq<Result<OutputFileView, Seq<char>>>,
    k: int,
)
    requires
        0 <= k <= outcomes.len(),
        forall|i: int| 0 <= i < k ==> (#[trigger] outcomes[i]) is Ok,
        k < outcomes.len() ==> outcomes[k] is Err,
    ensures
        until_failure(outcomes).files.len() == k,
        forall|i: int|
            0 <= i < k ==> outcomes[i] == Ok::<_, Seq<char>>(
                #[trigger] until_failure(outcomes).files[i],
            ),
        k == outcomes.len() ==> until_failure(outcomes).failure is None,
        k < outcomes.len() ==> until_failure(outcomes).failure == Some(outcomes[k]->Err_0),
{
    let before = outcomes.take(k);
    assert(forall|i: int| 0 <= i < k ==> #[trigger] before[i] == outcomes[i]);
    lemma_no_failure(before);
    if k == outcomes.len() {
        assert(before =~= outcomes);
    } else {
        let failed = outcomes.take(k + 1);
        assert(failed.drop_last() =~= before);
        assert(failed.last() == outcomes[k]);
        lemma_failure_stays(outcomes, k + 1);
    }
    assert forall|i: int| 0 <= i < k implies outcomes[i] == Ok::<_, Seq<char>>(
        #[trigger] until_failure(outcomes).files[i],
    ) by {
        assert(before[i] == Ok::<_, Seq<char>>(until_failure(before).files[i]));
    }
}

/// What a file gives: a message where it could not be read or holds no calendar, a complaint
/// behind its path where its calendar breaks a rule, and else the rendering.
pub proof fn files_give_their_calendars(
    name: Seq<char>,
    path: Seq<char>,
    message: Seq<char>,
    calendar: CalendarView,
)
    ensures
        output_of_input(
            InputView { name, path, reading: FileReadingView::Unreadable(message) },
        ) == Err::<OutputFileView, _>(message),
        output_of_input(
            InputView { name, path, reading: FileReadingView::NoCalendar(message) },
        ) == Err::<OutputFileView, _>(path + ": invalid JSON: "@ + message),
        ({
            let readings = validate::calendar_readings(calendar);
            let outcome = output_of_input(
                InputView { name, path, reading: FileReadingView::Calendar(calendar) },
            );
            match validate::calendar_defect(calendar, readings) {
                Some(defect) => outcome == Err::<OutputFileView, _>(path + ": "@ + defect),
                None => outcome matches Ok(file) && file.name == calendar.id + ".ics"@
                    && file.contents == render::rendered(calendar, readings),
            }
        }),
        calendar_of_input(
            InputView { name, path, reading: FileReadingView::Calendar(calendar) },
        ) == Ok::<_, Seq<char>>(calendar),
{
}

/// Takes the files up to the first failure.
pub fn stop_at_failure(outcomes: Vec<Result<OutputFile, String>>) -> (res: Generation)
    ensures
        res@ == until_failure(output_outcomes(outcomes@)),
{
    let ghost all = output_outcomes(outcomes@);
    let mut files: Vec<OutputFile> = Vec::new();
    proof {
        assert(output_views(files@) =~= until_failure(all.take(0)).files);
    }
    for outcome in iter: outcomes
        invariant
            iter.seq() == outcomes@,
            all == output_outcomes(outcomes@),
            until_failure(all.take(iter.index() as int)) == (GenerationView {
                files: output_views(files@),
                failure: None,
            }),
    {
        proof {
            let i = iter.index() as int;
            assert(all.take(i + 1).drop_last() =~= all.take(i));
            assert(all.take(i + 1).last() == output_outcome(outcome));
        }
        match outcome {
            Ok(file) => {
                let ghost before = files@;
                files.push(file);
                proof {
                    assert(output_views(files@) =~= output_views(before).push(file@));
                }
            },
            Err(message) => {
                proof {
                    lemma_failure_stays(all, iter.index() + 1);
                }
                return Generation { files, failure: Some(message) };
            },
        }
    }
    proof {
        assert(all.take(all.len() as int) =~= all);
    }
    Generation { files, failure: None }
}

/// The calendar of a file, or what is said of a file that gives none.
pub fn input_calendar(file: InputFile) -> (res: Result<CalendarFile, String>)
    ensures
        match calendar_of_input(file@) {
            Ok(calendar) => res matches Ok(found) && found@ == calendar,
            Err(message) => res matches Err(found) && found@ == message,
        },
{
    match file.reading {
        FileReading::Unreadable(message) => Err(message),
        FileReading::NoCalendar(complaint) => files::calendar_of_file(
            file.path.as_str(),
            Err(complaint),
        ),
        FileReading::Calendar(calendar) => files::calendar_of_file(
            file.path.as_str(),
            Ok(calendar),
        ),
    }
}

/// Of the JSON files of a directory the calendar of each is rendered, where all of them give one,
/// in the ascending order of their names.
pub proof fn every_file_is_rendered(files: Seq<InputView>, i: int)
    requires
        0 <= i < files.len(),
        forall|j: int| 0 <= j < files.len() ==> output_of_input(#[trigger] files[j]) is Ok,
    ensures
        generation(files).failure is None,
        generation(files).files.len() == files.len(),
        output_of_input(sorted(files)[i]) == Ok::<_, Seq<char>>(generation(files).files[i]),
{
    broadcast use vstd::seq_lib::group_to_multiset_ensures;

    sorted_files_are_ordered(files);
    let order = sorted(files);
    let outcomes = order.map_values(|file: InputView| output_of_input(file));
    assert(order.len() == order.to_multiset().len());
    assert(files.len() == files.to_multiset().len());
    assert forall|j: int| 0 <= j < outcomes.len() implies (#[trigger] outcomes[j]) is Ok by {
        assert(order.to_multiset().contains(order[j]));
        assert(files.to_multiset().contains(order[j]));
        let k = choose|k: int| 0 <= k < files.len() && files[k] == order[j];
        assert(output_of_input(files[k]) is Ok);
    }
    lemma_no_failure(outcomes);
}

/// Generates the iCalendar files of the JSON files of a directory.
pub fn generate_all(files: Vec<InputFile>) -> (res: Generation)
    ensures
        res@ == generation(input_views(files@)),
{
    let files = sort_files(files);
    let ghost order = input_views(files@);
    let mut outcomes: Vec<Result<OutputFile, String>> = Vec::new();
    for file in iter: files
        invariant
            iter.seq() == files@,
            order == input_views(files@),
            outcomes@.len() == iter.index(),
            forall|j: int|
                0 <= j < iter.index() ==> output_outcome(#[trigger] outcomes@[j])
                    == output_of_input(order[j]),
    {
        proof {
            assert(order[iter.index() as int] == file@);
        }
        let path = file.path.clone();
        let outcome = match input_calendar(file) {
            Ok(calendar) => files::generated_file(path.as_str(), &calendar),
            Err(message) => Err(message),
        };
        outcomes.push(outcome);
    }
    proof {
        assert(output_outcomes(outcomes@) =~= order.map_values(
            |file: InputView| output_of_input(file),
        ));
    }
    stop_at_failure(outcomes)
}

// ---------------------------------------------------------------------------
// Export
// ---------------------------------------------------------------------------

/// The JSON files of exported calendars, in the order of the calendars.
pub open spec fn exports(list: Seq<ExportableView>) -> Seq<OutputFileView> {
    list.map_values(
        |item: ExportableView|
            OutputFileView {
                name: files::json_file_name(item.calendar.id),
                contents: item.json + "\n"@,
            },
    )
}

/// Every calendar is exported, in its place: under its identifier, its JSON text with a line feed
/// behind it.
pub proof fn every_calendar_is_exported(list: Seq<ExportableView>, i: int)
    requires
        0 <= i < list.len(),
    ensures
        exports(list).len() == list.len(),
        exports(list)[i].name == list[i].calendar.id + ".json"@,
        exports(list)[i].contents == list[i].json + "\n"@,
        exported_calendars(list).len() == list.len(),
        exported_calendars(list)[i] == list[i].calendar,
{
}

/// The JSON files of exported calendars.
pub fn exported_files(list: &Vec<Exportable>) -> (res: Vec<OutputFile>)
    ensures
        output_views(res@) == exports(exportable_views(list@)),
{
    let mut out: Vec<OutputFile> = Vec::new();
    for i in 0..list.len()
        invariant
            out@.len() == i,
            forall|j: int|
                0 <= j < i ==> (#[trigger] out@[j])@ == exports(exportable_views(list@))[j],
    {
        out.push(files::exported_file(&list[i].calendar, &list[i].json));
    }
    proof {
        assert(output_views(out@) =~= exports(exportable_views(list@)));
    }
    out
}

/// A file is the export of a calendar, and the calendar was read from it.
pub open spec fn is_export(file: InputView, calendar: CalendarView) -> bool {
    &&& file.name == files::json_file_name(calendar.id)
    &&& file.reading == FileReadingView::Calendar(calendar)
}

/// A directory's JSON files, in any order, are the exports of some calendars.
pub open spec fn are_exports(files: Seq<InputView>, calendars: Seq<CalendarView>) -> bool {
    &&& forall|i: int|
        0 <= i < files.len() ==> exists|k: int|
            0 <= k < calendars.len() && is_export(#[trigger] files[i], #[trigger] calendars[k])
    &&& forall|k: int|
        0 <= k < calendars.len() ==> exists|i: int|
            0 <= i < files.len() && is_export(#[trigger] files[i], #[trigger] calendars[k])
    &&& forall|i: int, j: int|
        0 <= i < j < files.len() ==> (#[trigger] files[i]).name != (#[trigger] files[j]).name
}

/// Files are the renderings of calendars, one by one.
pub open spec fn are_renderings(files: Seq<OutputFileView>, calendars: Seq<CalendarView>) -> bool {
    &&& files.len() == calendars.len()
    &&& forall|i: int|
        0 <= i < files.len() ==> #[trigger] files[i] == (OutputFileView {
            name: files::ics_file_name(calendars[i].id),
            contents: render::rendered(
                calendars[i],
                validate::calendar_readings(calendars[i]),
            ),
        })
}

/// Calendars in the ascending order of the names of their JSON files.
pub open spec fn in_file_order(calendars: Seq<CalendarView>) -> bool {
    forall|i: int, j: int|
        0 <= i < j < calendars.len() ==> text::text_before(
            files::json_file_name((#[trigger] calendars[i]).id),
            files::json_file_name((#[trigger] calendars[j]).id),
        )
}

/// No two calendars of a list have the same identifier.
pub open spec fn distinct_calendars(calendars: Seq<CalendarView>) -> bool {
    forall|i: int, j: int|
        0 <= i < j < calendars.len() ==> (#[trigger] calendars[i]).id != (
        #[trigger] calendars[j]).id
}

/// All calendars of a list are valid.
pub open spec fn valid_calendars(calendars: Seq<CalendarView>) -> bool {
    forall|k: int| 0 <= k < calendars.len() ==> validate::valid_calendar(#[trigger] calendars[k])
}

/// From the JSON files of a directory the rendering of each of some calendars is generated,
/// once, in the ascending order of the names of their JSON files, and nothing goes wrong.
pub open spec fn generates_each(files: Seq<InputView>, calendars: Seq<CalendarView>) -> bool {
    &&& generation(files).failure is None
    &&& exists|order: Seq<CalendarView>|
        {
            &&& #[trigger] in_file_order(order)
            &&& order.to_multiset() == calendars.to_multiset()
            &&& are_renderings(generation(files).files, order)
        }
}

/// The calendars of a list of calendars to export.
pub open spec fn exported_calendars(list: Seq<ExportableView>) -> Seq<CalendarView> {
    list.map_values(|item: ExportableView| item.calendar)
}

proof fn lemma_no_failure(outcomes: Seq<Result<OutputFileView, Seq<char>>>)
    requires
        forall|i: int| 0 <= i < outcomes.len() ==> (#[trigger] outcomes[i]) is Ok,
    ensures
        until_failure(outcomes).failure is None,
        until_failure(outcomes).files.len() == outcomes.len(),
        forall|i: int|
            0 <= i < outcomes.len() ==> outcomes[i] == Ok::<_, Seq<char>>(
                #[trigger] until_failure(outcomes).files[i],
            ),
    decreases outcomes.len(),
{
    if outcomes.len() > 0 {
        let rest = outcomes.drop_last();
        assert(forall|i: int| 0 <= i < rest.len() ==> #[trigger] rest[i] == outcomes[i]);
        lemma_no_failure(rest);
        assert(outcomes.last() == outcomes[outcomes.len() - 1]);
        assert forall|i: int| 0 <= i < outcomes.len() implies outcomes[i] == Ok::<_, Seq<char>>(
            #[trigger] until_failure(outcomes).files[i],
        ) by {
            if i < rest.len() {
                assert(rest[i] == outcomes[i]);
                assert(until_failure(outcomes).files[i] == until_failure(rest).files[i]);
            }
        }
    }
}

/// From the exports of valid calendars with different identifiers, and no other JSON file, the
/// rendering of each of these calendars is generated, once, in the ascending order of the names
/// of their JSON files.
pub proof fn exported_calendars_are_generated(
    calendars: Seq<CalendarView>,
    files: Seq<InputView>,
)
    requires
        are_exports(files, calendars),
        distinct_calendars(calendars),
        valid_calendars(calendars),
    ensures
        generates_each(files, calendars),
{
    broadcast use vstd::seq_lib::group_to_multiset_ensures;

    let listed = sorted(files);
    sorted_files_are_ordered(files);
    assert(files.no_duplicates());
    files.lemma_multiset_has_no_duplicates();
    listed.lemma_multiset_has_no_duplicates_conv();
    let order = listed.map_values(|file: InputView| file.reading->Calendar_0);
    assert forall|i: int| 0 <= i < listed.len() implies files.contains(#[trigger] listed[i])
        && is_export(listed[i], order[i]) && calendars.contains(order[i]) by {
        assert(listed.to_multiset().contains(listed[i]));
        assert(files.to_multiset().contains(listed[i]));
        let a = choose|a: int| 0 <= a < files.len() && files[a] == listed[i];
        let k = choose|k: int|
            0 <= k < calendars.len() && is_export(files[a], #[trigger] calendars[k]);
        assert(order[i] == calendars[k]);
    }
    assert forall|i: int, j: int| 0 <= i < j < order.len() implies text::text_before(
        files::json_file_name((#[trigger] order[i]).id),
        files::json_file_name((#[trigger] order[j]).id),
    ) by {
        assert(files.contains(listed[i]) && files.contains(listed[j]));
        let a = choose|a: int| 0 <= a < files.len() && files[a] == listed[i];
        let b = choose|b: int| 0 <= b < files.len() && files[b] == listed[j];
        assert(listed[i] != listed[j]);
        assert(files[a].name != files[b].name);
        assert(!text::text_before(listed[j].name, listed[i].name));
        text::text_order_is_total(listed[i].name, listed[j].name);
    }
    lemma_same_calendars(calendars, files, listed, order);
    let outcomes = listed.map_values(|file: InputView| output_of_input(file));
    assert forall|i: int| 0 <= i < outcomes.len() implies (#[trigger] outcomes[i]) is Ok by {
        assert(is_export(listed[i], order[i]) && calendars.contains(order[i]));
        let k = choose|k: int| 0 <= k < calendars.len() && calendars[k] == order[i];
        assert(validate::valid_calendar(calendars[k]));
    }
    lemma_no_failure(outcomes);
    let made = generation(files).files;
    assert forall|i: int| 0 <= i < made.len() implies #[trigger] made[i] == (OutputFileView {
        name: files::ics_file_name(order[i].id),
        contents: render::rendered(order[i], validate::calendar_readings(order[i])),
    }) by {
        assert(outcomes[i] == Ok::<_, Seq<char>>(made[i]));
        assert(is_export(listed[i], order[i]));
    }
    assert(are_renderings(made, order));
    assert(in_file_order(order));
}

proof fn lemma_same_calendars(
    calendars: Seq<CalendarView>,
    files: Seq<InputView>,
    listed: Seq<InputView>,
    order: Seq<CalendarView>,
)
    requires
        are_exports(files, calendars),
        distinct_calendars(calendars),
        listed.to_multiset() == files.to_multiset(),
        order == listed.map_values(|file: InputView| file.reading->Calendar_0),
        in_file_order(order),
        forall|i: int| 0 <= i < order.len() ==> calendars.contains(#[trigger] order[i]),
    ensures
        order.to_multiset() == calendars.to_multiset(),
{
    broadcast use vstd::seq_lib::group_to_multiset_ensures;

    assert forall|i: int, j: int| 0 <= i < j < order.len() implies order[i] != order[j] by {
        text::text_not_before_itself(files::json_file_name(order[i].id));
    }
    assert(order.no_duplicates());
    assert(calendars.no_duplicates());
    order.lemma_multiset_has_no_duplicates();
    calendars.lemma_multiset_has_no_duplicates();
    let a = order.to_multiset();
    let b = calendars.to_multiset();
    assert forall|calendar: CalendarView| #[trigger] a.count(calendar) == b.count(calendar) by {
        if calendars.contains(calendar) {
            let k = choose|k: int| 0 <= k < calendars.len() && calendars[k] == calendar;
            let i = choose|i: int|
                0 <= i < files.len() && is_export(#[trigger] files[i], calendars[k]);
            assert(files.to_multiset().contains(files[i]));
            assert(listed.to_multiset().contains(files[i]));
            let n = choose|n: int| 0 <= n < listed.len() && listed[n] == files[i];
            assert(order[n] == calendar);
            assert(order.contains(calendar));
        }
        if order.contains(calendar) {
            let i = choose|i: int| 0 <= i < order.len() && order[i] == calendar;
            assert(calendars.contains(order[i]));
        }
    }
    assert(a =~= b);
}

} // verus!
