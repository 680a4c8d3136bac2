//! Calendar files: their names and contents.

use vstd::prelude::*;

use crate::model::{CalendarFile, CalendarView};
use crate::render;
use crate::text;
use crate::validate;

verus! {

/// A file to write.
#[derive(Debug)]
pub struct OutputFile {
    pub name: String,
    pub contents: String,
}

/// The model of an [`OutputFile`].
#[verifier::ext_equal]
pub struct OutputFileView {
    pub name: Seq<char>,
    pub contents: Seq<char>,
}

impl View for OutputFile {
    type V = OutputFileView;

    open spec fn view(&self) -> OutputFileView {
        OutputFileView { name: self.name@, contents: self.contents@ }
    }
}

/// The model of a file shows its name and its contents.
pub proof fn file_models_show_everything(file: OutputFile)
    ensures
        file@.name == file.name@,
        file@.contents == file.contents@,
{
}

/// A file name with the ending of JSON files and something before it.
pub open spec fn json_name(name: Seq<char>) -> bool {
    text::has_suffix(name, ".json"@) && name.len() > 5
}

/// Whether a file name is one of a JSON file.
pub fn is_json_file(name: &str) -> (res: bool)
    ensures
        res == json_name(name@),
{
    text::ends_with(name, ".json") && name.unicode_len() > 5
}

/// The file name of a calendar in JSON.
pub open spec fn json_file_name(id: Seq<char>) -> Seq<char> {
    id + ".json"@
}

/// The file name of a calendar in iCalendar format.
pub open spec fn ics_file_name(id: Seq<char>) -> Seq<char> {
    id + ".ics"@
}

/// A file name is one of a JSON file exactly when it is some characters and `.json` behind them.
pub proof fn json_names_end_with_json(name: Seq<char>)
    ensures
        json_name(name) <==> exists|stem: Seq<char>|
            stem.len() > 0 && #[trigger] (stem + ".json"@) == name,
{
    reveal_strlit(".json");
    text::suffix_is_what_stands_behind(name, ".json"@);
    if json_name(name) {
        let stem = choose|stem: Seq<char>| #[trigger] (stem + ".json"@) == name;
        assert(stem.len() > 0);
        assert(stem + ".json"@ == name);
    }
}

/// The file names of a calendar are its identifier and the ending of their format.
pub proof fn file_names_are_identifiers_with_an_ending(id: Seq<char>)
    ensures
        json_file_name(id).len() == id.len() + 5,
        json_file_name(id).take(id.len() as int) == id,
        json_file_name(id).skip(id.len() as int) == ".json"@,
        ics_file_name(id).len() == id.len() + 4,
        ics_file_name(id).take(id.len() as int) == id,
        ics_file_name(id).skip(id.len() as int) == ".ics"@,
{
    reveal_strlit(".json");
    reveal_strlit(".ics");
    assert(json_file_name(id).take(id.len() as int) =~= id);
    assert(json_file_name(id).skip(id.len() as int) =~= ".json"@);
    assert(ics_file_name(id).take(id.len() as int) =~= id);
    assert(ics_file_name(id).skip(id.len() as int) =~= ".ics"@);
}

/// The file of an exported calendar whose JSON text is given.
pub fn exported_file(calendar: &CalendarFile, json: &str) -> (res: OutputFile)
    ensures
        res@ == (OutputFileView {
            name: json_file_name(calendar@.id),
            contents: json@ + "\n"@,
        }),
{
    OutputFile {
        name: calendar.id.clone().concat(".json"),
        contents: json.to_string().concat("\n"),
    }
}

/// The complaint about a file that holds no calendar.
pub open spec fn invalid_json_error(path: Seq<char>, complaint: Seq<char>) -> Seq<char> {
    path + ": invalid JSON: "@ + complaint
}

/// Takes the calendar that was read from a file, or says that there was none.
pub fn calendar_of_file(path: &str, read: Result<CalendarFile, String>) -> (res: Result<
    CalendarFile,
    String,
>)
    ensures
        match read {
            Ok(calendar) => res == Ok::<CalendarFile, String>(calendar),
            Err(complaint) => res matches Err(message) && message@ == invalid_json_error(
                path@,
                complaint@,
            ),
        },
{
    match read {
        Ok(calendar) => Ok(calendar),
        Err(complaint) => Err(
            path.to_string().concat(": invalid JSON: ").concat(complaint.as_str()),
        ),
    }
}

/// The result of generating the file of a calendar that stands in a file at the given path, of
/// whose dates and times these were read.
pub open spec fn generated(
    res: Result<OutputFile, String>,
    path: Seq<char>,
    calendar: CalendarView,
    readings: validate::ReadingsView,
) -> bool {
    match validate::calendar_defect(calendar, readings) {
        Some(message) => res matches Err(found) && found@ == path + ": "@ + message,
        None => res matches Ok(file) && file@ == (OutputFileView {
            name: ics_file_name(calendar.id),
            contents: render::rendered(calendar, readings),
        }),
    }
}

/// What is generated is the rendering under the calendar's name, or the complaint about the
/// calendar behind the path of its file.
pub proof fn generated_files_are_renderings(
    res: Result<OutputFile, String>,
    path: Seq<char>,
    calendar: CalendarView,
    readings: validate::ReadingsView,
)
    requires
        generated(res, path, calendar, readings),
    ensures
        res is Ok <==> validate::calendar_defect(calendar, readings) is None,
        res matches Ok(file) ==> file.name@ == calendar.id + ".ics"@ && file.contents@
            == render::rendered(calendar, readings),
        res matches Err(message) ==> message@ == path + ": "@ + validate::calendar_defect(
            calendar,
            readings,
        )->0,
{
}

/// Renders a calendar that stands in a file at the given path.
///
/// The first clause speaks of whatever chrono reads from the calendar's dates and times; the
/// second one of a calendar that gives them all in the documented notation.
pub fn generated_file(path: &str, calendar: &CalendarFile) -> (res: Result<OutputFile, String>)
    ensures
        generated(res, path@, calendar@, validate::calendar_readings(calendar@)),
        forall|readings: validate::ReadingsView| #[trigger]
            readings.written(calendar@) ==> generated(res, path@, calendar@, readings),
{
    match validate::validate_calendar(calendar) {
        Ok(()) => {},
        Err(message) => return Err(path.to_string().concat(": ").concat(message.as_str())),
    }
    match render::render_calendar(calendar) {
        Ok(contents) => Ok(OutputFile { name: calendar.id.clone().concat(".ics"), contents }),
        Err(message) => Err(message),
    }
}

/// The file names of a valid calendar hold only letters, digits and the characters `-`, `_` and
/// `.`, so that a file is written to the directory that it is meant for.
pub proof fn valid_calendars_have_plain_file_names(
    calendar: CalendarView,
    readings: validate::ReadingsView,
)
    requires
        validate::calendar_defect(calendar, readings) is None,
    ensures
        forall|i: int|
            0 <= i < json_file_name(calendar.id).len() ==> validate::token_char(
                #[trigger] json_file_name(calendar.id)[i],
            ),
        forall|i: int|
            0 <= i < ics_file_name(calendar.id).len() ==> validate::token_char(
                #[trigger] ics_file_name(calendar.id)[i],
            ),
{
    let id = calendar.id;
    reveal_strlit(".json");
    reveal_strlit(".ics");
    assert forall|i: int| 0 <= i < json_file_name(id).len() implies validate::token_char(
        #[trigger] json_file_name(id)[i],
    ) by {
        if i < id.len() {
            assert(json_file_name(id)[i] == id[i]);
        }
    }
    assert forall|i: int| 0 <= i < ics_file_name(id).len() implies validate::token_char(
        #[trigger] ics_file_name(id)[i],
    ) by {
        if i < id.len() {
            assert(ics_file_name(id)[i] == id[i]);
        }
    }
}

/// Exported calendars are found again as JSON files.
pub proof fn exported_files_are_json_files(calendar: CalendarView, readings: validate::ReadingsView)
    requires
        validate::calendar_defect(calendar, readings) is None,
    ensures
        json_name(json_file_name(calendar.id)),
{
    reveal_strlit(".json");
    let name = json_file_name(calendar.id);
    assert(calendar.id.len() > 0);
    assert(name.skip(name.len() - 5) =~= ".json"@);
}

} // verus!
