//! Settings from a `.env` file and from the environment of the process.

use vstd::hash_map::StringHashMap;
use vstd::prelude::*;

use crate::text;

verus! {

/// A variable of the environment of the process.
#[derive(Debug)]
pub struct Variable {
    pub name: String,
    pub value: String,
}

/// The model of a [`Variable`].
#[verifier::ext_equal]
pub struct VariableView {
    pub name: Seq<char>,
    pub value: Seq<char>,
}

impl View for Variable {
    type V = VariableView;

    open spec fn view(&self) -> VariableView {
        VariableView { name: self.name@, value: self.value@ }
    }
}

/// The models of the variables in a list.
pub open spec fn variable_views(variables: Seq<Variable>) -> Seq<VariableView> {
    variables.map_values(|variable: Variable| variable@)
}

/// The models of variables show their names and values.
pub proof fn variable_models_show_everything(variables: Seq<Variable>)
    ensures
        variable_views(variables).len() == variables.len(),
        forall|i: int|
            0 <= i < variables.len() ==> (#[trigger] variable_views(variables)[i]).name
                == variables[i].name@ && variable_views(variables)[i].value == variables[i].value@,
{
}

// ---------------------------------------------------------------------------
// The file
// ---------------------------------------------------------------------------

/// The lines of a text, without the line feeds between them.
pub open spec fn lines(s: Seq<char>) -> Seq<Seq<char>>
    decreases s.len(),
{
    match text::first_position(s, '\n') {
        Some(p) => {
            proof {
                text::first_position_is_first(s, '\n');
            }
            seq![s.take(p)] + lines(s.skip(p + 1))
        },
        None => seq![s],
    }
}

/// A value without the quotes around it, if the same kind stands at both ends.
pub open spec fn unquoted(value: Seq<char>) -> Seq<char> {
    if value.len() >= 2 && ((value[0] == '"' && value.last() == '"') || (value[0] == '\''
        && value.last() == '\'')) {
        value.subrange(1, value.len() - 1)
    } else {
        value
    }
}

/// A line without the word `export ` at its beginning.
pub open spec fn without_export(line: Seq<char>) -> Seq<char> {
    if text::has_prefix(line, "export "@) {
        line.skip(7)
    } else {
        line
    }
}

/// The key and the value of an assignment: nothing where there is no equals sign or no key.
pub open spec fn assignment(line: Seq<char>) -> Option<(Seq<char>, Seq<char>)> {
    match text::first_position(line, '=') {
        None => None,
        Some(p) => {
            let key = text::trimmed(line.take(p));
            if key.len() == 0 {
                None
            } else {
                Some((key, unquoted(text::trimmed(line.skip(p + 1)))))
            }
        },
    }
}

/// The key and the value that a line sets: nothing where it is blank or a comment.
pub open spec fn entry(line: Seq<char>) -> Option<(Seq<char>, Seq<char>)> {
    let line = text::trimmed(line);
    if line.len() == 0 || line[0] == '#' {
        None
    } else {
        assignment(without_export(line))
    }
}

/// The values that lines set: of several for one key, the last one.
pub open spec fn entries(lines: Seq<Seq<char>>) -> Map<Seq<char>, Seq<char>>
    decreases lines.len(),
{
    if lines.len() == 0 {
        Map::empty()
    } else {
        let before = entries(lines.drop_last());
        match entry(lines.last()) {
            Some((key, value)) => before.insert(key, value),
            None => before,
        }
    }
}

/// The texts of a map.
pub open spec fn value_texts(values: Map<Seq<char>, String>) -> Map<Seq<char>, Seq<char>> {
    values.map_values(|value: String| value@)
}

/// The lines of a text hold no line feed, and with line feeds between them make up the text.
pub proof fn lines_make_up_the_text(s: Seq<char>)
    ensures
        lines(s).len() > 0,
        forall|i: int|
            0 <= i < lines(s).len() ==> text::first_position(#[trigger] lines(s)[i], '\n') is None,
        text::joined(lines(s), seq!['\n']) == s,
    decreases s.len(),
{
    text::first_position_is_first(s, '\n');
    if let Some(p) = text::first_position(s, '\n') {
        let first = s.take(p);
        let rest = lines(s.skip(p + 1));
        lines_make_up_the_text(s.skip(p + 1));
        text::first_position_is_first(first, '\n');
        assert(forall|i: int| 0 <= i < p ==> first[i] == s[i]);
        assert(lines(s) =~= seq![first] + rest);
        assert(lines(s).drop_first() =~= rest);
        assert forall|i: int| 0 <= i < lines(s).len() implies text::first_position(
            #[trigger] lines(s)[i],
            '\n',
        ) is None by {
            if i > 0 {
                assert(lines(s)[i] == rest[i - 1]);
            }
        }
        assert(first + seq!['\n'] + s.skip(p + 1) =~= s);
    }
}

/// The texts of a map are those of its values.
pub proof fn value_texts_are_those_of_the_values(values: Map<Seq<char>, String>, key: Seq<char>)
    ensures
        value_texts(values).contains_key(key) <==> values.contains_key(key),
        values.contains_key(key) ==> value_texts(values)[key] == values[key]@,
        looked_up(value_texts(values), key) == (if values.contains_key(key) {
            Some(values[key]@)
        } else {
            None
        }),
{
}

/// A value between two quotes of the same kind is read without them.
pub proof fn quotes_are_undone(value: Seq<char>, quote: char)
    requires
        quote == '"' || quote == '\'',
    ensures
        unquoted(seq![quote] + value + seq![quote]) == value,
{
    let quoted = seq![quote] + value + seq![quote];
    assert(quoted.subrange(1, quoted.len() - 1) =~= value);
}

/// A value without the same quote at both ends is left as it is.
pub proof fn other_values_keep_their_quotes(value: Seq<char>)
    requires
        value.len() < 2 || value[0] != value.last() || (value[0] != '"' && value[0] != '\''),
    ensures
        unquoted(value) == value,
{
}

proof fn lemma_blank_has_no_equals(s: Seq<char>)
    requires
        text::blank(s),
    ensures
        !s.contains('='),
{
    assert forall|i: int| 0 <= i < s.len() implies s[i] != '=' by {
        assert(text::white_space(s[i]));
    }
}

proof fn lemma_assignment(
    before: Seq<char>,
    key: Seq<char>,
    after: Seq<char>,
    gap: Seq<char>,
    value: Seq<char>,
)
    requires
        text::blank(before) && text::blank(after) && text::blank(gap),
        key.len() > 0 && !text::white_space(key[0]) && !text::white_space(key.last()),
        !key.contains('='),
        value.len() > 0 ==> !text::white_space(value[0]) && !text::white_space(value.last()),
    ensures
        assignment(before + key + after + seq!['='] + gap + value) == Some(
            (key, unquoted(value)),
        ),
{
    let left = before + key + after;
    let line = left + seq!['='] + gap + value;
    let p = left.len() as int;
    lemma_blank_has_no_equals(before);
    lemma_blank_has_no_equals(after);
    text::first_position_is_first(line, '=');
    assert(line[p] == '=');
    assert forall|i: int| 0 <= i < p implies line[i] != '=' by {
        assert(line[i] == left[i]);
        if i < before.len() {
            assert(before.contains(before[i]));
        } else if i < before.len() + key.len() {
            assert(key.contains(key[i - before.len()]));
        } else {
            assert(after.contains(after[i - before.len() - key.len()]));
        }
    }
    assert(text::first_position(line, '=') == Some(p));
    assert(line.take(p) =~= left);
    assert(line.skip(p + 1) =~= gap + value + Seq::<char>::empty());
    text::outer_white_space_is_trimmed(before, key, after);
    text::text_without_outer_white_space_is_trimmed(key);
    text::outer_white_space_is_trimmed(gap, value, Seq::<char>::empty());
    text::text_without_outer_white_space_is_trimmed(value);
}

/// A line that assigns a value to a key sets the key to the value without its quotes, whatever
/// white space stands around the two, and whether or not the word `export` stands before them.
pub proof fn assignments_set_their_keys(
    before: Seq<char>,
    inner: Seq<char>,
    key: Seq<char>,
    after: Seq<char>,
    gap: Seq<char>,
    value: Seq<char>,
    end: Seq<char>,
)
    requires
        text::blank(before) && text::blank(inner) && text::blank(after) && text::blank(gap)
            && text::blank(end),
        key.len() > 0 && !text::white_space(key[0]) && !text::white_space(key.last()),
        !key.contains('='),
        value.len() > 0 ==> !text::white_space(value[0]) && !text::white_space(value.last()),
    ensures
        key[0] != '#' && !text::has_prefix(key + after + seq!['='], "export "@) ==> entry(
            before + (key + after + seq!['='] + gap + value) + end,
        ) == Some((key, unquoted(value))),
        entry(
            before + ("export "@ + (inner + key + after + seq!['='] + gap + value)) + end,
        ) == Some((key, unquoted(value))),
{
    reveal_strlit("export ");
    let none = Seq::<char>::empty();
    let plain = key + after + seq!['='] + gap + value;
    let exported = "export "@ + (inner + key + after + seq!['='] + gap + value);
    text::outer_white_space_is_trimmed(before, plain, end);
    text::outer_white_space_is_trimmed(before, exported, end);
    // Where the value is missing, the white space behind the equals sign is trimmed too.
    let head = key + after + seq!['='];
    let shown = if value.len() > 0 {
        plain
    } else {
        head
    };
    assert(shown[0] == key[0]);
    assert(shown.last() == if value.len() > 0 {
        value.last()
    } else {
        '='
    });
    text::text_without_outer_white_space_is_trimmed(shown);
    if value.len() == 0 {
        assert(plain =~= none + head + gap);
        text::outer_white_space_is_trimmed(none, head, gap);
    }
    assert(text::trimmed(plain) == shown);
    let kept_gap = if value.len() > 0 {
        gap
    } else {
        none
    };
    assert(shown =~= none + key + after + seq!['='] + kept_gap + value);
    lemma_assignment(none, key, after, kept_gap, value);
    if !text::has_prefix(head, "export "@) {
        if text::has_prefix(shown, "export "@) {
            assert(shown.take(head.len() as int) =~= head);
            lemma_prefix_stays(head, shown);
        }
        assert(without_export(shown) == shown);
    }
    let exported_head = "export "@ + (inner + head);
    let exported_shown = if value.len() > 0 {
        exported
    } else {
        exported_head
    };
    assert(exported_shown[0] == 'e');
    assert(exported_shown.last() == if value.len() > 0 {
        value.last()
    } else {
        '='
    });
    text::text_without_outer_white_space_is_trimmed(exported_shown);
    if value.len() == 0 {
        assert(exported =~= none + exported_head + gap);
        text::outer_white_space_is_trimmed(none, exported_head, gap);
    }
    assert(text::trimmed(exported) == exported_shown);
    assert(exported_shown.take(7) =~= "export "@);
    assert(exported_shown.skip(7) =~= inner + key + after + seq!['='] + kept_gap + value);
    lemma_assignment(inner, key, after, kept_gap, value);
}

proof fn lemma_prefix_stays(head: Seq<char>, whole: Seq<char>)
    requires
        head.len() > 0,
        head.last() == '=',
        head.len() <= whole.len(),
        whole.take(head.len() as int) == head,
        text::has_prefix(whole, "export "@),
    ensures
        text::has_prefix(head, "export "@),
{
    reveal_strlit("export ");
    if head.len() < 7 {
        let i = head.len() - 1;
        assert(whole.take(head.len() as int)[i] == '=');
        assert(whole.take(7)[i] == "export "@[i]);
        assert("export "@[i] != '=');
    } else {
        assert(head.take(7) =~= whole.take(7));
    }
}

/// A blank line, a comment, a line without an equals sign and one without a key set nothing.
pub proof fn other_lines_set_nothing(blank: Seq<char>, rest: Seq<char>, end: Seq<char>)
    requires
        text::blank(blank),
        text::blank(end),
    ensures
        entry(blank) is None,
        entry(blank + (seq!['#'] + rest) + end) is None,
        !rest.contains('=') ==> entry(rest) is None,
        entry(blank + (seq!['='] + rest) + end) is None,
{
    text::blank_iff_trimmed_empty(blank);
    let comment = seq!['#'] + rest;
    text::outer_white_space_is_trimmed(blank, comment, end);
    lemma_first_stays('#', rest);
    let assigned = seq!['='] + rest;
    text::outer_white_space_is_trimmed(blank, assigned, end);
    lemma_first_stays('=', rest);
    let line = text::trimmed(assigned);
    reveal_strlit("export ");
    if text::has_prefix(line, "export "@) {
        assert(line.take(7)[0] == 'e');
    }
    text::first_position_is_first(line, '=');
    assert(text::first_position(line, '=') == Some(0int));
    assert(line.take(0) =~= Seq::<char>::empty());
    text::blank_iff_trimmed_empty(line.take(0));
    if !rest.contains('=') {
        let shown = text::trimmed(rest);
        text::only_outer_white_space_is_trimmed(rest);
        let (before, after) = choose|before: Seq<char>, after: Seq<char>|
            #[trigger] text::blank(before) && #[trigger] text::blank(after) && rest == before
                + shown + after;
        let bare = without_export(shown);
        assert forall|i: int| 0 <= i < shown.len() implies shown[i] != '=' by {
            assert(rest[before.len() + i] == shown[i]);
        }
        text::first_position_is_first(bare, '=');
        assert forall|i: int| 0 <= i < bare.len() implies bare[i] != '=' by {
            if text::has_prefix(shown, "export "@) {
                assert(bare[i] == shown[i + 7]);
            }
        }
    }
}

proof fn lemma_first_stays(c: char, rest: Seq<char>)
    requires
        !text::white_space(c),
    ensures
        text::trimmed(seq![c] + rest).len() > 0,
        text::trimmed(seq![c] + rest)[0] == c,
{
    let s = seq![c] + rest;
    text::only_outer_white_space_is_trimmed(s);
    let (before, after) = choose|before: Seq<char>, after: Seq<char>|
        #[trigger] text::blank(before) && #[trigger] text::blank(after) && s == before
            + text::trimmed(s) + after;
    assert(s[0] == c);
    if before.len() > 0 {
        assert(before[0] == s[0]);
        assert(text::white_space(before[0]));
    }
    text::blank_iff_trimmed_empty(s);
    if text::blank(s) {
        assert(text::white_space(s[0]));
    }
    assert(s[0] == (before + text::trimmed(s) + after)[0]);
}

/// Without lines nothing is set.
pub proof fn no_lines_set_nothing()
    ensures
        entries(Seq::<Seq<char>>::empty()) == Map::<Seq<char>, Seq<char>>::empty(),
{
}

/// A later line that sets a key decides its value, and leaves all other keys alone.
pub proof fn last_entry_wins(lines: Seq<Seq<char>>, line: Seq<char>)
    ensures
        match entry(line) {
            Some((key, value)) => entries(lines.push(line)) == entries(lines).insert(key, value),
            None => entries(lines.push(line)) == entries(lines),
        },
{
    assert(lines.push(line).drop_last() =~= lines);
}

/// A value without the quotes around it.
pub fn strip_env_quotes(value: &str) -> (res: &str)
    ensures
        res@ == unquoted(value@),
{
    let n: usize = value.unicode_len();
    if n >= 2 {
        let first: char = value.get_char(0);
        let last: char = value.get_char(n - 1);
        if (first == '"' && last == '"') || (first == '\'' && last == '\'') {
            return value.substring_char(1, n - 1);
        }
    }
    value
}

/// The lines of a text.
pub fn split_lines(s: &str) -> (res: Vec<String>)
    ensures
        text::texts(res@) == lines(s@),
{
    let chars = text::chars_of(s);
    let mut out: Vec<String> = Vec::new();
    let mut from: usize = 0;
    let mut i: usize = 0;
    proof {
        assert(text::texts(out@) =~= Seq::<Seq<char>>::empty());
        assert(s@.skip(0) =~= s@);
        assert(text::texts(out@) + lines(s@) =~= lines(s@));
    }
    while i < chars.len()
        invariant
            chars@ == s@,
            from <= i <= chars@.len(),
            forall|j: int| from <= j < i ==> s@[j] != '\n',
            text::texts(out@) + lines(s@.skip(from as int)) == lines(s@),
        decreases chars@.len() - i,
    {
        if chars[i] == '\n' {
            let ghost rest = s@.skip(from as int);
            let ghost before = out@;
            proof {
                let p = i - from;
                text::first_position_is_first(rest, '\n');
                assert(rest[p] == '\n');
                assert(forall|j: int| 0 <= j < p ==> rest[j] == s@[from + j]);
                assert(text::first_position(rest, '\n') == Some(p));
                assert(rest.take(p) =~= s@.subrange(from as int, i as int));
                assert(rest.skip(p + 1) =~= s@.skip(i + 1));
            }
            out.push(text::text_of(&chars, from, i));
            proof {
                let line = s@.subrange(from as int, i as int);
                assert(text::texts(out@) =~= text::texts(before).push(line));
                assert(text::texts(before).push(line) + lines(s@.skip(i + 1)) =~= text::texts(
                    before,
                ) + (seq![line] + lines(s@.skip(i + 1))));
            }
            from = i + 1;
        }
        i = i + 1;
    }
    let ghost rest = s@.skip(from as int);
    let ghost before = out@;
    out.push(text::text_of(&chars, from, chars.len()));
    proof {
        text::first_position_is_first(rest, '\n');
        assert(forall|j: int| 0 <= j < rest.len() ==> rest[j] == s@[from + j]);
        assert(lines(rest) == seq![rest]);
        assert(s@.subrange(from as int, s@.len() as int) =~= rest);
        assert(text::texts(out@) =~= text::texts(before).push(rest));
        assert(text::texts(before).push(rest) =~= text::texts(before) + seq![rest]);
    }
    out
}

/// Reads the key and the value that a line sets.
pub fn read_entry(line: &str) -> (res: Option<(String, String)>)
    ensures
        match entry(line@) {
            Some((key, value)) => res matches Some((found_key, found_value)) && found_key@ == key
                && found_value@ == value,
            None => res is None,
        },
{
    let line = text::trim(line);
    if line.unicode_len() == 0 || line.get_char(0) == '#' {
        return None;
    }
    proof {
        reveal_strlit("export ");
    }
    let line = if text::starts_with(line, "export ") {
        let rest = line.substring_char(7, line.unicode_len());
        proof {
            assert(rest@ =~= line@.skip(7));
        }
        rest
    } else {
        line
    };
    let chars = text::chars_of(line);
    match text::find_first(&chars, '=') {
        None => None,
        Some(p) => {
            let left = line.substring_char(0, p);
            let right = line.substring_char(p + 1, chars.len());
            proof {
                assert(left@ =~= line@.take(p as int));
                assert(right@ =~= line@.skip(p + 1));
            }
            let key = text::trim(left);
            if key.unicode_len() == 0 {
                return None;
            }
            Some((key.to_string(), strip_env_quotes(text::trim(right)).to_string()))
        },
    }
}

/// Reads the values that the text of a `.env` file sets.
pub fn parse_env(file_text: &str) -> (res: StringHashMap<String>)
    ensures
        value_texts(res@) == entries(lines(file_text@)),
{
    let found = split_lines(file_text);
    let ghost all = lines(file_text@);
    let mut values: StringHashMap<String> = StringHashMap::new();
    proof {
        assert(value_texts(values@) =~= Map::<Seq<char>, Seq<char>>::empty());
    }
    for i in 0..found.len()
        invariant
            text::texts(found@) == all,
            value_texts(values@) == entries(all.take(i as int)),
    {
        proof {
            assert(all.take(i + 1).drop_last() =~= all.take(i as int));
            assert(all[i as int] == found@[i as int]@);
        }
        match read_entry(&found[i]) {
            Some((key, value)) => {
                let ghost before = values@;
                values.insert(key, value);
                proof {
                    assert(value_texts(values@) =~= value_texts(before).insert(key@, value@));
                }
            },
            None => {},
        }
    }
    proof {
        assert(all.take(all.len() as int) =~= all);
    }
    values
}

/// Reads the values of a `.env` file: none where the file could not be read.
pub fn read_env_file(file_text: Option<&str>) -> (res: StringHashMap<String>)
    ensures
        value_texts(res@) == match file_text {
            Some(file_text) => entries(lines(file_text@)),
            None => Map::empty(),
        },
{
    match file_text {
        Some(file_text) => parse_env(file_text),
        None => {
            let values: StringHashMap<String> = StringHashMap::new();
            proof {
                assert(value_texts(values@) =~= Map::<Seq<char>, Seq<char>>::empty());
            }
            values
        },
    }
}

// ---------------------------------------------------------------------------
// The settings
// ---------------------------------------------------------------------------

/// The value of a variable of the process, if there is one.
pub open spec fn variable(variables: Seq<VariableView>, name: Seq<char>) -> Option<Seq<char>>
    decreases variables.len(),
{
    if variables.len() == 0 {
        None
    } else if variables[0].name == name {
        Some(variables[0].value)
    } else {
        variable(variables.drop_first(), name)
    }
}

/// A value, unless it is blank.
pub open spec fn usable(value: Option<Seq<char>>) -> Option<Seq<char>> {
    match value {
        Some(value) => if text::blank(value) {
            None
        } else {
            Some(value)
        },
        None => None,
    }
}

/// The value of a key in a map, if there is one.
pub open spec fn looked_up(values: Map<Seq<char>, Seq<char>>, key: Seq<char>) -> Option<
    Seq<char>,
> {
    if values.contains_key(key) {
        Some(values[key])
    } else {
        None
    }
}

/// The setting of some keys: the first value that is not blank, of the keys in their order, the
/// one of the process before the one of the file; empty where there is none.
pub open spec fn setting(
    file_values: Map<Seq<char>, Seq<char>>,
    variables: Seq<VariableView>,
    keys: Seq<Seq<char>>,
) -> Seq<char>
    decreases keys.len(),
{
    if keys.len() == 0 {
        Seq::empty()
    } else {
        match usable(variable(variables, keys[0])) {
            Some(value) => value,
            None => match usable(looked_up(file_values, keys[0])) {
                Some(value) => value,
                None => setting(file_values, variables, keys.drop_first()),
            },
        }
    }
}

/// A setting is either empty or not blank.
pub proof fn setting_is_empty_or_usable(
    file_values: Map<Seq<char>, Seq<char>>,
    variables: Seq<VariableView>,
    keys: Seq<Seq<char>>,
)
    ensures
        setting(file_values, variables, keys).len() == 0 || !text::blank(
            setting(file_values, variables, keys),
        ),
    decreases keys.len(),
{
    if keys.len() > 0 {
        setting_is_empty_or_usable(file_values, variables, keys.drop_first());
    }
}

/// The value of a variable is that of the first one of its name.
pub proof fn the_first_variable_counts(variables: Seq<VariableView>, name: Seq<char>, k: int)
    requires
        0 <= k <= variables.len(),
        forall|i: int| 0 <= i < k ==> (#[trigger] variables[i]).name != name,
        k < variables.len() ==> variables[k].name == name,
    ensures
        k < variables.len() ==> variable(variables, name) == Some(variables[k].value),
        k == variables.len() ==> variable(variables, name) is None,
    decreases variables.len(),
{
    if variables.len() > 0 && k > 0 {
        let rest = variables.drop_first();
        assert(variables[0].name != name);
        assert forall|i: int| 0 <= i < k - 1 implies (#[trigger] rest[i]).name != name by {
            assert(rest[i] == variables[i + 1]);
        }
        the_first_variable_counts(rest, name, k - 1);
    }
}

/// Neither the process nor the file has a value for a key that is not blank.
pub open spec fn unset(
    file_values: Map<Seq<char>, Seq<char>>,
    variables: Seq<VariableView>,
    key: Seq<char>,
) -> bool {
    &&& variable(variables, key) matches Some(value) ==> text::trimmed(value).len() == 0
    &&& file_values.contains_key(key) ==> text::trimmed(file_values[key]).len() == 0
}

/// A setting is decided by the first key that has a value that is not blank, by the process and
/// else by the file. It is empty where no key has one.
pub proof fn the_first_value_decides(
    file_values: Map<Seq<char>, Seq<char>>,
    variables: Seq<VariableView>,
    keys: Seq<Seq<char>>,
    k: int,
)
    requires
        0 <= k <= keys.len(),
        forall|i: int| 0 <= i < k ==> unset(file_values, variables, #[trigger] keys[i]),
        k < keys.len() ==> !unset(file_values, variables, keys[k]),
    ensures
        k == keys.len() ==> setting(file_values, variables, keys).len() == 0,
        k < keys.len() ==> (match variable(variables, keys[k]) {
            Some(value) if text::trimmed(value).len() > 0 => setting(
                file_values,
                variables,
                keys,
            ) == value,
            _ => setting(file_values, variables, keys) == file_values[keys[k]],
        }),
    decreases keys.len(),
{
    if keys.len() > 0 {
        if let Some(value) = variable(variables, keys[0]) {
            text::blank_iff_trimmed_empty(value);
        }
        text::blank_iff_trimmed_empty(file_values[keys[0]]);
        if k > 0 {
            let rest = keys.drop_first();
            assert(unset(file_values, variables, keys[0]));
            assert forall|i: int| 0 <= i < k - 1 implies unset(
                file_values,
                variables,
                #[trigger] rest[i],
            ) by {
                assert(rest[i] == keys[i + 1]);
            }
            the_first_value_decides(file_values, variables, rest, k - 1);
        }
    }
}

/// The texts of a list of keys.
pub open spec fn key_texts(keys: Seq<&str>) -> Seq<Seq<char>> {
    keys.map_values(|key: &str| key@)
}

/// The value of a variable of the process.
pub fn process_value(variables: &Vec<Variable>, name: &str) -> (res: Option<String>)
    ensures
        match variable(variable_views(variables@), name@) {
            Some(value) => res matches Some(found) && found@ == value,
            None => res is None,
        },
{
    let ghost all = variable_views(variables@);
    proof {
        assert(all.skip(0) =~= all);
    }
    for i in 0..variables.len()
        invariant
            all == variable_views(variables@),
            variable(all, name@) == variable(all.skip(i as int), name@),
    {
        proof {
            assert(all.skip(i as int).drop_first() =~= all.skip(i + 1));
            assert(all.skip(i as int)[0] == variables@[i as int]@);
        }
        if text::same_text(&variables[i].name, name) {
            return Some(variables[i].value.clone());
        }
    }
    None
}

/// The setting of some keys.
pub fn env_value(
    file_values: &StringHashMap<String>,
    variables: &Vec<Variable>,
    keys: &[&str],
) -> (res: String)
    ensures
        res@ == setting(
            value_texts(file_values@),
            variable_views(variables@),
            key_texts(keys@),
        ),
{
    let ghost all = key_texts(keys@);
    let ghost file = value_texts(file_values@);
    let ghost process = variable_views(variables@);
    proof {
        assert(all.skip(0) =~= all);
    }
    for i in 0..keys.len()
        invariant
            all == key_texts(keys@),
            file == value_texts(file_values@),
            process == variable_views(variables@),
            setting(file, process, all) == setting(file, process, all.skip(i as int)),
    {
        let key: &str = keys[i];
        proof {
            assert(all.skip(i as int).drop_first() =~= all.skip(i + 1));
            assert(all.skip(i as int)[0] == key@);
        }
        match process_value(variables, key) {
            Some(value) => {
                if !text::is_blank(&value) {
                    return value;
                }
            },
            None => {},
        }
        match file_values.get(key) {
            Some(value) => {
                if !text::is_blank(value) {
                    return value.clone();
                }
            },
            None => {},
        }
    }
    String::new()
}

/// The defaults for the service that extracts events.
#[derive(Debug)]
pub struct AiDefaults {
    pub base_url: String,
    pub model: String,
    pub api_key: String,
}

impl Clone for AiDefaults {
    fn clone(&self) -> (res: Self)
        ensures
            res.base_url@ == self.base_url@,
            res.model@ == self.model@,
            res.api_key@ == self.api_key@,
    {
        AiDefaults {
            base_url: self.base_url.clone(),
            model: self.model.clone(),
            api_key: self.api_key.clone(),
        }
    }
}

/// The defaults that a `.env` file, if it could be read, and the environment of the process
/// give.
pub fn load_ai_defaults(file_text: Option<&str>, variables: &Vec<Variable>) -> (res: AiDefaults)
    ensures
        ({
            let file = match file_text {
                Some(file_text) => entries(lines(file_text@)),
                None => Map::empty(),
            };
            let process = variable_views(variables@);
            &&& res.base_url@ == setting(
                file,
                process,
                seq!["AI_BASE_URL"@, "OPENAI_BASE_URL"@],
            )
            &&& res.model@ == setting(file, process, seq!["AI_MODEL"@, "OPENAI_MODEL"@])
            &&& res.api_key@ == setting(file, process, seq!["AI_API_KEY"@, "OPENAI_API_KEY"@])
        }),
{
    let file_values = read_env_file(file_text);
    let base_url_keys: [&str; 2] = ["AI_BASE_URL", "OPENAI_BASE_URL"];
    let model_keys: [&str; 2] = ["AI_MODEL", "OPENAI_MODEL"];
    let api_key_keys: [&str; 2] = ["AI_API_KEY", "OPENAI_API_KEY"];
    proof {
        assert(key_texts(base_url_keys@) =~= seq!["AI_BASE_URL"@, "OPENAI_BASE_URL"@]);
        assert(key_texts(model_keys@) =~= seq!["AI_MODEL"@, "OPENAI_MODEL"@]);
        assert(key_texts(api_key_keys@) =~= seq!["AI_API_KEY"@, "OPENAI_API_KEY"@]);
    }
    AiDefaults {
        base_url: env_value(&file_values, variables, &base_url_keys),
        model: env_value(&file_values, variables, &model_keys),
        api_key: env_value(&file_values, variables, &api_key_keys),
    }
}

} // verus!
