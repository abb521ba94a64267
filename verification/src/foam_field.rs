//! Field files as they are written.

use crate::checks;
use crate::error::{Failure, MeshError};
use crate::json;
use crate::layout;
use crate::layout::TextList;
use crate::text;
use crate::text::CharClass;
use vstd::prelude::*;

verus! {

/// A value on a patch, as it is written. Numbers are given by their notation.
#[derive(Debug)]
pub enum OutputValue {
    Uniform(String),
    NonUniform { value_type: Option<String>, count: Option<usize>, values: Option<Vec<String>> },
    Other(String),
}

/// A patch, as it is written.
#[derive(Debug)]
pub struct OutputPatch {
    pub name: String,
    pub patch_type: Option<String>,
    pub inlet_value: Option<OutputValue>,
    pub value: Option<OutputValue>,
}

/// A field, as it is written.
#[derive(Debug)]
pub struct OutputField {
    pub class_name: Option<String>,
    pub dimensions: Option<Vec<String>>,
    pub boundary_patches: Vec<OutputPatch>,
}

/// A character inside quotes.
pub open spec fn escaped_char(ch: char) -> Seq<char> {
    if ch == '\\' {
        seq!['\\', '\\']
    } else if ch == '"' {
        seq!['\\', '"']
    } else {
        seq![ch]
    }
}

/// A text inside quotes: backslashes and quotes stand behind a backslash.
pub open spec fn escaped(s: Seq<char>) -> Seq<char>
    decreases s.len(),
{
    if s.len() == 0 {
        Seq::empty()
    } else {
        escaped(s.drop_last()) + escaped_char(s.last())
    }
}

/// What a text inside quotes stands for: a character behind a backslash
/// stands for itself.
pub open spec fn unescaped(s: Seq<char>) -> Seq<char>
    decreases s.len(),
{
    if s.len() == 0 {
        Seq::empty()
    } else if s[0] == '\\' && s.len() > 1 {
        seq![s[1]] + unescaped(s.skip(2))
    } else {
        seq![s[0]] + unescaped(s.skip(1))
    }
}

proof fn lemma_escaped_front(ch: char, rest: Seq<char>)
    ensures
        escaped(seq![ch] + rest) == escaped_char(ch) + escaped(rest),
    decreases rest.len(),
{
    let all = seq![ch] + rest;
    if rest.len() == 0 {
        assert(all.drop_last() =~= Seq::<char>::empty());
        assert(all.last() == ch);
        assert(escaped(all.drop_last()) == Seq::<char>::empty());
        assert(escaped(rest) == Seq::<char>::empty());
        assert(escaped(all) =~= escaped_char(ch) + escaped(rest));
    } else {
        assert(all.drop_last() =~= seq![ch] + rest.drop_last());
        lemma_escaped_front(ch, rest.drop_last());
        assert(escaped(all) =~= escaped_char(ch) + escaped(rest));
    }
}

/// What a text inside quotes stands for is the text that was put there.
pub proof fn unescaped_reads_escaped(s: Seq<char>)
    ensures
        unescaped(escaped(s)) == s,
    decreases s.len(),
{
    if s.len() > 0 {
        let rest = s.skip(1);
        assert(s =~= seq![s[0]] + rest);
        lemma_escaped_front(s[0], rest);
        unescaped_reads_escaped(rest);
        let out = escaped(s);
        if s[0] == '\\' || s[0] == '"' {
            assert(out.skip(2) =~= escaped(rest));
        } else {
            assert(out.skip(1) =~= escaped(rest));
        }
        assert(unescaped(out) =~= seq![s[0]] + unescaped(escaped(rest)));
    }
}

/// A text inside quotes: backslashes and quotes stand behind a backslash.
pub fn escape_openfoam_string(value: &str) -> (out: String)
    ensures
        out@ == escaped(value@),
{
    let chars = text::chars_of(value);
    let mut out = String::new();
    let mut i: usize = 0;
    assert(chars@.take(0) =~= Seq::empty());
    while i < chars.len()
        invariant
            i <= chars@.len(),
            out@ == escaped(chars@.take(i as int)),
        decreases chars@.len() - i,
    {
        assert(chars@.take(i + 1).drop_last() =~= chars@.take(i as int));
        let ghost before = out@;
        if chars[i] == '\\' || chars[i] == '"' {
            out.push('\\');
        }
        out.push(chars[i]);
        assert(out@ =~= before + escaped_char(chars@[i as int]));
        i += 1;
    }
    assert(chars@.take(i as int) =~= chars@);
    out
}

/// How many numbers an item of a list is made of.
pub open spec fn list_components(value_type: Seq<char>) -> Option<nat> {
    if value_type == "List<scalar>"@ || value_type == "scalarField"@ || value_type
        == "Field<scalar>"@ {
        Some(1)
    } else if value_type == "List<vector>"@ || value_type == "vectorField"@ || value_type
        == "Field<vector>"@ {
        Some(3)
    } else {
        None
    }
}

/// How many numbers an item of a list is made of.
pub fn openfoam_nonuniform_components(value_type: &str) -> (count: Option<usize>)
    ensures
        match count {
            Some(found) => list_components(value_type@) == Some(found as nat),
            None => list_components(value_type@) is None,
        },
{
    if text::text_eq(value_type, "List<scalar>") || text::text_eq(value_type, "scalarField")
        || text::text_eq(value_type, "Field<scalar>") {
        Some(1)
    } else if text::text_eq(value_type, "List<vector>") || text::text_eq(value_type, "vectorField")
        || text::text_eq(value_type, "Field<vector>") {
        Some(3)
    } else {
        None
    }
}

/// The file header.
pub open spec fn header_lines(class_name: Seq<char>, location: Seq<char>, object: Seq<char>) -> Seq<
    Seq<char>,
> {
    Seq::empty().push("FoamFile"@).push("{"@).push("    version 2.0;"@).push(
        "    format ascii;"@,
    ).push("    class "@ + class_name + ";"@).push(
        "    location \""@ + escaped(location) + "\";"@,
    ).push("    object "@ + object + ";"@).push("}"@)
}

/// The dimensions, or `fallback` where none are given.
pub open spec fn dimensions_line(dimensions: Option<Vec<String>>, fallback: Seq<char>) -> Seq<
    char,
> {
    let inner = match dimensions {
        Some(values) => if values@.len() > 0 {
            text::join(text::texts(values@), " "@)
        } else {
            fallback
        },
        None => fallback,
    };
    "dimensions ["@ + inner + "];"@
}

/// A line behind blanks.
pub open spec fn indented(indent: nat, line: Seq<char>) -> Seq<char> {
    json::blanks(indent) + line
}

/// One item of a list.
pub open spec fn item_text(values: Seq<Seq<char>>, components: nat, at: int) -> Seq<char> {
    if components == 1 {
        values[at]
    } else {
        "("@ + values[3 * at] + " "@ + values[3 * at + 1] + " "@ + values[3 * at + 2] + ")"@
    }
}

/// What is said of a value of a patch.
pub open spec fn entry_line(keyword: Seq<char>, rest: Seq<char>) -> Seq<char> {
    "boundary entry '"@ + keyword + "' "@ + rest
}

/// A list as a value of a patch.
pub open spec fn list_lines(
    keyword: Seq<char>,
    value_type: Option<Seq<char>>,
    count: Option<usize>,
    values: Option<Seq<Seq<char>>>,
) -> Result<Seq<Seq<char>>, Seq<char>> {
    match value_type {
        None => Err(entry_line(keyword, "has nonuniform data without a value type"@)),
        Some(kind) => match list_components(kind) {
            None => Err(
                entry_line(keyword, "uses unsupported nonuniform type '"@ + kind + "'"@),
            ),
            Some(components) => match values {
                None => Err(
                    entry_line(
                        keyword,
                        "has nonuniform "@ + kind + " data without loaded numeric values"@,
                    ),
                ),
                Some(found) => {
                    let items = match count {
                        Some(given) => given as nat,
                        None => (found.len() / components) as nat,
                    };
                    if found.len() != items * components {
                        Err(
                            entry_line(
                                keyword,
                                "has "@ + text::decimal(found.len())
                                    + " scalar values, expected "@ + text::decimal(
                                    items * components,
                                ) + " for "@ + text::decimal(items) + " "@ + kind + " entries"@,
                            ),
                        )
                    } else {
                        Ok(
                            Seq::empty().push(
                                indented(8, keyword + " nonuniform "@ + kind),
                            ).push(indented(8, text::decimal(items))).push(indented(8, "("@))
                                + Seq::new(
                                items,
                                |i: int| indented(12, item_text(found, components, i)),
                            ) + Seq::empty().push(indented(8, ");"@)),
                        )
                    }
                },
            },
        },
    }
}

/// The texts of an optional list.
pub open spec fn opt_texts(values: Option<Vec<String>>) -> Option<Seq<Seq<char>>> {
    match values {
        Some(found) => Some(text::texts(found@)),
        None => None,
    }
}

/// A value of a patch.
pub open spec fn value_lines(keyword: Seq<char>, value: OutputValue) -> Result<
    Seq<Seq<char>>,
    Seq<char>,
> {
    match value {
        OutputValue::Uniform(inner) => Ok(
            Seq::empty().push(
                indented(8, keyword + " uniform "@ + text::trim(inner@) + ";"@),
            ),
        ),
        OutputValue::Other(inner) => Ok(
            Seq::empty().push(
                indented(
                    8,
                    keyword + " "@ + text::strip_end(CharClass::Only(';'), text::trim(inner@))
                        + ";"@,
                ),
            ),
        ),
        OutputValue::NonUniform { value_type, count, values } => list_lines(
            keyword,
            text::opt_text(value_type),
            count,
            opt_texts(values),
        ),
    }
}

/// An optional value of a patch.
pub open spec fn opt_value_lines(keyword: Seq<char>, value: Option<OutputValue>) -> Result<
    Seq<Seq<char>>,
    Seq<char>,
> {
    match value {
        Some(inner) => value_lines(keyword, inner),
        None => Ok(Seq::empty()),
    }
}

/// A patch.
pub open spec fn patch_lines(patch: OutputPatch) -> Result<Seq<Seq<char>>, Seq<char>> {
    let head = Seq::empty().push("    "@ + patch.name@).push("    {"@) + match patch.patch_type {
        Some(found) => Seq::empty().push("        type "@ + found@ + ";"@),
        None => Seq::empty(),
    };
    match opt_value_lines("inletValue"@, patch.inlet_value) {
        Err(message) => Err(message),
        Ok(inlet) => match opt_value_lines("value"@, patch.value) {
            Err(message) => Err(message),
            Ok(value) => Ok(head + inlet + value + Seq::empty().push("    }"@)),
        },
    }
}

/// The patches before `n`, or the first failure among them.
pub open spec fn patches_lines(patches: Seq<OutputPatch>, n: int) -> Result<
    Seq<Seq<char>>,
    Seq<char>,
>
    decreases n,
{
    if n <= 0 {
        Ok(Seq::empty())
    } else {
        match patches_lines(patches, n - 1) {
            Err(message) => Err(message),
            Ok(earlier) => match patch_lines(patches[n - 1]) {
                Err(message) => Err(message),
                Ok(lines) => Ok(earlier + lines),
            },
        }
    }
}

/// The boundary of a field.
pub open spec fn boundary_lines(patches: Seq<OutputPatch>) -> Result<Seq<Seq<char>>, Seq<char>> {
    match patches_lines(patches, patches.len() as int) {
        Err(message) => Err(message),
        Ok(lines) => Ok(
            Seq::empty().push("boundaryField"@).push("{"@) + lines + Seq::empty().push("}"@),
        ),
    }
}

/// Whether the numbers of the lists on the patches can be counted.
pub open spec fn countable(value: Option<OutputValue>) -> bool {
    match value {
        Some(
            OutputValue::NonUniform {
                value_type: Some(kind),
                count: Some(count),
                values: Some(_),
            },
        ) => match list_components(kind@) {
            Some(components) => count * components <= usize::MAX,
            None => true,
        },
        _ => true,
    }
}

fn indented_text(indent: usize, line: &str) -> (out: String)
    ensures
        out@ == indented(indent as nat, line@),
{
    let mut out = json::blank_text(indent);
    out.append(line);
    out
}

fn entry_text(keyword: &str, rest: &str) -> (message: String)
    ensures
        message@ == entry_line(keyword@, rest@),
{
    let mut message = "boundary entry '".to_string();
    message.append(keyword);
    message.append("' ");
    message.append(rest);
    message
}

fn list_body(
    keyword: &str,
    kind: &str,
    count: Option<usize>,
    values: &Vec<String>,
    components: usize,
) -> (out: Result<TextList, String>)
    requires
        list_components(kind@) == Some(components as nat),
        count is Some ==> count->0 * components <= usize::MAX,
    ensures
        ({
            let named = list_lines(keyword@, Some(kind@), count, Some(text::texts(values@)));
            match out {
                Ok(lines) => text::accepts(named, lines@),
                Err(message) => text::refuses(named, message),
            }
        }),
{
    let ghost all = text::texts(values@);
    let total: usize = values.len();
    let items: usize = match count {
        Some(given) => given,
        None => total / components,
    };
    assert(components == 1 || components == 3);
    assert(items * components <= usize::MAX) by (nonlinear_arith)
        requires
            components == 1 || components == 3,
            count is Some ==> items * components <= usize::MAX,
            count is None ==> items == total / components,
            total <= usize::MAX,
            items <= usize::MAX,
    ;
    let expected: usize = items * components;
    if total != expected {
        let mut rest = "has ".to_string();
        rest.append(text::number_text(total).as_str());
        rest.append(" scalar values, expected ");
        rest.append(text::number_text(expected).as_str());
        rest.append(" for ");
        rest.append(text::number_text(items).as_str());
        rest.append(" ");
        rest.append(kind);
        rest.append(" entries");
        return Err(entry_text(keyword, rest.as_str()));
    }
    let mut lines = TextList::new();
    let mut head = keyword.to_string();
    head.append(" nonuniform ");
    head.append(kind);
    lines.push(indented_text(8, head.as_str()));
    lines.push(indented_text(8, text::number_text(items).as_str()));
    lines.push(indented_text(8, "("));
    let ghost start = lines@;
    let ghost wanted = Seq::new(
        items as nat,
        |i: int| indented(12, item_text(all, components as nat, i)),
    );
    let mut at: usize = 0;
    assert(start + wanted.take(0) =~= start);
    while at < items
        invariant
            at <= items,
            all == text::texts(values@),
            all.len() == values@.len(),
            components == 1 || components == 3,
            values@.len() == items * components,
            values@.len() == total,
            wanted == Seq::new(
                items as nat,
                |i: int| indented(12, item_text(all, components as nat, i)),
            ),
            lines@ == start + wanted.take(at as int),
        decreases items - at,
    {
        if components == 1 {
            lines.push(indented_text(12, values[at].as_str()));
        } else {
            assert(3 * at + 2 < values@.len()) by (nonlinear_arith)
                requires
                    at < items,
                    values@.len() == items * 3,
            ;
            let mut item = "(".to_string();
            item.append(values[3 * at].as_str());
            item.append(" ");
            item.append(values[3 * at + 1].as_str());
            item.append(" ");
            item.append(values[3 * at + 2].as_str());
            item.append(")");
            lines.push(indented_text(12, item.as_str()));
        }
        assert(start + wanted.take(at + 1) =~= (start + wanted.take(at as int)).push(
            wanted[at as int],
        ));
        at += 1;
    }
    assert(wanted.take(at as int) =~= wanted);
    let mut tail = TextList::new();
    tail.push(indented_text(8, ");"));
    lines.extend(tail);
    Ok(lines)
}

fn field_value(keyword: &str, value: &OutputValue) -> (out: Result<TextList, String>)
    requires
        countable(Some(*value)),
    ensures
        match out {
            Ok(lines) => text::accepts(value_lines(keyword@, *value), lines@),
            Err(message) => text::refuses(value_lines(keyword@, *value), message),
        },
{
    match value {
        OutputValue::Uniform(inner) => {
            let mut line = keyword.to_string();
            line.append(" uniform ");
            line.append(text::trimmed(inner.as_str()).as_str());
            line.append(";");
            let mut lines = TextList::new();
            lines.push(indented_text(8, line.as_str()));
            Ok(lines)
        },
        OutputValue::Other(inner) => {
            let mut line = keyword.to_string();
            line.append(" ");
            line.append(
                text::trimmed_end(
                    text::trimmed(inner.as_str()).as_str(),
                    CharClass::Only(';'),
                ).as_str(),
            );
            line.append(";");
            let mut lines = TextList::new();
            lines.push(indented_text(8, line.as_str()));
            Ok(lines)
        },
        OutputValue::NonUniform { value_type, count, values } => {
            match value_type {
                None => Err(entry_text(keyword, "has nonuniform data without a value type")),
                Some(kind) => match openfoam_nonuniform_components(kind.as_str()) {
                    None => {
                        let mut rest = "uses unsupported nonuniform type '".to_string();
                        rest.append(kind.as_str());
                        rest.append("'");
                        Err(entry_text(keyword, rest.as_str()))
                    },
                    Some(components) => match values {
                        None => {
                            let mut rest = "has nonuniform ".to_string();
                            rest.append(kind.as_str());
                            rest.append(" data without loaded numeric values");
                            Err(entry_text(keyword, rest.as_str()))
                        },
                        Some(found) => list_body(
                            keyword,
                            kind.as_str(),
                            *count,
                            found,
                            components,
                        ),
                    },
                },
            }
        },
    }
}

fn opt_field_value(keyword: &str, value: &Option<OutputValue>) -> (out: Result<TextList, String>)
    requires
        countable(*value),
    ensures
        match out {
            Ok(lines) => text::accepts(opt_value_lines(keyword@, *value), lines@),
            Err(message) => text::refuses(opt_value_lines(keyword@, *value), message),
        },
{
    match value {
        Some(inner) => field_value(keyword, inner),
        None => Ok(TextList::new()),
    }
}

fn patch_text(patch: &OutputPatch) -> (out: Result<TextList, String>)
    requires
        countable(patch.inlet_value),
        countable(patch.value),
    ensures
        match out {
            Ok(lines) => text::accepts(patch_lines(*patch), lines@),
            Err(message) => text::refuses(patch_lines(*patch), message),
        },
{
    let mut lines = TextList::new();
    let mut name = "    ".to_string();
    name.append(patch.name.as_str());
    lines.push(name);
    lines.add("    {");
    let mut kind = TextList::new();
    if let Some(found) = &patch.patch_type {
        let mut line = "        type ".to_string();
        line.append(found.as_str());
        line.append(";");
        kind.push(line);
    }
    lines.extend(kind);
    let inlet = opt_field_value("inletValue", &patch.inlet_value)?;
    let value = opt_field_value("value", &patch.value)?;
    lines.extend(inlet);
    lines.extend(value);
    let mut tail = TextList::new();
    tail.add("    }");
    lines.extend(tail);
    Ok(lines)
}

proof fn lemma_first_failure(patches: Seq<OutputPatch>, n: int, m: int)
    requires
        0 <= n <= m <= patches.len(),
        patches_lines(patches, n) is Err,
    ensures
        patches_lines(patches, m) == patches_lines(patches, n),
    decreases m,
{
    if n < m {
        lemma_first_failure(patches, n, m - 1);
    }
}

/// Whether the numbers of all lists on the patches can be counted.
pub open spec fn all_countable(patches: Seq<OutputPatch>) -> bool {
    forall|i: int|
        0 <= i < patches.len() ==> countable((#[trigger] patches[i]).inlet_value) && countable(
            patches[i].value,
        )
}

fn boundary_text(patches: &Vec<OutputPatch>) -> (out: Result<TextList, String>)
    requires
        all_countable(patches@),
    ensures
        match out {
            Ok(lines) => text::accepts(boundary_lines(patches@), lines@),
            Err(message) => text::refuses(boundary_lines(patches@), message),
        },
{
    let mut inner = TextList::new();
    let mut at: usize = 0;
    while at < patches.len()
        invariant
            at <= patches@.len(),
            all_countable(patches@),
            patches_lines(patches@, at as int) == Ok::<Seq<Seq<char>>, Seq<char>>(inner@),
        decreases patches@.len() - at,
    {
        match patch_text(&patches[at]) {
            Ok(lines) => {
                inner.extend(lines);
            },
            Err(message) => {
                proof {
                    lemma_first_failure(patches@, at + 1, patches@.len() as int);
                }
                return Err(message);
            },
        }
        at += 1;
    }
    let mut lines = TextList::new();
    lines.add("boundaryField");
    lines.add("{");
    lines.extend(inner);
    let mut tail = TextList::new();
    tail.add("}");
    lines.extend(tail);
    Ok(lines)
}

fn header(class_name: &str, location: &str, object: &str) -> (lines: TextList)
    ensures
        lines@ == header_lines(class_name@, location@, object@),
{
    let mut lines = TextList::new();
    lines.add("FoamFile");
    lines.add("{");
    lines.add("    version 2.0;");
    lines.add("    format ascii;");
    let mut class_line = "    class ".to_string();
    class_line.append(class_name);
    class_line.append(";");
    lines.push(class_line);
    let mut location_line = "    location \"".to_string();
    location_line.append(escape_openfoam_string(location).as_str());
    location_line.append("\";");
    lines.push(location_line);
    let mut object_line = "    object ".to_string();
    object_line.append(object);
    object_line.append(";");
    lines.push(object_line);
    lines.add("}");
    lines
}

fn dimensions_text(dimensions: &Option<Vec<String>>, fallback: &str) -> (line: String)
    ensures
        line@ == dimensions_line(*dimensions, fallback@),
{
    let mut line = "dimensions [".to_string();
    match dimensions {
        Some(values) => {
            if values.len() > 0 {
                line.append(text::joined(values, " ").as_str());
            } else {
                line.append(fallback);
            }
        },
        None => {
            line.append(fallback);
        },
    }
    line.append("];");
    line
}

/// The lines of a field file up to its boundary; `items` are the lines of the
/// interior values.
pub open spec fn interior_lines(
    field: OutputField,
    location: Seq<char>,
    object: Seq<char>,
    class_name: Seq<char>,
    dimensions: Seq<char>,
    value_type: Seq<char>,
    items: Seq<Seq<char>>,
) -> Seq<Seq<char>> {
    header_lines(layout::text_or(text::opt_text(field.class_name), class_name), location, object)
        + Seq::empty().push(Seq::empty()).push(
        dimensions_line(field.dimensions, dimensions),
    ).push(Seq::empty()).push("internalField nonuniform "@ + value_type).push(
        text::decimal(items.len()),
    ).push("("@) + items + Seq::empty().push(");"@).push(Seq::empty())
}

/// A field file.
pub open spec fn field_text(
    field: OutputField,
    location: Seq<char>,
    object: Seq<char>,
    class_name: Seq<char>,
    dimensions: Seq<char>,
    value_type: Seq<char>,
    items: Seq<Seq<char>>,
) -> Result<Seq<char>, Seq<char>> {
    match boundary_lines(field.boundary_patches@) {
        Err(message) => Err(message),
        Ok(boundary) => Ok(
            layout::lines_text(
                interior_lines(
                    field,
                    location,
                    object,
                    class_name,
                    dimensions,
                    value_type,
                    items,
                ) + boundary,
            ),
        ),
    }
}

/// The line of a vector.
pub open spec fn vector_item(value: (String, String, String)) -> Seq<char> {
    "    ("@ + value.0@ + " "@ + value.1@ + " "@ + value.2@ + ")"@
}

/// The lines of vectors.
pub open spec fn vector_items(values: Seq<(String, String, String)>) -> Seq<Seq<char>> {
    Seq::new(values.len(), |i: int| vector_item(values[i]))
}

/// The lines of numbers.
pub open spec fn scalar_items(values: Seq<String>) -> Seq<Seq<char>> {
    Seq::new(values.len(), |i: int| "    "@ + values[i]@)
}

fn write_field(
    field: &OutputField,
    location: &str,
    object: &str,
    class_name: &str,
    dimensions: &str,
    value_type: &str,
    count: usize,
    items: TextList,
) -> (out: Result<String, String>)
    requires
        all_countable(field.boundary_patches@),
        count == items@.len(),
    ensures
        ({
            let named = field_text(
                *field,
                location@,
                object@,
                class_name@,
                dimensions@,
                value_type@,
                items@,
            );
            match out {
                Ok(written) => text::accepts(named, written@),
                Err(message) => text::refuses(named, message),
            }
        }),
{
    let class = layout::text_or_default(&field.class_name, class_name);
    let mut lines = header(class.as_str(), location, object);
    let mut middle = TextList::new();
    middle.blank();
    middle.push(dimensions_text(&field.dimensions, dimensions));
    middle.blank();
    let mut interior = "internalField nonuniform ".to_string();
    interior.append(value_type);
    middle.push(interior);
    middle.push(text::number_text(count));
    middle.add("(");
    lines.extend(middle);
    lines.extend(items);
    let mut tail = TextList::new();
    tail.add(");");
    tail.blank();
    lines.extend(tail);
    let boundary = boundary_text(&field.boundary_patches)?;
    lines.extend(boundary);
    Ok(lines.as_lines())
}

/// The file of a velocity field; the components of `values` are notations of
/// numbers.
pub fn openfoam_vector_field(
    field: &OutputField,
    location: &str,
    values: &Vec<(String, String, String)>,
) -> (out: Result<String, String>)
    requires
        all_countable(field.boundary_patches@),
    ensures
        ({
            let named = field_text(
                *field,
                location@,
                "U"@,
                "volVectorField"@,
                "0 1 -1 0 0 0 0"@,
                "List<vector>"@,
                vector_items(values@),
            );
            match out {
                Ok(written) => text::accepts(named, written@),
                Err(message) => text::refuses(named, message),
            }
        }),
{
    let ghost wanted = vector_items(values@);
    let mut items = TextList::new();
    let mut at: usize = 0;
    assert(wanted.take(0) =~= Seq::empty());
    while at < values.len()
        invariant
            at <= values@.len(),
            wanted == vector_items(values@),
            items@ == wanted.take(at as int),
        decreases values@.len() - at,
    {
        let mut item = "    (".to_string();
        item.append(values[at].0.as_str());
        item.append(" ");
        item.append(values[at].1.as_str());
        item.append(" ");
        item.append(values[at].2.as_str());
        item.append(")");
        items.push(item);
        assert(wanted.take(at + 1) =~= wanted.take(at as int).push(wanted[at as int]));
        at += 1;
    }
    assert(wanted.take(at as int) =~= wanted);
    write_field(
        field,
        location,
        "U",
        "volVectorField",
        "0 1 -1 0 0 0 0",
        "List<vector>",
        values.len(),
        items,
    )
}

/// The file of a pressure field; `values` are notations of numbers.
pub fn openfoam_scalar_field(field: &OutputField, location: &str, values: &Vec<String>) -> (out:
    Result<String, String>)
    requires
        all_countable(field.boundary_patches@),
    ensures
        ({
            let named = field_text(
                *field,
                location@,
                "p"@,
                "volScalarField"@,
                "1 -1 -2 0 0 0 0"@,
                "List<scalar>"@,
                scalar_items(values@),
            );
            match out {
                Ok(written) => text::accepts(named, written@),
                Err(message) => text::refuses(named, message),
            }
        }),
{
    let ghost wanted = scalar_items(values@);
    let mut items = TextList::new();
    let mut at: usize = 0;
    assert(wanted.take(0) =~= Seq::empty());
    while at < values.len()
        invariant
            at <= values@.len(),
            wanted == scalar_items(values@),
            items@ == wanted.take(at as int),
        decreases values@.len() - at,
    {
        let mut item = "    ".to_string();
        item.append(values[at].as_str());
        items.push(item);
        assert(wanted.take(at + 1) =~= wanted.take(at as int).push(wanted[at as int]));
        at += 1;
    }
    assert(wanted.take(at as int) =~= wanted);
    write_field(
        field,
        location,
        "p",
        "volScalarField",
        "1 -1 -2 0 0 0 0",
        "List<scalar>",
        values.len(),
        items,
    )
}

/// The location that is written into a field file: the last part of its
/// directory.
pub open spec fn location_of(dir: Seq<char>) -> Seq<char> {
    match text::file_name(dir) {
        Some(name) => name,
        None => dir,
    }
}

/// The location that is written into a field file.
pub fn openfoam_output_location(dir: &str) -> (location: String)
    ensures
        location@ == location_of(dir@),
{
    match text::name_of(dir) {
        Some(name) => name,
        None => dir.to_string(),
    }
}

/// Whether final fields can be written: they have a finite value for each
/// cell.
pub open spec fn final_fields_checked(
    cells: nat,
    velocity: nat,
    pressure: nat,
    velocity_finite: bool,
    pressure_finite: bool,
) -> Result<(), Failure> {
    checks::both(
        checks::unless(velocity == cells, final_line("U"@, velocity, cells)),
        checks::both(
            checks::unless(pressure == cells, final_line("p"@, pressure, cells)),
            checks::both(
                checks::unless(velocity_finite, "final U field contains non-finite values"@),
                checks::unless(pressure_finite, "final p field contains non-finite values"@),
            ),
        ),
    )
}

/// What is said of a final field with another number of values.
pub open spec fn final_line(name: Seq<char>, found: nat, cells: nat) -> Seq<char> {
    "final "@ + name + " field has "@ + text::decimal(found) + " cells, expected "@
        + text::decimal(cells)
}

fn final_text(name: &str, found: usize, cells: usize) -> (line: String)
    ensures
        line@ == final_line(name@, found as nat, cells as nat),
{
    let mut line = "final ".to_string();
    line.append(name);
    line.append(" field has ");
    line.append(text::number_text(found).as_str());
    line.append(" cells, expected ");
    line.append(text::number_text(cells).as_str());
    line
}

/// Whether final fields can be written: they have a finite value for each
/// cell.
pub fn check_final_fields(
    cells: usize,
    velocity: usize,
    pressure: usize,
    velocity_finite: bool,
    pressure_finite: bool,
) -> (out: Result<(), MeshError>)
    ensures
        checks::agrees(
            out,
            final_fields_checked(
                cells as nat,
                velocity as nat,
                pressure as nat,
                velocity_finite,
                pressure_finite,
            ),
        ),
{
    checks::check(velocity == cells, final_text("U", velocity, cells).as_str())?;
    checks::check(pressure == cells, final_text("p", pressure, cells).as_str())?;
    checks::check(velocity_finite, "final U field contains non-finite values")?;
    checks::check(pressure_finite, "final p field contains non-finite values")
}

} // verus!
