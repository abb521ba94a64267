//! The property dictionaries of a case.

use crate::dictionary;
use crate::dictionary::{Dialect, Stream, TokenCursor, MAX_DICTIONARY_NESTING};
use crate::error::{Failure, MeshError};
use crate::sections;
use crate::sections::{EntryView, SectionView};
use crate::text;
use vstd::prelude::*;

verus! {

/// A dictionary below `constant`, of the case or of one of its regions.
#[derive(Debug)]
pub struct PropertyDictionary {
    pub path: String,
    pub region: Option<String>,
    pub name: String,
    pub entries: Vec<PropertyEntry>,
    pub sections: Vec<PropertySection>,
}

/// A named block of entries and further blocks.
#[derive(Debug)]
pub struct PropertySection {
    pub name: String,
    pub entries: Vec<PropertyEntry>,
    pub sections: Vec<PropertySection>,
}

/// A keyword and the tokens of its value.
#[derive(Debug)]
pub struct PropertyEntry {
    pub key: String,
    pub value: Vec<String>,
}

/// What is remarkable about the property dictionaries of a case.
#[derive(Debug)]
pub struct PropertyValidation {
    pub warnings: Vec<String>,
}

/// The mathematical view of a [`PropertyDictionary`].
pub struct PropertyDictionaryView {
    pub path: Seq<char>,
    pub region: Option<Seq<char>>,
    pub name: Seq<char>,
    pub entries: Seq<EntryView>,
    pub sections: Seq<SectionView>,
}

impl View for PropertyEntry {
    type V = EntryView;

    open spec fn view(&self) -> EntryView {
        EntryView { key: self.key@, value: text::texts(self.value@) }
    }
}

/// The views of the entries of a vector.
pub open spec fn entry_views(entries: Seq<PropertyEntry>) -> Seq<EntryView> {
    Seq::new(entries.len(), |i: int| entries[i]@)
}

impl PropertySection {
    /// The mathematical view of the block.
    pub open spec fn model(self) -> SectionView
        decreases self,
    {
        SectionView {
            name: self.name@,
            entries: entry_views(self.entries@),
            sections: Seq::new(
                self.sections@.len(),
                |i: int|
                    if 0 <= i < self.sections@.len() {
                        self.sections@[i].model()
                    } else {
                        arbitrary()
                    },
            ),
        }
    }
}

/// The views of the blocks of a vector.
pub open spec fn section_views(sections: Seq<PropertySection>) -> Seq<SectionView> {
    Seq::new(sections.len(), |i: int| sections[i].model())
}

impl View for PropertyDictionary {
    type V = PropertyDictionaryView;

    open spec fn view(&self) -> PropertyDictionaryView {
        PropertyDictionaryView {
            path: self.path@,
            region: text::opt_text(self.region),
            name: self.name@,
            entries: entry_views(self.entries@),
            sections: section_views(self.sections@),
        }
    }
}

/// The views of the dictionaries of a vector.
pub open spec fn dictionary_views(dictionaries: Seq<PropertyDictionary>) -> Seq<
    PropertyDictionaryView,
> {
    Seq::new(dictionaries.len(), |i: int| dictionaries[i]@)
}

/// What the property dictionary `content` at `path` holds; it is named after
/// its file.
pub open spec fn property_dictionary(
    content: Seq<char>,
    path: Seq<char>,
    region: Option<Seq<char>>,
) -> Result<PropertyDictionaryView, Failure> {
    let s = Stream { path, tokens: dictionary::tokens(content, Dialect::Square), at: 0 };
    let limit = Some(MAX_DICTIONARY_NESTING as nat);
    match sections::file_body(s, limit, Seq::empty(), Seq::empty()) {
        Ok((entries, found)) => Ok(
            PropertyDictionaryView {
                path,
                region,
                name: match text::file_name(path) {
                    Some(name) => name,
                    None => "unknown"@,
                },
                entries,
                sections: found,
            },
        ),
        Err(failure) => Err(failure),
    }
}

/// The warnings about an entry: a value that starts with a bracket has seven
/// dimensions up to the closing bracket, and a value behind it.
pub open spec fn entry_warnings(label: Seq<char>, entry: EntryView) -> Seq<Seq<char>> {
    let value = entry.value;
    if value.len() == 0 || value[0] != "["@ {
        Seq::empty()
    } else {
        match text::find_text(value, "]"@) {
            None => seq![
                label + "."@ + entry.key + " has an unterminated dimension vector"@,
            ],
            Some(end) => {
                let shape = if end != 8 {
                    let count = if end > 0 {
                        (end - 1) as nat
                    } else {
                        0
                    };
                    seq![
                        label + "."@ + entry.key + " dimension vector has "@ + text::decimal(count)
                            + " entries; expected 7"@,
                    ]
                } else {
                    Seq::empty()
                };
                if value.len() <= end + 1 {
                    shape.push(label + "."@ + entry.key + " has dimensions but no value"@)
                } else {
                    shape
                }
            },
        }
    }
}

/// The warnings about the entries of a block or dictionary.
pub open spec fn entries_warnings(label: Seq<char>, entries: Seq<EntryView>) -> Seq<Seq<char>>
    decreases entries.len(),
{
    if entries.len() == 0 {
        Seq::empty()
    } else {
        entries_warnings(label, entries.drop_last()) + entry_warnings(label, entries.last())
    }
}

/// The warnings about the entries of blocks and of the blocks inside them.
pub open spec fn sections_warnings(label: Seq<char>, found: Seq<SectionView>) -> Seq<Seq<char>>
    decreases found,
{
    if found.len() == 0 {
        Seq::empty()
    } else {
        let inner = label + "."@ + found.last().name;
        sections_warnings(label, found.drop_last()) + entries_warnings(inner, found.last().entries)
            + sections_warnings(inner, found.last().sections)
    }
}

/// The name of a dictionary, after its region where it has one.
pub open spec fn label_of(dictionary: PropertyDictionaryView) -> Seq<char> {
    match dictionary.region {
        Some(region) => region + "/"@ + dictionary.name,
        None => dictionary.name,
    }
}

/// The warnings about one dictionary.
pub open spec fn dictionary_warnings(dictionary: PropertyDictionaryView) -> Seq<Seq<char>> {
    let label = label_of(dictionary);
    let empty = if dictionary.entries.len() == 0 && dictionary.sections.len() == 0 {
        seq!["property dictionary '"@ + label + "' has no entries"@]
    } else {
        Seq::empty()
    };
    empty + entries_warnings(label, dictionary.entries) + sections_warnings(
        label,
        dictionary.sections,
    )
}

/// The warnings about the dictionaries, one after the other.
pub open spec fn all_warnings(dictionaries: Seq<PropertyDictionaryView>) -> Seq<Seq<char>>
    decreases dictionaries.len(),
{
    if dictionaries.len() == 0 {
        Seq::empty()
    } else {
        all_warnings(dictionaries.drop_last()) + dictionary_warnings(dictionaries.last())
    }
}

/// The warnings about the property dictionaries of a case.
pub open spec fn property_warnings(dictionaries: Seq<PropertyDictionaryView>) -> Seq<Seq<char>> {
    if dictionaries.len() == 0 {
        seq!["no constant property dictionaries found"@]
    } else {
        all_warnings(dictionaries)
    }
}

/// The text of a value: its tokens with blanks between them.
pub fn format_property_value(value: &Vec<String>) -> (out: String)
    ensures
        out@ == sections::value_text(text::texts(value@)),
{
    sections::format_value(value)
}

/// Whether a file below `constant` is a property dictionary.
pub fn is_property_dictionary_name(name: &str) -> (yes: bool)
    ensures
        yes == (name@ != "interfaces"@ && name@ != "ferrumMeshSummary.txt"@),
{
    !text::text_eq(name, "interfaces") && !text::text_eq(name, "ferrumMeshSummary.txt")
}

fn parse_property_section(cursor: &mut TokenCursor, name: String, depth: usize) -> (result: Result<
    PropertySection,
    MeshError,
>)
    requires
        old(cursor)@.valid(),
        depth <= MAX_DICTIONARY_NESTING + 1,
    ensures
        match result {
            Ok(section) => dictionary::yields(
                sections::section_at(
                    old(cursor)@,
                    name@,
                    depth as nat,
                    Some(MAX_DICTIONARY_NESTING as nat),
                ),
                section.model(),
                final(cursor)@,
            ),
            Err(error) => dictionary::fails(
                sections::section_at(
                    old(cursor)@,
                    name@,
                    depth as nat,
                    Some(MAX_DICTIONARY_NESTING as nat),
                ),
                error,
            ),
        },
        result is Ok ==> old(cursor)@.at < final(cursor)@.at,
        final(cursor)@.follows(old(cursor)@),
    decreases old(cursor)@.left(),
{
    if depth > MAX_DICTIONARY_NESTING {
        let mut message = "property dictionary nesting exceeds ".to_string();
        message.append(text::number_text(MAX_DICTIONARY_NESTING).as_str());
        message.append(" levels in ");
        message.append(cursor.path());
        return Err(MeshError::InvalidInput(message));
    }
    cursor.expect("{")?;
    let mut entries: Vec<PropertyEntry> = Vec::new();
    let mut inner: Vec<PropertySection> = Vec::new();
    assert(entry_views(entries@) =~= Seq::empty());
    assert(section_views(inner@) =~= Seq::empty());
    loop
        invariant
            cursor@.follows(old(cursor)@),
            old(cursor)@.at < cursor@.at,
            depth <= MAX_DICTIONARY_NESTING,
            sections::section_body(
                cursor@,
                name@,
                depth as nat,
                Some(MAX_DICTIONARY_NESTING as nat),
                entry_views(entries@),
                section_views(inner@),
            ) == sections::section_at(
                old(cursor)@,
                name@,
                depth as nat,
                Some(MAX_DICTIONARY_NESTING as nat),
            ),
        ensures
            cursor@.peeks("}"@),
        decreases cursor@.left(),
    {
        if cursor.peek_is("}")? {
            break ;
        }
        let key = cursor.next_required()?;
        if text::text_eq(key.as_str(), ";") {
            continue ;
        }
        if cursor.at("{") {
            let section = parse_property_section(cursor, key, depth + 1)?;
            let ghost earlier = section_views(inner@);
            inner.push(section);
            assert(section_views(inner@) =~= earlier.push(section.model()));
        } else {
            let value = cursor.read_value_until_semicolon()?;
            let entry = PropertyEntry { key, value };
            let ghost earlier = entry_views(entries@);
            entries.push(entry);
            assert(entry_views(entries@) =~= earlier.push(entry@));
        }
    }
    cursor.expect("}")?;
    cursor.expect_optional(";")?;
    let section = PropertySection { name, entries, sections: inner };
    assert(section.model().sections =~= section_views(inner@));
    Ok(section)
}

/// The property dictionary `content` of the file at `path`.
pub fn parse_property_dictionary_str(content: &str, path: &str, region: Option<String>) -> (result:
    Result<PropertyDictionary, MeshError>)
    ensures
        match result {
            Ok(found) => dictionary::gives(
                property_dictionary(content@, path@, text::opt_text(region)),
                found@,
            ),
            Err(error) => dictionary::fails(
                property_dictionary(content@, path@, text::opt_text(region)),
                error,
            ),
        },
{
    let tokens = dictionary::tokenize(content);
    let mut cursor = TokenCursor::new(path, tokens);
    let ghost start = cursor@;
    let ghost limit = Some(MAX_DICTIONARY_NESTING as nat);
    let mut entries: Vec<PropertyEntry> = Vec::new();
    let mut found: Vec<PropertySection> = Vec::new();
    assert(entry_views(entries@) =~= Seq::empty());
    assert(section_views(found@) =~= Seq::empty());
    while cursor.peek().is_some()
        invariant
            cursor@.valid(),
            start == (Stream { path: path@, tokens: dictionary::tokens(content@, Dialect::Square), at: 0 }),
            limit == Some(MAX_DICTIONARY_NESTING as nat),
            sections::file_body(cursor@, limit, entry_views(entries@), section_views(found@))
                == sections::file_body(start, limit, Seq::empty(), Seq::empty()),
        decreases cursor@.left(),
    {
        let key = cursor.next_required()?;
        if text::text_eq(key.as_str(), ";") {
            continue ;
        }
        if text::text_eq(key.as_str(), "FoamFile") {
            cursor.skip_braced_block()?;
            continue ;
        }
        if cursor.at("{") {
            let section = parse_property_section(&mut cursor, key, 1)?;
            let ghost earlier = section_views(found@);
            found.push(section);
            assert(section_views(found@) =~= earlier.push(section.model()));
        } else {
            let value = cursor.read_value_until_semicolon()?;
            let entry = PropertyEntry { key, value };
            let ghost earlier = entry_views(entries@);
            entries.push(entry);
            assert(entry_views(entries@) =~= earlier.push(entry@));
        }
    }
    let name = match text::name_of(path) {
        Some(name) => name,
        None => "unknown".to_string(),
    };
    Ok(PropertyDictionary { path: path.to_string(), region, name, entries, sections: found })
}

fn push_warning(warnings: &mut Vec<String>, label: &str, key: &str, remark: &str)
    ensures
        text::texts(final(warnings)@) == text::texts(old(warnings)@).push(
            label@ + "."@ + key@ + remark@,
        ),
{
    let mut message = label.to_string();
    message.append(".");
    message.append(key);
    message.append(remark);
    warnings.push(message);
    assert(text::texts(warnings@) =~= text::texts(old(warnings)@).push(
        label@ + "."@ + key@ + remark@,
    ));
}

fn validate_dimensioned_entries(
    label: &str,
    entries: &Vec<PropertyEntry>,
    warnings: &mut Vec<String>,
)
    ensures
        text::texts(final(warnings)@) == text::texts(old(warnings)@) + entries_warnings(
            label@,
            entry_views(entries@),
        ),
{
    let ghost all = entry_views(entries@);
    let mut i: usize = 0;
    assert(entries_warnings(label@, all.take(0)) =~= Seq::empty());
    assert(text::texts(warnings@) =~= text::texts(old(warnings)@) + Seq::<Seq<char>>::empty());
    while i < entries.len()
        invariant
            i <= entries@.len(),
            all == entry_views(entries@),
            text::texts(warnings@) == text::texts(old(warnings)@) + entries_warnings(
                label@,
                all.take(i as int),
            ),
        decreases entries@.len() - i,
    {
        let entry = &entries[i];
        let ghost before = text::texts(warnings@);
        let ghost done = entries_warnings(label@, all.take(i as int));
        assert(all.take(i + 1).drop_last() =~= all.take(i as int));
        validate_entry(label, entry, warnings);
        assert(before + entry_warnings(label@, entry@) =~= text::texts(old(warnings)@) + (done
            + entry_warnings(label@, entry@)));
        i += 1;
    }
    assert(all.take(i as int) =~= all);
}

fn validate_entry(label: &str, entry: &PropertyEntry, warnings: &mut Vec<String>)
    ensures
        text::texts(final(warnings)@) == text::texts(old(warnings)@) + entry_warnings(
            label@,
            entry@,
        ),
{
    let ghost before = text::texts(warnings@);
    if entry.value.is_empty() || !text::text_eq(entry.value[0].as_str(), "[") {
        assert(text::texts(warnings@) =~= before + entry_warnings(label@, entry@));
        return;
    }
    match text::position_of(&entry.value, "]") {
        None => {
            push_warning(
                warnings,
                label,
                entry.key.as_str(),
                " has an unterminated dimension vector",
            );
        },
        Some(end) => {
            if end != 8 {
                let count: usize = if end > 0 {
                    end - 1
                } else {
                    0
                };
                let mut message = label.to_string();
                message.append(".");
                message.append(entry.key.as_str());
                message.append(" dimension vector has ");
                message.append(text::number_text(count).as_str());
                message.append(" entries; expected 7");
                warnings.push(message);
                assert(text::texts(warnings@) =~= before.push(message@));
            }
            if entry.value.len() - 1 <= end {
                push_warning(warnings, label, entry.key.as_str(), " has dimensions but no value");
            }
        },
    }
    assert(text::texts(warnings@) =~= before + entry_warnings(label@, entry@));
}

fn validate_section_entries(label: &str, found: &Vec<PropertySection>, warnings: &mut Vec<String>)
    ensures
        text::texts(final(warnings)@) == text::texts(old(warnings)@) + sections_warnings(
            label@,
            section_views(found@),
        ),
    decreases found,
{
    let ghost all = section_views(found@);
    let mut i: usize = 0;
    assert(sections_warnings(label@, all.take(0)) =~= Seq::empty());
    assert(text::texts(warnings@) =~= text::texts(old(warnings)@) + Seq::<Seq<char>>::empty());
    while i < found.len()
        invariant
            i <= found@.len(),
            all == section_views(found@),
            text::texts(warnings@) == text::texts(old(warnings)@) + sections_warnings(
                label@,
                all.take(i as int),
            ),
        decreases found@.len() - i,
    {
        let section = &found[i];
        let ghost before = text::texts(warnings@);
        let ghost done = sections_warnings(label@, all.take(i as int));
        assert(all.take(i + 1).drop_last() =~= all.take(i as int));
        let mut inner = label.to_string();
        inner.append(".");
        inner.append(section.name.as_str());
        validate_dimensioned_entries(inner.as_str(), &section.entries, warnings);
        assert(decreases_to!(found => section.sections));
        validate_section_entries(inner.as_str(), &section.sections, warnings);
        assert(section.model().sections =~= section_views(section.sections@));
        let ghost a = entries_warnings(inner@, entry_views(section.entries@));
        let ghost b = sections_warnings(inner@, section_views(section.sections@));
        assert(before + a + b =~= text::texts(old(warnings)@) + (done + a + b));
        i += 1;
    }
    assert(all.take(i as int) =~= all);
}

fn dictionary_label(dictionary: &PropertyDictionary) -> (label: String)
    ensures
        label@ == label_of(dictionary@),
{
    match &dictionary.region {
        Some(region) => {
            let mut label = region.clone();
            label.append("/");
            label.append(dictionary.name.as_str());
            label
        },
        None => dictionary.name.clone(),
    }
}

/// The warnings about the property dictionaries of a case.
pub fn validate_properties(dictionaries: &[PropertyDictionary]) -> (validation: PropertyValidation)
    ensures
        text::texts(validation.warnings@) == property_warnings(dictionary_views(dictionaries@)),
{
    let mut warnings: Vec<String> = Vec::new();
    if dictionaries.len() == 0 {
        warnings.push("no constant property dictionaries found".to_string());
        assert(text::texts(warnings@) =~= property_warnings(dictionary_views(dictionaries@)));
        return PropertyValidation { warnings };
    }
    let ghost all = dictionary_views(dictionaries@);
    let mut i: usize = 0;
    assert(text::texts(warnings@) =~= all_warnings(all.take(0)));
    while i < dictionaries.len()
        invariant
            i <= dictionaries@.len(),
            all == dictionary_views(dictionaries@),
            text::texts(warnings@) == all_warnings(all.take(i as int)),
        decreases dictionaries@.len() - i,
    {
        let dictionary = &dictionaries[i];
        let ghost done = all_warnings(all.take(i as int));
        assert(all.take(i + 1).drop_last() =~= all.take(i as int));
        let label = dictionary_label(dictionary);
        if dictionary.entries.is_empty() && dictionary.sections.is_empty() {
            let mut message = "property dictionary '".to_string();
            message.append(label.as_str());
            message.append("' has no entries");
            warnings.push(message);
            assert(text::texts(warnings@) =~= done.push(message@));
        }
        validate_dimensioned_entries(label.as_str(), &dictionary.entries, &mut warnings);
        validate_section_entries(label.as_str(), &dictionary.sections, &mut warnings);
        assert(text::texts(warnings@) =~= done + dictionary_warnings(dictionary@));
        i += 1;
    }
    assert(all.take(i as int) =~= all);
    PropertyValidation { warnings }
}

/// An entry of a property gives no warning exactly where it has no dimensions, or has
/// seven of them in brackets and a value behind.
pub proof fn sound_property_gives_no_warning(label: Seq<char>, entry: EntryView, end: int)
    ensures
        entry.value.len() == 0 || entry.value[0] != "["@ ==> entry_warnings(label, entry).len()
            == 0,
        entry.value.len() > 0 && entry.value[0] == "["@ && text::find_text(entry.value, "]"@)
            == Some(end) ==> (entry_warnings(label, entry).len() == 0 <==> end == 8
            && entry.value.len() > 9),
        entry.value.len() > 0 && entry.value[0] == "["@ && text::find_text(
            entry.value,
            "]"@,
        ) is None ==> entry_warnings(label, entry).len() == 1,
{
}

/// A dictionary without entries and blocks is warned about, and so is a case without
/// dictionaries.
pub proof fn empty_properties_are_warned_about(
    dictionary: PropertyDictionaryView,
    dictionaries: Seq<PropertyDictionaryView>,
)
    ensures
        dictionary.entries.len() == 0 && dictionary.sections.len() == 0 ==> dictionary_warnings(
            dictionary,
        ).len() == 1,
        dictionaries.len() == 0 ==> property_warnings(dictionaries).len() == 1,
{
}

} // verus!
