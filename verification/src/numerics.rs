//! The discretisation dictionaries `fvSchemes` and `fvSolution`.

use crate::dictionary;
use crate::dictionary::{Dialect, Stream, TokenCursor};
use crate::error::{Failure, MeshError};
use crate::sections;
use crate::sections::{EntryView, SectionView};
use crate::text;
use vstd::prelude::*;

verus! {

/// `system/fvSchemes`.
#[derive(Debug)]
pub struct FvSchemes {
    pub path: String,
    pub sections: Vec<NumericsSection>,
}

/// `system/fvSolution`.
#[derive(Debug)]
pub struct FvSolution {
    pub path: String,
    pub sections: Vec<NumericsSection>,
}

/// A named block of entries and further blocks.
#[derive(Debug)]
pub struct NumericsSection {
    pub name: String,
    pub entries: Vec<NumericsEntry>,
    pub sections: Vec<NumericsSection>,
}

/// A keyword and the tokens of its value.
#[derive(Debug)]
pub struct NumericsEntry {
    pub key: String,
    pub value: Vec<String>,
}

impl View for NumericsEntry {
    type V = EntryView;

    open spec fn view(&self) -> EntryView {
        EntryView { key: self.key@, value: text::texts(self.value@) }
    }
}

/// The views of the entries of a vector.
pub open spec fn entry_views(entries: Seq<NumericsEntry>) -> Seq<EntryView> {
    Seq::new(entries.len(), |i: int| entries[i]@)
}

impl NumericsSection {
    /// The mathematical view of the block.
    pub open spec fn model(self) -> SectionView
        decreases self,
    {
        SectionView {
            name: self.name@,
            entries: entry_views(self.entries@),
            sections: Seq::new(
                self.sections@.len(),
                |i: int|
                    if 0 <= i < self.sections@.len() {
                        self.sections@[i].model()
                    } else {
                        arbitrary()
                    },
            ),
        }
    }
}

/// The views of the blocks of a vector.
pub open spec fn section_views(sections: Seq<NumericsSection>) -> Seq<SectionView> {
    Seq::new(sections.len(), |i: int| sections[i].model())
}

/// What a numerics dictionary holds: its blocks.
pub open spec fn numerics_dictionary(content: Seq<char>, path: Seq<char>) -> Result<
    Seq<SectionView>,
    Failure,
> {
    let s = Stream { path, tokens: dictionary::tokens(content, Dialect::Keywords), at: 0 };
    match sections::file_body(s, None, Seq::empty(), Seq::empty()) {
        Ok((_, found)) => Ok(found),
        Err(failure) => Err(failure),
    }
}

/// The text of a value: its tokens with blanks between them.
pub fn format_numerics_value(value: &Vec<String>) -> (out: String)
    ensures
        out@ == sections::value_text(text::texts(value@)),
{
    sections::format_value(value)
}

fn parse_section(cursor: &mut TokenCursor, name: String, depth: Ghost<nat>) -> (result: Result<
    NumericsSection,
    MeshError,
>)
    requires
        old(cursor)@.valid(),
    ensures
        match result {
            Ok(section) => dictionary::yields(
                sections::section_at(old(cursor)@, name@, depth@, None),
                section.model(),
                final(cursor)@,
            ),
            Err(error) => dictionary::fails(
                sections::section_at(old(cursor)@, name@, depth@, None),
                error,
            ),
        },
        result is Ok ==> old(cursor)@.at < final(cursor)@.at,
        final(cursor)@.follows(old(cursor)@),
    decreases old(cursor)@.left(),
{
    cursor.expect("{")?;
    let mut entries: Vec<NumericsEntry> = Vec::new();
    let mut inner: Vec<NumericsSection> = Vec::new();
    assert(entry_views(entries@) =~= Seq::empty());
    assert(section_views(inner@) =~= Seq::empty());
    loop
        invariant
            cursor@.follows(old(cursor)@),
            old(cursor)@.at < cursor@.at,
            sections::section_body(
                cursor@,
                name@,
                depth@,
                None,
                entry_views(entries@),
                section_views(inner@),
            ) == sections::section_at(old(cursor)@, name@, depth@, None),
        ensures
            cursor@.peeks("}"@),
        decreases cursor@.left(),
    {
        let ghost before = cursor@;
        if cursor.peek_is("}")? {
            break ;
        }
        let key = cursor.next_required()?;
        if text::text_eq(key.as_str(), ";") {
            continue ;
        }
        if cursor.at("{") {
            let section = parse_section(cursor, key, Ghost(depth@ + 1))?;
            let ghost earlier = section_views(inner@);
            inner.push(section);
            assert(section_views(inner@) =~= earlier.push(section.model()));
        } else {
            let value = cursor.read_value_until_semicolon()?;
            let entry = NumericsEntry { key, value };
            let ghost earlier = entry_views(entries@);
            entries.push(entry);
            assert(entry_views(entries@) =~= earlier.push(entry@));
        }
    }
    cursor.expect("}")?;
    cursor.expect_optional(";")?;
    let section = NumericsSection { name, entries, sections: inner };
    assert(section.model().sections =~= section_views(inner@));
    Ok(section)
}

/// The blocks of a numerics dictionary.
pub fn parse_numerics_dictionary_str(content: &str, path: &str) -> (result: Result<
    Vec<NumericsSection>,
    MeshError,
>)
    ensures
        match result {
            Ok(found) => dictionary::gives(
                numerics_dictionary(content@, path@),
                section_views(found@),
            ),
            Err(error) => dictionary::fails(numerics_dictionary(content@, path@), error),
        },
{
    let tokens = dictionary::tokenize_with(content, Dialect::Keywords);
    let mut cursor = TokenCursor::new(path, tokens);
    let ghost start = cursor@;
    let mut found: Vec<NumericsSection> = Vec::new();
    let ghost mut entries: Seq<EntryView> = Seq::empty();
    assert(section_views(found@) =~= Seq::empty());
    while cursor.peek().is_some()
        invariant
            cursor@.valid(),
            start == (Stream { path: path@, tokens: dictionary::tokens(content@, Dialect::Keywords), at: 0 }),
            sections::file_body(cursor@, None, entries, section_views(found@))
                == sections::file_body(start, None, Seq::empty(), Seq::empty()),
        decreases cursor@.left(),
    {
        let ghost before = cursor@;
        let name = cursor.next_required()?;
        if text::text_eq(name.as_str(), ";") {
            continue ;
        }
        if text::text_eq(name.as_str(), "FoamFile") {
            cursor.skip_braced_block()?;
            continue ;
        }
        if cursor.at("{") {
            let section = parse_section(&mut cursor, name, Ghost(1))?;
            let ghost earlier = section_views(found@);
            found.push(section);
            assert(section_views(found@) =~= earlier.push(section.model()));
        } else {
            cursor.skip_value_or_block()?;
            proof {
                entries = entries.push(
                    EntryView { key: before.value(), value: before.next().value_tokens(0) },
                );
            }
        }
    }
    Ok(found)
}

} // verus!
