//! The grammar of dictionaries made of named blocks.

use crate::dictionary::Stream;
use crate::error::Failure;
use crate::text;
use vstd::prelude::*;

verus! {

/// The mathematical view of an entry: a keyword and the tokens of its value.
pub struct EntryView {
    pub key: Seq<char>,
    pub value: Seq<Seq<char>>,
}

/// The mathematical view of a block of entries and further blocks.
pub struct SectionView {
    pub name: Seq<char>,
    pub entries: Seq<EntryView>,
    pub sections: Seq<SectionView>,
}

/// The failure of a block that is nested too deeply.
pub open spec fn too_deep(s: Stream, limit: nat) -> Failure {
    Failure::InvalidInput(
        "property dictionary nesting exceeds "@ + text::decimal(limit) + " levels in "@ + s.path,
    )
}

/// The block that starts with the next token, and the stream after it; at most
/// `limit` blocks stand inside one another where there is a limit.
pub open spec fn section_at(s: Stream, name: Seq<char>, depth: nat, limit: Option<nat>) -> Result<
    (SectionView, Stream),
    Failure,
>
    decreases s.left(), 1nat,
{
    if limit is Some && depth > limit->0 {
        Err(too_deep(s, limit->0))
    } else {
        match s.expect("{"@) {
            Ok(inside) => section_body(inside, name, depth, limit, Seq::empty(), Seq::empty()),
            Err(failure) => Err(failure),
        }
    }
}

/// The rest of a block of which `entries` and `sections` have been read. Every
/// step takes a token.
pub open spec fn section_body(
    s: Stream,
    name: Seq<char>,
    depth: nat,
    limit: Option<nat>,
    entries: Seq<EntryView>,
    sections: Seq<SectionView>,
) -> Result<(SectionView, Stream), Failure>
    decreases s.left(), 0nat,
{
    if s.ended() {
        Err(s.eof())
    } else if s.value() == "}"@ {
        Ok((SectionView { name, entries, sections }, s.next().optional(";"@)))
    } else if s.value() == ";"@ {
        section_body(s.next(), name, depth, limit, entries, sections)
    } else if s.next().peeks("{"@) {
        match section_at(s.next(), s.value(), depth + 1, limit) {
            Ok((section, rest)) if rest.left() < s.left() => section_body(
                rest,
                name,
                depth,
                limit,
                entries,
                sections.push(section),
            ),
            Ok(_) => Err(s.eof()),
            Err(failure) => Err(failure),
        }
    } else {
        let rest = s.next().value_end(0);
        let entry = EntryView { key: s.value(), value: s.next().value_tokens(0) };
        if rest.left() < s.left() {
            section_body(rest, name, depth, limit, entries.push(entry), sections)
        } else {
            Err(s.eof())
        }
    }
}

/// The entries and blocks of a dictionary file of which `entries` and
/// `sections` have been read; its header is passed over.
pub open spec fn file_body(
    s: Stream,
    limit: Option<nat>,
    entries: Seq<EntryView>,
    sections: Seq<SectionView>,
) -> Result<(Seq<EntryView>, Seq<SectionView>), Failure>
    decreases s.left(),
{
    if s.ended() {
        Ok((entries, sections))
    } else if s.value() == ";"@ {
        file_body(s.next(), limit, entries, sections)
    } else if s.value() == "FoamFile"@ {
        match s.next().block_end() {
            Ok(rest) if rest.left() < s.left() => file_body(rest, limit, entries, sections),
            Ok(_) => Err(s.eof()),
            Err(failure) => Err(failure),
        }
    } else if s.next().peeks("{"@) {
        match section_at(s.next(), s.value(), 1, limit) {
            Ok((section, rest)) if rest.left() < s.left() => file_body(
                rest,
                limit,
                entries,
                sections.push(section),
            ),
            Ok(_) => Err(s.eof()),
            Err(failure) => Err(failure),
        }
    } else {
        let rest = s.next().value_end(0);
        let entry = EntryView { key: s.value(), value: s.next().value_tokens(0) };
        if rest.left() < s.left() {
            file_body(rest, limit, entries.push(entry), sections)
        } else {
            Err(s.eof())
        }
    }
}

/// The text of a value: its tokens with blanks between them.
pub open spec fn value_text(value: Seq<Seq<char>>) -> Seq<char> {
    if value.len() == 0 {
        "empty"@
    } else {
        text::join(value, " "@)
    }
}

/// The text of a value.
pub fn format_value(value: &Vec<String>) -> (out: String)
    ensures
        out@ == value_text(text::texts(value@)),
{
    if value.is_empty() {
        return "empty".to_string();
    }
    text::joined(value, " ")
}

} // verus!
