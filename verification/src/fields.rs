//! Field files: their header, dimensions, interior and boundary values.

use crate::dictionary;
use crate::dictionary::{Dialect, Stream, TokenCursor};
use crate::error::{Failure, MeshError};
use crate::sections;
use crate::text;
use vstd::prelude::*;

verus! {

/// The fields of a case at its start.
#[derive(Debug)]
pub struct InitialFieldSet {
    pub case_dir: String,
    pub fields: Vec<FieldFile>,
}

/// A field file, of the case or of one of its regions.
#[derive(Debug)]
pub struct FieldFile {
    pub path: String,
    pub region: Option<String>,
    pub name: String,
    pub class_name: Option<String>,
    pub dimensions: Option<Vec<String>>,
    pub internal_field: Option<FieldValueSummary>,
    pub boundary_patches: Vec<FieldBoundaryPatch>,
}

/// The value of a field in the interior or on a patch.
#[derive(Debug)]
pub enum FieldValueSummary {
    Uniform(String),
    NonUniform { value_type: Option<String>, count: Option<usize> },
    Other(String),
}

/// What a field has on a patch.
#[derive(Debug)]
pub struct FieldBoundaryPatch {
    pub name: String,
    pub patch_type: Option<String>,
    pub value: Option<FieldValueSummary>,
}

/// The mathematical view of a [`FieldValueSummary`].
pub enum ValueView {
    Uniform(Seq<char>),
    NonUniform { value_type: Option<Seq<char>>, count: Option<nat> },
    Other(Seq<char>),
}

/// The mathematical view of a [`FieldBoundaryPatch`].
pub struct PatchView {
    pub name: Seq<char>,
    pub patch_type: Option<Seq<char>>,
    pub value: Option<ValueView>,
}

/// The mathematical view of a [`FieldFile`].
pub struct FieldView {
    pub path: Seq<char>,
    pub region: Option<Seq<char>>,
    pub name: Seq<char>,
    pub class_name: Option<Seq<char>>,
    pub dimensions: Option<Seq<Seq<char>>>,
    pub internal_field: Option<ValueView>,
    pub boundary_patches: Seq<PatchView>,
}

impl View for FieldValueSummary {
    type V = ValueView;

    open spec fn view(&self) -> ValueView {
        match self {
            FieldValueSummary::Uniform(value) => ValueView::Uniform(value@),
            FieldValueSummary::NonUniform { value_type, count } => ValueView::NonUniform {
                value_type: text::opt_text(*value_type),
                count: match count {
                    Some(n) => Some(*n as nat),
                    None => None,
                },
            },
            FieldValueSummary::Other(value) => ValueView::Other(value@),
        }
    }
}

/// The view of an optional value.
pub open spec fn opt_value(value: Option<FieldValueSummary>) -> Option<ValueView> {
    match value {
        Some(inner) => Some(inner@),
        None => None,
    }
}

impl View for FieldBoundaryPatch {
    type V = PatchView;

    open spec fn view(&self) -> PatchView {
        PatchView {
            name: self.name@,
            patch_type: text::opt_text(self.patch_type),
            value: opt_value(self.value),
        }
    }
}

/// The views of the patches of a vector.
pub open spec fn patch_views(patches: Seq<FieldBoundaryPatch>) -> Seq<PatchView> {
    Seq::new(patches.len(), |i: int| patches[i]@)
}

/// The views of an optional list of texts.
pub open spec fn opt_texts(parts: Option<Vec<String>>) -> Option<Seq<Seq<char>>> {
    match parts {
        Some(inner) => Some(text::texts(inner@)),
        None => None,
    }
}

impl View for FieldFile {
    type V = FieldView;

    open spec fn view(&self) -> FieldView {
        FieldView {
            path: self.path@,
            region: text::opt_text(self.region),
            name: self.name@,
            class_name: text::opt_text(self.class_name),
            dimensions: opt_texts(self.dimensions),
            internal_field: opt_value(self.internal_field),
            boundary_patches: patch_views(self.boundary_patches@),
        }
    }
}

/// The first part that denotes a `usize`.
pub open spec fn first_number(parts: Seq<Seq<char>>) -> Option<nat>
    decreases parts.len(),
{
    if parts.len() == 0 {
        None
    } else {
        match text::natural(parts[0], usize::MAX as nat) {
            Some(n) => Some(n),
            None => first_number(parts.skip(1)),
        }
    }
}

/// The value that the tokens describe.
pub open spec fn value_of(tokens: Seq<Seq<char>>) -> ValueView {
    if tokens.len() == 0 {
        ValueView::Other("empty"@)
    } else if tokens[0] == "uniform"@ {
        ValueView::Uniform(sections::value_text(tokens.skip(1)))
    } else if tokens[0] == "nonuniform"@ {
        ValueView::NonUniform {
            value_type: if tokens.len() > 1 {
                Some(tokens[1])
            } else {
                None
            },
            count: first_number(tokens),
        }
    } else {
        ValueView::Other(sections::value_text(tokens))
    }
}

/// The text that is shown for a value.
pub open spec fn shown_value(value: ValueView) -> Seq<char> {
    match value {
        ValueView::Uniform(inner) => "uniform "@ + inner,
        ValueView::NonUniform { value_type, count } => "nonuniform "@ + value_type.unwrap_or(
            "unknown"@,
        ) + " count="@ + (match count {
            Some(n) => text::decimal(n),
            None => "unknown"@,
        }),
        ValueView::Other(inner) => inner,
    }
}

/// The first token of a value.
pub open spec fn first_token(tokens: Seq<Seq<char>>) -> Option<Seq<char>> {
    if tokens.len() > 0 {
        Some(tokens[0])
    } else {
        None
    }
}

/// The class and object that a file header names.
pub struct Header {
    pub class_name: Option<Seq<char>>,
    pub object_name: Option<Seq<char>>,
}

/// The rest of a file header. Every step takes a token.
pub open spec fn header_body(s: Stream, header: Header) -> Result<(Header, Stream), Failure>
    decreases s.left(),
{
    if s.ended() {
        Err(s.eof())
    } else if s.value() == "}"@ {
        Ok((header, s.next()))
    } else {
        let value = s.next().value_tokens(0);
        let rest = s.next().value_end(0);
        let next = if s.value() == "class"@ {
            Header { class_name: first_token(value), ..header }
        } else if s.value() == "object"@ {
            Header { object_name: first_token(value), ..header }
        } else {
            header
        };
        if rest.left() < s.left() {
            header_body(rest, next)
        } else {
            Err(s.eof())
        }
    }
}

/// A file header in braces.
pub open spec fn header_block(s: Stream) -> Result<(Header, Stream), Failure> {
    match s.expect("{"@) {
        Ok(inside) => header_body(inside, Header { class_name: None, object_name: None }),
        Err(failure) => Err(failure),
    }
}

/// The words up to the closing square bracket. Every step takes a token.
pub open spec fn bracket_words(s: Stream, found: Seq<Seq<char>>) -> Result<
    (Seq<Seq<char>>, Stream),
    Failure,
>
    decreases s.left(),
{
    if s.ended() {
        Err(s.eof())
    } else if s.value() == "]"@ {
        Ok((found, s.next().optional(";"@)))
    } else {
        bracket_words(s.next(), found.push(s.value()))
    }
}

/// The dimensions behind their keyword: words in square brackets, or a value.
pub open spec fn dimension_words(s: Stream) -> Result<(Seq<Seq<char>>, Stream), Failure> {
    if s.peeks("["@) {
        bracket_words(s.next(), Seq::empty())
    } else {
        Ok((s.value_tokens(0), s.value_end(0)))
    }
}

/// The rest of the entry of a patch. Every step takes a token.
pub open spec fn patch_body(s: Stream, patch: PatchView) -> Result<(PatchView, Stream), Failure>
    decreases s.left(),
{
    if s.ended() {
        Err(s.eof())
    } else if s.value() == "}"@ {
        Ok((patch, s.next()))
    } else {
        let after = s.next();
        let step = if s.value() == "type"@ {
            Ok(
                (
                    PatchView { patch_type: first_token(after.value_tokens(0)), ..patch },
                    after.value_end(0),
                ),
            )
        } else if s.value() == "value"@ {
            Ok(
                (
                    PatchView { value: Some(value_of(after.value_tokens(0))), ..patch },
                    after.value_end(0),
                ),
            )
        } else {
            match after.skipped() {
                Ok(rest) => Ok((patch, rest)),
                Err(failure) => Err(failure),
            }
        };
        match step {
            Ok((next, rest)) => if rest.left() < s.left() {
                patch_body(rest, next)
            } else {
                Err(s.eof())
            },
            Err(failure) => Err(failure),
        }
    }
}

/// The rest of the patches. Every step takes a token.
pub open spec fn boundary_body(s: Stream, found: Seq<PatchView>) -> Result<
    (Seq<PatchView>, Stream),
    Failure,
>
    decreases s.left(),
{
    if s.ended() {
        Err(s.eof())
    } else if s.value() == "}"@ {
        Ok((found, s.next()))
    } else {
        match s.next().expect("{"@) {
            Ok(inside) => match patch_body(
                inside,
                PatchView { name: s.value(), patch_type: None, value: None },
            ) {
                Ok((patch, rest)) if rest.left() < s.left() => boundary_body(
                    rest,
                    found.push(patch),
                ),
                Ok(_) => Err(s.eof()),
                Err(failure) => Err(failure),
            },
            Err(failure) => Err(failure),
        }
    }
}

/// The patches in braces.
pub open spec fn boundary_block(s: Stream) -> Result<(Seq<PatchView>, Stream), Failure> {
    match s.expect("{"@) {
        Ok(inside) => boundary_body(inside, Seq::empty()),
        Err(failure) => Err(failure),
    }
}

/// What has been read of a field file.
pub struct FieldParts {
    pub header: Header,
    pub dimensions: Option<Seq<Seq<char>>>,
    pub internal_field: Option<ValueView>,
    pub boundary_patches: Seq<PatchView>,
}

/// The failure of a file that closes a brace that was not opened.
pub open spec fn stray_brace(s: Stream) -> Failure {
    Failure::Parse { line: s.tokens[s.at as int].line, message: "unexpected '}'"@ }
}

/// What has been read of a field file after the entry that comes next.
pub open spec fn field_step(s: Stream, parts: FieldParts) -> Result<(FieldParts, Stream), Failure> {
    if s.value() == "FoamFile"@ {
        match header_block(s.next()) {
            Ok((header, rest)) => Ok((FieldParts { header, ..parts }, rest)),
            Err(failure) => Err(failure),
        }
    } else if s.value() == "dimensions"@ {
        match dimension_words(s.next()) {
            Ok((found, rest)) => Ok((FieldParts { dimensions: Some(found), ..parts }, rest)),
            Err(failure) => Err(failure),
        }
    } else if s.value() == "internalField"@ {
        Ok(
            (
                FieldParts {
                    internal_field: Some(value_of(s.next().value_tokens(0))),
                    ..parts
                },
                s.next().value_end(0),
            ),
        )
    } else if s.value() == "boundaryField"@ {
        match boundary_block(s.next()) {
            Ok((boundary_patches, rest)) => Ok((FieldParts { boundary_patches, ..parts }, rest)),
            Err(failure) => Err(failure),
        }
    } else if s.value() == "}"@ {
        Err(stray_brace(s))
    } else {
        match s.skipped() {
            Ok(rest) => Ok((parts, rest)),
            Err(failure) => Err(failure),
        }
    }
}

/// What a field file holds at its end. Every step takes a token.
pub open spec fn field_file(s: Stream, parts: FieldParts) -> Result<FieldParts, Failure>
    decreases s.left(),
{
    if s.ended() {
        Ok(parts)
    } else {
        match field_step(s, parts) {
            Ok((next, rest)) => if rest.left() < s.left() {
                field_file(rest, next)
            } else {
                Err(s.eof())
            },
            Err(failure) => Err(failure),
        }
    }
}

/// What the field file `content` at `path` holds; it is named by its header,
/// or else by its file.
pub open spec fn field_of(
    content: Seq<char>,
    path: Seq<char>,
    region: Option<Seq<char>>,
) -> Result<FieldView, Failure> {
    let none = FieldParts {
        header: Header { class_name: None, object_name: None },
        dimensions: None,
        internal_field: None,
        boundary_patches: Seq::empty(),
    };
    match field_file(Stream { path, tokens: dictionary::tokens(content, Dialect::Square), at: 0 }, none) {
        Ok(parts) => Ok(
            FieldView {
                path,
                region,
                name: match parts.header.object_name {
                    Some(name) => name,
                    None => text::file_name(path).unwrap_or("unknown"@),
                },
                class_name: parts.header.class_name,
                dimensions: parts.dimensions,
                internal_field: parts.internal_field,
                boundary_patches: parts.boundary_patches,
            },
        ),
        Err(failure) => Err(failure),
    }
}

impl FieldValueSummary {
    /// The text that is shown for the value.
    pub fn to_string(&self) -> (out: String)
        ensures
            out@ == shown_value(self@),
    {
        match self {
            FieldValueSummary::Uniform(value) => {
                let mut out = "uniform ".to_string();
                out.append(value.as_str());
                out
            },
            FieldValueSummary::NonUniform { value_type, count } => {
                let mut out = "nonuniform ".to_string();
                match value_type {
                    Some(name) => {
                        out.append(name.as_str());
                    },
                    None => {
                        out.append("unknown");
                    },
                }
                out.append(" count=");
                match count {
                    Some(n) => {
                        out.append(text::number_text(*n).as_str());
                    },
                    None => {
                        out.append("unknown");
                    },
                }
                out
            },
            FieldValueSummary::Other(value) => value.clone(),
        }
    }
}

fn find_count(parts: &Vec<String>) -> (count: Option<usize>)
    ensures
        match count {
            Some(n) => first_number(text::texts(parts@)) == Some(n as nat),
            None => first_number(text::texts(parts@)) is None,
        },
{
    let ghost all = text::texts(parts@);
    let mut i: usize = 0;
    assert(all.skip(0) =~= all);
    while i < parts.len()
        invariant
            i <= parts@.len(),
            all == text::texts(parts@),
            first_number(all.skip(i as int)) == first_number(all),
        decreases parts@.len() - i,
    {
        assert(all.skip(i as int).skip(1) =~= all.skip(i + 1));
        match text::read_usize(parts[i].as_str()) {
            Some(n) => {
                return Some(n);
            },
            None => {},
        }
        i += 1;
    }
    None
}

fn take_first(values: &Vec<String>) -> (first: Option<String>)
    ensures
        text::opt_text(first) == first_token(text::texts(values@)),
{
    if values.is_empty() {
        None
    } else {
        Some(values[0].clone())
    }
}

/// The value that the tokens describe.
pub fn parse_field_value_tokens(tokens: Vec<String>) -> (value: FieldValueSummary)
    ensures
        value@ == value_of(text::texts(tokens@)),
{
    if tokens.is_empty() {
        return FieldValueSummary::Other("empty".to_string());
    }
    if text::text_eq(tokens[0].as_str(), "uniform") {
        let mut rest: Vec<String> = Vec::new();
        let mut i: usize = 1;
        while i < tokens.len()
            invariant
                1 <= i <= tokens@.len(),
                text::texts(rest@) == text::texts(tokens@).subrange(1, i as int),
            decreases tokens@.len() - i,
        {
            let ghost earlier = text::texts(rest@);
            rest.push(tokens[i].clone());
            assert(text::texts(rest@) =~= earlier.push(tokens@[i as int]@));
            i += 1;
        }
        assert(text::texts(rest@) =~= text::texts(tokens@).skip(1));
        FieldValueSummary::Uniform(sections::format_value(&rest))
    } else if text::text_eq(tokens[0].as_str(), "nonuniform") {
        let value_type = if tokens.len() > 1 {
            Some(tokens[1].clone())
        } else {
            None
        };
        FieldValueSummary::NonUniform { value_type, count: find_count(&tokens) }
    } else {
        FieldValueSummary::Other(sections::format_value(&tokens))
    }
}

/// The class and object of a header.
struct FoamFileMetadata {
    class_name: Option<String>,
    object_name: Option<String>,
}

impl View for FoamFileMetadata {
    type V = Header;

    closed spec fn view(&self) -> Header {
        Header {
            class_name: text::opt_text(self.class_name),
            object_name: text::opt_text(self.object_name),
        }
    }
}

fn parse_foam_file(cursor: &mut TokenCursor) -> (result: Result<FoamFileMetadata, MeshError>)
    requires
        old(cursor)@.valid(),
    ensures
        match result {
            Ok(header) => dictionary::yields(
                header_block(old(cursor)@),
                header@,
                final(cursor)@,
            ),
            Err(error) => dictionary::fails(header_block(old(cursor)@), error),
        },
        final(cursor)@.follows(old(cursor)@),
{
    cursor.expect("{")?;
    let mut header = FoamFileMetadata { class_name: None, object_name: None };
    loop
        invariant
            cursor@.follows(old(cursor)@),
            header_body(cursor@, header@) == header_block(old(cursor)@),
        ensures
            cursor@.peeks("}"@),
        decreases cursor@.left(),
    {
        if cursor.peek_is("}")? {
            break ;
        }
        let key = cursor.next_required()?;
        let value = cursor.read_value_until_semicolon()?;
        if text::text_eq(key.as_str(), "class") {
            header.class_name = take_first(&value);
        } else if text::text_eq(key.as_str(), "object") {
            header.object_name = take_first(&value);
        }
    }
    cursor.expect("}")?;
    Ok(header)
}

fn parse_dimensions(cursor: &mut TokenCursor) -> (result: Result<Vec<String>, MeshError>)
    requires
        old(cursor)@.valid(),
    ensures
        match result {
            Ok(found) => dictionary::yields(
                dimension_words(old(cursor)@),
                text::texts(found@),
                final(cursor)@,
            ),
            Err(error) => dictionary::fails(dimension_words(old(cursor)@), error),
        },
        final(cursor)@.follows(old(cursor)@),
{
    if !cursor.at("[") {
        return cursor.read_value_until_semicolon();
    }
    cursor.expect("[")?;
    let mut values: Vec<String> = Vec::new();
    assert(text::texts(values@) =~= Seq::empty());
    loop
        invariant
            cursor@.follows(old(cursor)@),
            bracket_words(cursor@, text::texts(values@)) == dimension_words(old(cursor)@),
        ensures
            cursor@.peeks("]"@),
        decreases cursor@.left(),
    {
        if cursor.peek_is("]")? {
            break ;
        }
        let value = cursor.next_required()?;
        let ghost earlier = text::texts(values@);
        values.push(value);
        assert(text::texts(values@) =~= earlier.push(value@));
    }
    cursor.expect("]")?;
    cursor.expect_optional(";")?;
    Ok(values)
}

fn parse_boundary_patch(cursor: &mut TokenCursor, name: String) -> (result: Result<
    FieldBoundaryPatch,
    MeshError,
>)
    requires
        old(cursor)@.valid(),
    ensures
        match result {
            Ok(patch) => dictionary::yields(
                patch_body(
                    old(cursor)@,
                    PatchView { name: name@, patch_type: None, value: None },
                ),
                patch@,
                final(cursor)@,
            ),
            Err(error) => dictionary::fails(
                patch_body(
                    old(cursor)@,
                    PatchView { name: name@, patch_type: None, value: None },
                ),
                error,
            ),
        },
        final(cursor)@.follows(old(cursor)@),
{
    let mut patch = FieldBoundaryPatch { name, patch_type: None, value: None };
    let ghost none = patch@;
    loop
        invariant
            cursor@.follows(old(cursor)@),
            none == (PatchView { name: name@, patch_type: None, value: None }),
            patch_body(cursor@, patch@) == patch_body(old(cursor)@, none),
        ensures
            cursor@.peeks("}"@),
        decreases cursor@.left(),
    {
        if cursor.peek_is("}")? {
            break ;
        }
        let key = cursor.next_required()?;
        if text::text_eq(key.as_str(), "type") {
            let value = cursor.read_value_until_semicolon()?;
            patch.patch_type = take_first(&value);
        } else if text::text_eq(key.as_str(), "value") {
            let value = cursor.read_value_until_semicolon()?;
            patch.value = Some(parse_field_value_tokens(value));
        } else {
            cursor.skip_value_or_block()?;
        }
    }
    cursor.expect("}")?;
    Ok(patch)
}

fn parse_boundary_field(cursor: &mut TokenCursor) -> (result: Result<
    Vec<FieldBoundaryPatch>,
    MeshError,
>)
    requires
        old(cursor)@.valid(),
    ensures
        match result {
            Ok(found) => dictionary::yields(
                boundary_block(old(cursor)@),
                patch_views(found@),
                final(cursor)@,
            ),
            Err(error) => dictionary::fails(boundary_block(old(cursor)@), error),
        },
        final(cursor)@.follows(old(cursor)@),
{
    cursor.expect("{")?;
    let mut patches: Vec<FieldBoundaryPatch> = Vec::new();
    assert(patch_views(patches@) =~= Seq::empty());
    loop
        invariant
            cursor@.follows(old(cursor)@),
            boundary_body(cursor@, patch_views(patches@)) == boundary_block(old(cursor)@),
        ensures
            cursor@.peeks("}"@),
        decreases cursor@.left(),
    {
        if cursor.peek_is("}")? {
            break ;
        }
        let name = cursor.next_required()?;
        cursor.expect("{")?;
        let patch = parse_boundary_patch(cursor, name)?;
        let ghost earlier = patch_views(patches@);
        patches.push(patch);
        assert(patch_views(patches@) =~= earlier.push(patch@));
    }
    cursor.expect("}")?;
    Ok(patches)
}

/// A field file that is being read.
struct FieldBuilder {
    header: FoamFileMetadata,
    dimensions: Option<Vec<String>>,
    internal_field: Option<FieldValueSummary>,
    boundary_patches: Vec<FieldBoundaryPatch>,
}

impl View for FieldBuilder {
    type V = FieldParts;

    closed spec fn view(&self) -> FieldParts {
        FieldParts {
            header: self.header@,
            dimensions: opt_texts(self.dimensions),
            internal_field: opt_value(self.internal_field),
            boundary_patches: patch_views(self.boundary_patches@),
        }
    }
}

fn parse_field_entry(cursor: &mut TokenCursor, builder: &mut FieldBuilder) -> (result: Result<
    (),
    MeshError,
>)
    requires
        old(cursor)@.valid(),
        !old(cursor)@.ended(),
    ensures
        match result {
            Ok(_) => dictionary::yields(
                field_step(old(cursor)@, old(builder)@),
                final(builder)@,
                final(cursor)@,
            ),
            Err(error) => dictionary::fails(field_step(old(cursor)@, old(builder)@), error),
        },
        final(cursor)@.follows(old(cursor)@),
        result is Ok ==> old(cursor)@.at < final(cursor)@.at,
{
    if cursor.at("FoamFile") {
        cursor.next_required()?;
        builder.header = parse_foam_file(cursor)?;
    } else if cursor.at("dimensions") {
        cursor.next_required()?;
        builder.dimensions = Some(parse_dimensions(cursor)?);
    } else if cursor.at("internalField") {
        cursor.next_required()?;
        let value = cursor.read_value_until_semicolon()?;
        builder.internal_field = Some(parse_field_value_tokens(value));
    } else if cursor.at("boundaryField") {
        cursor.next_required()?;
        builder.boundary_patches = parse_boundary_field(cursor)?;
    } else if cursor.at("}") {
        return Err(
            MeshError::Parse { line: cursor.line(), message: "unexpected '}'".to_string() },
        );
    } else {
        cursor.skip_value_or_block()?;
    }
    Ok(())
}

/// The field file `content` at `path`.
pub fn parse_field_file_str(content: &str, path: &str, region: Option<String>) -> (result: Result<
    FieldFile,
    MeshError,
>)
    ensures
        match result {
            Ok(field) => dictionary::gives(
                field_of(content@, path@, text::opt_text(region)),
                field@,
            ),
            Err(error) => dictionary::fails(
                field_of(content@, path@, text::opt_text(region)),
                error,
            ),
        },
{
    let tokens = dictionary::tokenize(content);
    let mut cursor = TokenCursor::new(path, tokens);
    let ghost start = cursor@;
    let mut builder = FieldBuilder {
        header: FoamFileMetadata { class_name: None, object_name: None },
        dimensions: None,
        internal_field: None,
        boundary_patches: Vec::new(),
    };
    let ghost none = builder@;
    assert(patch_views(builder.boundary_patches@) =~= Seq::empty());
    while cursor.peek().is_some()
        invariant
            cursor@.valid(),
            start == (Stream { path: path@, tokens: dictionary::tokens(content@, Dialect::Square), at: 0 }),
            none == (FieldParts {
                header: Header { class_name: None, object_name: None },
                dimensions: None,
                internal_field: None,
                boundary_patches: Seq::empty(),
            }),
            cursor@.follows(start),
            field_file(cursor@, builder@) == field_file(start, none),
        decreases cursor@.left(),
    {
        parse_field_entry(&mut cursor, &mut builder)?;
    }
    let name = match builder.header.object_name {
        Some(name) => name,
        None => match text::name_of(path) {
            Some(name) => name,
            None => "unknown".to_string(),
        },
    };
    Ok(
        FieldFile {
            path: path.to_string(),
            region,
            name,
            class_name: builder.header.class_name,
            dimensions: builder.dimensions,
            internal_field: builder.internal_field,
            boundary_patches: builder.boundary_patches,
        },
    )
}

} // verus!
