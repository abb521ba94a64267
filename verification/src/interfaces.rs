//! The interfaces between regions that a case configures.

use crate::dictionary;
use crate::dictionary::{Dialect, Stream, TokenCursor};
use crate::error::{Failure, MeshError};
use crate::regions;
use crate::regions::{InterfaceRegistrySummary, InterfaceSummary, InterfaceView};
use crate::text;
use vstd::prelude::*;

verus! {

/// `constant/interfaces`.
#[derive(Debug)]
pub struct InterfaceConfig {
    pub path: String,
    pub entries: Vec<InterfaceConfigEntry>,
}

/// One interface: its two regions, the face zone between them, the direction
/// that counts as positive, and its model.
#[derive(Debug)]
pub struct InterfaceConfigEntry {
    pub name: String,
    pub regions: [String; 2],
    pub face_zone: String,
    pub orientation: InterfaceOrientation,
    pub model: String,
}

/// The regions that a positive flux leaves and enters.
#[derive(Debug)]
pub struct InterfaceOrientation {
    pub positive_from: String,
    pub positive_to: String,
}

/// The configured interfaces against those of the mesh.
#[derive(Debug)]
pub struct InterfaceConfigValidation {
    pub entries: Vec<ValidatedInterfaceConfigEntry>,
    pub warnings: Vec<String>,
}

/// A configured interface and the number of its faces where the mesh has it.
#[derive(Debug)]
pub struct ValidatedInterfaceConfigEntry {
    pub name: String,
    pub face_zone: String,
    pub positive_from: String,
    pub positive_to: String,
    pub model: String,
    pub mesh_faces: Option<usize>,
}

/// The mathematical view of an [`InterfaceConfigEntry`].
pub struct EntryView {
    pub name: Seq<char>,
    pub first: Seq<char>,
    pub second: Seq<char>,
    pub face_zone: Seq<char>,
    pub positive_from: Seq<char>,
    pub positive_to: Seq<char>,
    pub model: Seq<char>,
}

/// The mathematical view of a [`ValidatedInterfaceConfigEntry`].
pub struct ValidatedView {
    pub name: Seq<char>,
    pub face_zone: Seq<char>,
    pub positive_from: Seq<char>,
    pub positive_to: Seq<char>,
    pub model: Seq<char>,
    pub mesh_faces: Option<usize>,
}

impl View for InterfaceConfigEntry {
    type V = EntryView;

    open spec fn view(&self) -> EntryView {
        EntryView {
            name: self.name@,
            first: self.regions@[0]@,
            second: self.regions@[1]@,
            face_zone: self.face_zone@,
            positive_from: self.orientation.positive_from@,
            positive_to: self.orientation.positive_to@,
            model: self.model@,
        }
    }
}

impl View for ValidatedInterfaceConfigEntry {
    type V = ValidatedView;

    open spec fn view(&self) -> ValidatedView {
        ValidatedView {
            name: self.name@,
            face_zone: self.face_zone@,
            positive_from: self.positive_from@,
            positive_to: self.positive_to@,
            model: self.model@,
            mesh_faces: self.mesh_faces,
        }
    }
}

/// The views of the entries of a vector.
pub open spec fn entry_views(entries: Seq<InterfaceConfigEntry>) -> Seq<EntryView> {
    Seq::new(entries.len(), |i: int| entries[i]@)
}

/// What has been read of an entry.
pub struct EntryParts {
    pub regions: Option<(Seq<char>, Seq<char>)>,
    pub face_zone: Option<Seq<char>>,
    pub orientation: Option<Seq<char>>,
    pub model: Option<Seq<char>>,
}

/// The word for the direction from one region to another.
pub open spec fn direction(from: Seq<char>, to: Seq<char>) -> Seq<char> {
    from + "_to_"@ + to
}

/// The regions that a positive flux leaves and enters.
pub open spec fn oriented(
    value: Seq<char>,
    first: Seq<char>,
    second: Seq<char>,
    path: Seq<char>,
) -> Result<(Seq<char>, Seq<char>), Failure> {
    if value == direction(first, second) {
        Ok((first, second))
    } else if value == direction(second, first) {
        Ok((second, first))
    } else {
        Err(
            Failure::InvalidInput(
                "orientation '"@ + value + "' in "@ + path + " must be '"@ + direction(
                    first,
                    second,
                ) + "' or '"@ + direction(second, first) + "'"@,
            ),
        )
    }
}

/// The direction of an orientation, from its first region to its second, is
/// the word that was given.
pub proof fn orientation_is_the_given_direction(
    value: Seq<char>,
    first: Seq<char>,
    second: Seq<char>,
    path: Seq<char>,
)
    ensures
        oriented(value, first, second, path) matches Ok((from, to)) ==> direction(from, to)
            == value,
        oriented(direction(first, second), first, second, path) == Ok::<
            (Seq<char>, Seq<char>),
            Failure,
        >((first, second)),
{
}

/// Whether both given directions are accepted does not depend on the order in
/// which the two regions are listed.
pub proof fn orientation_ignores_region_order(
    value: Seq<char>,
    first: Seq<char>,
    second: Seq<char>,
    path: Seq<char>,
)
    ensures
        oriented(value, first, second, path) is Ok <==> oriented(value, second, first, path) is Ok,
{
}

/// The failure of an entry without one of its keywords.
pub open spec fn missing(path: Seq<char>, entry: Seq<char>, key: Seq<char>) -> Failure {
    Failure::InvalidInput("missing '"@ + key + "' in interface '"@ + entry + "' in "@ + path)
}

/// The words up to the closing bracket. Every step takes a token.
pub open spec fn region_words(s: Stream, found: Seq<Seq<char>>) -> Result<
    (Seq<Seq<char>>, Stream),
    Failure,
>
    decreases s.left(),
{
    if s.ended() {
        Err(s.eof())
    } else if s.value() == ")"@ {
        Ok((found, s.next().optional(";"@)))
    } else {
        region_words(s.next(), found.push(s.value()))
    }
}

/// A list of two regions.
pub open spec fn region_pair(s: Stream) -> Result<((Seq<char>, Seq<char>), Stream), Failure> {
    match s.expect("("@) {
        Ok(inside) => match region_words(inside, Seq::empty()) {
            Ok((found, rest)) => if found.len() == 2 {
                Ok(((found[0], found[1]), rest))
            } else {
                Err(
                    Failure::InvalidInput(
                        "regions must contain exactly two entries in "@ + s.path,
                    ),
                )
            },
            Err(failure) => Err(failure),
        },
        Err(failure) => Err(failure),
    }
}

/// The stream after the value or block of a keyword that is not known.
pub open spec fn passed_over(s: Stream) -> Result<Stream, Failure>
    decreases s.left(),
{
    if s.ended() {
        Ok(s)
    } else if s.value() == "{"@ {
        s.block_end()
    } else if s.value() == ";"@ {
        Ok(s.next())
    } else if s.value() == "}"@ {
        Ok(s)
    } else {
        passed_over(s.next())
    }
}

/// A word and the semicolon behind it.
pub open spec fn word_value(s: Stream) -> Result<(Seq<char>, Stream), Failure> {
    if s.ended() {
        Err(s.eof())
    } else {
        Ok((s.value(), s.next().optional(";"@)))
    }
}

/// What has been read of an entry after the keyword that comes next.
pub open spec fn entry_step(s: Stream, parts: EntryParts) -> Result<(EntryParts, Stream), Failure> {
    let after = s.next();
    if s.value() == "regions"@ {
        match region_pair(after) {
            Ok((pair, rest)) => Ok((EntryParts { regions: Some(pair), ..parts }, rest)),
            Err(failure) => Err(failure),
        }
    } else if s.value() == "faceZone"@ {
        match word_value(after) {
            Ok((word, rest)) => Ok((EntryParts { face_zone: Some(word), ..parts }, rest)),
            Err(failure) => Err(failure),
        }
    } else if s.value() == "orientation"@ {
        match word_value(after) {
            Ok((word, rest)) => Ok((EntryParts { orientation: Some(word), ..parts }, rest)),
            Err(failure) => Err(failure),
        }
    } else if s.value() == "model"@ {
        match word_value(after) {
            Ok((word, rest)) => Ok((EntryParts { model: Some(word), ..parts }, rest)),
            Err(failure) => Err(failure),
        }
    } else {
        match passed_over(after) {
            Ok(rest) => Ok((parts, rest)),
            Err(failure) => Err(failure),
        }
    }
}

/// What the rest of an entry holds. Every step takes a token.
pub open spec fn entry_parts(s: Stream, parts: EntryParts) -> Result<(EntryParts, Stream), Failure>
    decreases s.left(),
{
    if s.ended() {
        Err(s.eof())
    } else if s.value() == "}"@ {
        Ok((parts, s.next()))
    } else {
        match entry_step(s, parts) {
            Ok((next, rest)) if rest.left() < s.left() => entry_parts(rest, next),
            Ok(_) => Err(s.eof()),
            Err(failure) => Err(failure),
        }
    }
}

/// The entry that has these parts.
pub open spec fn entry_of(name: Seq<char>, parts: EntryParts, path: Seq<char>) -> Result<
    EntryView,
    Failure,
> {
    if parts.regions is None {
        Err(missing(path, name, "regions"@))
    } else if parts.orientation is None {
        Err(missing(path, name, "orientation"@))
    } else {
        let (first, second) = parts.regions->0;
        match oriented(parts.orientation->0, first, second, path) {
            Ok((positive_from, positive_to)) => if parts.face_zone is None {
                Err(missing(path, name, "faceZone"@))
            } else {
                Ok(
                    EntryView {
                        name,
                        first,
                        second,
                        face_zone: parts.face_zone->0,
                        positive_from,
                        positive_to,
                        model: parts.model.unwrap_or("none"@),
                    },
                )
            },
            Err(failure) => Err(failure),
        }
    }
}

/// The entry of which the opening brace has been taken.
pub open spec fn interface_entry(s: Stream, name: Seq<char>) -> Result<
    (EntryView, Stream),
    Failure,
> {
    let none = EntryParts { regions: None, face_zone: None, orientation: None, model: None };
    match entry_parts(s, none) {
        Ok((parts, rest)) => match entry_of(name, parts, s.path) {
            Ok(entry) => Ok((entry, rest)),
            Err(failure) => Err(failure),
        },
        Err(failure) => Err(failure),
    }
}

/// The rest of the entries of an `interfaces` block. Every step takes a token.
pub open spec fn interface_block(s: Stream, found: Seq<EntryView>) -> Result<
    (Seq<EntryView>, Stream),
    Failure,
>
    decreases s.left(),
{
    if s.ended() {
        Err(s.eof())
    } else if s.value() == "}"@ {
        Ok((found, s.next()))
    } else {
        match s.next().expect("{"@) {
            Ok(inside) => match interface_entry(inside, s.value()) {
                Ok((entry, rest)) if rest.left() < s.left() => interface_block(
                    rest,
                    found.push(entry),
                ),
                Ok(_) => Err(s.eof()),
                Err(failure) => Err(failure),
            },
            Err(failure) => Err(failure),
        }
    }
}

/// The entries of the last `interfaces` block of a file. Every step takes a
/// token.
pub open spec fn interface_file(s: Stream, found: Seq<EntryView>) -> Result<
    Seq<EntryView>,
    Failure,
>
    decreases s.left(),
{
    if s.ended() {
        Ok(found)
    } else if s.value() == "FoamFile"@ {
        match s.next().block_end() {
            Ok(rest) if rest.left() < s.left() => interface_file(rest, found),
            Ok(_) => Err(s.eof()),
            Err(failure) => Err(failure),
        }
    } else if s.value() == "interfaces"@ {
        match s.next().expect("{"@) {
            Ok(inside) => match interface_block(inside, Seq::empty()) {
                Ok((entries, rest)) if rest.left() < s.left() => interface_file(rest, entries),
                Ok(_) => Err(s.eof()),
                Err(failure) => Err(failure),
            },
            Err(failure) => Err(failure),
        }
    } else {
        interface_file(s.next(), found)
    }
}

/// What the file `content` at `path` configures; square brackets belong to
/// words there.
pub open spec fn interface_config(content: Seq<char>, path: Seq<char>) -> Result<
    Seq<EntryView>,
    Failure,
> {
    interface_file(
        Stream { path, tokens: dictionary::tokens(content, Dialect::Round), at: 0 },
        Seq::empty(),
    )
}

/// Whether two regions are the pair of an entry, in either order.
pub open spec fn same_pair(
    left: Seq<char>,
    right: Seq<char>,
    first: Seq<char>,
    second: Seq<char>,
) -> bool {
    (left == first && right == second) || (left == second && right == first)
}

/// The first interface of the mesh with this name, between these regions where
/// `paired`.
pub open spec fn mesh_interface(
    interfaces: Seq<InterfaceView>,
    entry: EntryView,
    paired: bool,
) -> Option<InterfaceView>
    decreases interfaces.len(),
{
    if interfaces.len() == 0 {
        None
    } else {
        match mesh_interface(interfaces.drop_last(), entry, paired) {
            Some(found) => Some(found),
            None => {
                let last = interfaces.last();
                if last.name == entry.face_zone && (paired ==> same_pair(
                    last.region_a,
                    last.region_b,
                    entry.first,
                    entry.second,
                )) {
                    Some(last)
                } else {
                    None
                }
            },
        }
    }
}

/// The region of the first boundary face zone with this name.
pub open spec fn boundary_region(
    zones: Seq<(Seq<char>, Seq<char>)>,
    name: Seq<char>,
) -> Option<Seq<char>>
    decreases zones.len(),
{
    if zones.len() == 0 {
        None
    } else {
        match boundary_region(zones.drop_last(), name) {
            Some(region) => Some(region),
            None => if zones.last().0 == name {
                Some(zones.last().1)
            } else {
                None
            },
        }
    }
}

/// A configured entry against the mesh.
pub open spec fn validated(interfaces: Seq<InterfaceView>, entry: EntryView) -> ValidatedView {
    ValidatedView {
        name: entry.name,
        face_zone: entry.face_zone,
        positive_from: entry.positive_from,
        positive_to: entry.positive_to,
        model: entry.model,
        mesh_faces: match mesh_interface(interfaces, entry, true) {
            Some(found) => Some(found.faces),
            None => None,
        },
    }
}

/// The warning about an entry that the mesh does not have as configured.
pub open spec fn entry_warnings(
    interfaces: Seq<InterfaceView>,
    zones: Seq<(Seq<char>, Seq<char>)>,
    entry: EntryView,
) -> Seq<Seq<char>> {
    if mesh_interface(interfaces, entry, true) is Some {
        Seq::empty()
    } else {
        let head = "interface '"@ + entry.name;
        match mesh_interface(interfaces, entry, false) {
            Some(found) => seq![
                head + "' references faceZone '"@ + entry.face_zone + "' for regions "@
                    + entry.first + "<->"@ + entry.second + ", but mesh has "@ + found.region_a
                    + "<->"@ + found.region_b,
            ],
            None => match boundary_region(zones, entry.face_zone) {
                Some(region) => seq![
                    head + "' references boundary faceZone '"@ + entry.face_zone + "' on region '"@
                        + region + "'"@,
                ],
                None => seq![
                    head + "' references missing faceZone '"@ + entry.face_zone + "'"@,
                ],
            },
        }
    }
}

/// The warnings about the entries, one after the other.
pub open spec fn config_warnings(
    interfaces: Seq<InterfaceView>,
    zones: Seq<(Seq<char>, Seq<char>)>,
    entries: Seq<EntryView>,
) -> Seq<Seq<char>>
    decreases entries.len(),
{
    if entries.len() == 0 {
        Seq::empty()
    } else {
        config_warnings(interfaces, zones, entries.drop_last()) + entry_warnings(
            interfaces,
            zones,
            entries.last(),
        )
    }
}

/// An entry is warned about exactly if the mesh has no faces for it, and then
/// once.
pub proof fn warned_iff_not_matched(
    interfaces: Seq<InterfaceView>,
    zones: Seq<(Seq<char>, Seq<char>)>,
    entry: EntryView,
)
    ensures
        entry_warnings(interfaces, zones, entry).len() == (if validated(
            interfaces,
            entry,
        ).mesh_faces is None {
            1nat
        } else {
            0nat
        }),
{
}

/// The order in which an entry lists its regions makes no difference to the
/// faces that the mesh has for it.
pub proof fn region_order_is_immaterial(interfaces: Seq<InterfaceView>, entry: EntryView)
    ensures
        validated(interfaces, entry).mesh_faces == validated(
            interfaces,
            EntryView { first: entry.second, second: entry.first, ..entry },
        ).mesh_faces,
{
    lemma_pair_order(interfaces, entry);
}

proof fn lemma_pair_order(interfaces: Seq<InterfaceView>, entry: EntryView)
    ensures
        mesh_interface(interfaces, entry, true) == mesh_interface(
            interfaces,
            EntryView { first: entry.second, second: entry.first, ..entry },
            true,
        ),
    decreases interfaces.len(),
{
    if interfaces.len() > 0 {
        lemma_pair_order(interfaces.drop_last(), entry);
    }
}

fn missing_key(path: &str, entry: &str, key: &str) -> (error: MeshError)
    ensures
        error@ == missing(path@, entry@, key@),
{
    let mut message = "missing '".to_string();
    message.append(key);
    message.append("' in interface '");
    message.append(entry);
    message.append("' in ");
    message.append(path);
    MeshError::InvalidInput(message)
}

fn read_regions(cursor: &mut TokenCursor) -> (result: Result<[String; 2], MeshError>)
    requires
        old(cursor)@.valid(),
    ensures
        match result {
            Ok(pair) => dictionary::yields(
                region_pair(old(cursor)@),
                (pair@[0]@, pair@[1]@),
                final(cursor)@,
            ),
            Err(error) => dictionary::fails(region_pair(old(cursor)@), error),
        },
        final(cursor)@.follows(old(cursor)@),
{
    let ghost s = cursor@;
    cursor.expect("(")?;
    let ghost inside = cursor@;
    let mut values: Vec<String> = Vec::new();
    assert(text::texts(values@) =~= Seq::empty());
    loop
        invariant
            s == old(cursor)@,
            cursor@.follows(s),
            s.expect("("@) == Ok::<Stream, Failure>(inside),
            region_words(cursor@, text::texts(values@)) == region_words(inside, Seq::empty()),
        ensures
            cursor@.peeks(")"@),
        decreases cursor@.left(),
    {
        if cursor.peek_is(")")? {
            break ;
        }
        let value = cursor.next_required()?;
        let ghost earlier = text::texts(values@);
        values.push(value);
        assert(text::texts(values@) =~= earlier.push(value@));
    }
    cursor.expect(")")?;
    cursor.expect_optional(";")?;
    if values.len() != 2 {
        let mut message = "regions must contain exactly two entries in ".to_string();
        message.append(cursor.path());
        return Err(MeshError::InvalidInput(message));
    }
    Ok([values[0].clone(), values[1].clone()])
}

fn direction_text(from: &str, to: &str) -> (out: String)
    ensures
        out@ == direction(from@, to@),
{
    let mut out = from.to_string();
    out.append("_to_");
    out.append(to);
    out
}

fn parse_orientation(value: &str, pair: &[String; 2], path: &str) -> (result: Result<
    InterfaceOrientation,
    MeshError,
>)
    ensures
        match result {
            Ok(orientation) => dictionary::gives(
                oriented(value@, pair@[0]@, pair@[1]@, path@),
                (orientation.positive_from@, orientation.positive_to@),
            ),
            Err(error) => dictionary::fails(
                oriented(value@, pair@[0]@, pair@[1]@, path@),
                error,
            ),
        },
{
    let first_to_second = direction_text(pair[0].as_str(), pair[1].as_str());
    if text::text_eq(value, first_to_second.as_str()) {
        return Ok(
            InterfaceOrientation { positive_from: pair[0].clone(), positive_to: pair[1].clone() },
        );
    }
    let second_to_first = direction_text(pair[1].as_str(), pair[0].as_str());
    if text::text_eq(value, second_to_first.as_str()) {
        return Ok(
            InterfaceOrientation { positive_from: pair[1].clone(), positive_to: pair[0].clone() },
        );
    }
    let mut message = "orientation '".to_string();
    message.append(value);
    message.append("' in ");
    message.append(path);
    message.append(" must be '");
    message.append(first_to_second.as_str());
    message.append("' or '");
    message.append(second_to_first.as_str());
    message.append("'");
    Err(MeshError::InvalidInput(message))
}

fn pass_over(cursor: &mut TokenCursor) -> (result: Result<(), MeshError>)
    requires
        old(cursor)@.valid(),
    ensures
        match result {
            Ok(_) => dictionary::gives(passed_over(old(cursor)@), final(cursor)@),
            Err(error) => dictionary::fails(passed_over(old(cursor)@), error),
        },
        final(cursor)@.follows(old(cursor)@),
{
    while cursor.peek().is_some()
        invariant
            cursor@.follows(old(cursor)@),
            passed_over(cursor@) == passed_over(old(cursor)@),
        decreases cursor@.left(),
    {
        if cursor.at("{") {
            return cursor.skip_braced_block();
        }
        if cursor.at("}") {
            proof {
                reveal_strlit("{");
                reveal_strlit("}");
                reveal_strlit(";");
                assert("}"@[0] != ";"@[0]);
                assert("}"@[0] != "{"@[0]);
            }
            return Ok(());
        }
        let token = cursor.next_required()?;
        if text::text_eq(token.as_str(), ";") {
            return Ok(());
        }
    }
    Ok(())
}

fn read_word(cursor: &mut TokenCursor) -> (result: Result<String, MeshError>)
    requires
        old(cursor)@.valid(),
    ensures
        match result {
            Ok(word) => dictionary::yields(word_value(old(cursor)@), word@, final(cursor)@),
            Err(error) => dictionary::fails(word_value(old(cursor)@), error),
        },
        final(cursor)@.follows(old(cursor)@),
{
    let word = cursor.next_required()?;
    cursor.expect_optional(";")?;
    Ok(word)
}

/// An entry that is being read.
struct EntryBuilder {
    regions: Option<[String; 2]>,
    face_zone: Option<String>,
    orientation: Option<String>,
    model: Option<String>,
}

impl View for EntryBuilder {
    type V = EntryParts;

    closed spec fn view(&self) -> EntryParts {
        EntryParts {
            regions: match self.regions {
                Some(pair) => Some((pair@[0]@, pair@[1]@)),
                None => None,
            },
            face_zone: text::opt_text(self.face_zone),
            orientation: text::opt_text(self.orientation),
            model: text::opt_text(self.model),
        }
    }
}

fn read_part(cursor: &mut TokenCursor, builder: &mut EntryBuilder) -> (result: Result<
    (),
    MeshError,
>)
    requires
        old(cursor)@.valid(),
        !old(cursor)@.ended(),
    ensures
        match result {
            Ok(_) => dictionary::yields(
                entry_step(old(cursor)@, old(builder)@),
                final(builder)@,
                final(cursor)@,
            ),
            Err(error) => dictionary::fails(entry_step(old(cursor)@, old(builder)@), error),
        },
        final(cursor)@.follows(old(cursor)@),
        old(cursor)@.at < final(cursor)@.at,
{
    let key = cursor.next_required()?;
    if text::text_eq(key.as_str(), "regions") {
        builder.regions = Some(read_regions(cursor)?);
    } else if text::text_eq(key.as_str(), "faceZone") {
        builder.face_zone = Some(read_word(cursor)?);
    } else if text::text_eq(key.as_str(), "orientation") {
        builder.orientation = Some(read_word(cursor)?);
    } else if text::text_eq(key.as_str(), "model") {
        builder.model = Some(read_word(cursor)?);
    } else {
        pass_over(cursor)?;
    }
    Ok(())
}

fn finish_entry(name: String, builder: EntryBuilder, path: &str) -> (result: Result<
    InterfaceConfigEntry,
    MeshError,
>)
    ensures
        match result {
            Ok(entry) => dictionary::gives(entry_of(name@, builder@, path@), entry@),
            Err(error) => dictionary::fails(entry_of(name@, builder@, path@), error),
        },
{
    let pair = match builder.regions {
        Some(pair) => pair,
        None => {
            return Err(missing_key(path, name.as_str(), "regions"));
        },
    };
    let raw = match builder.orientation {
        Some(raw) => raw,
        None => {
            return Err(missing_key(path, name.as_str(), "orientation"));
        },
    };
    let orientation = parse_orientation(raw.as_str(), &pair, path)?;
    let face_zone = match builder.face_zone {
        Some(zone) => zone,
        None => {
            return Err(missing_key(path, name.as_str(), "faceZone"));
        },
    };
    let model = match builder.model {
        Some(model) => model,
        None => "none".to_string(),
    };
    Ok(InterfaceConfigEntry { name, regions: pair, face_zone, orientation, model })
}

fn parse_interface_entry(cursor: &mut TokenCursor, name: String) -> (result: Result<
    InterfaceConfigEntry,
    MeshError,
>)
    requires
        old(cursor)@.valid(),
    ensures
        match result {
            Ok(entry) => dictionary::yields(
                interface_entry(old(cursor)@, name@),
                entry@,
                final(cursor)@,
            ),
            Err(error) => dictionary::fails(interface_entry(old(cursor)@, name@), error),
        },
        final(cursor)@.follows(old(cursor)@),
{
    let mut builder = EntryBuilder {
        regions: None,
        face_zone: None,
        orientation: None,
        model: None,
    };
    let ghost none = builder@;
    loop
        invariant
            cursor@.follows(old(cursor)@),
            none == (EntryParts {
                regions: None,
                face_zone: None,
                orientation: None,
                model: None,
            }),
            entry_parts(cursor@, builder@) == entry_parts(old(cursor)@, none),
        ensures
            cursor@.peeks("}"@),
        decreases cursor@.left(),
    {
        if cursor.peek_is("}")? {
            break ;
        }
        read_part(cursor, &mut builder)?;
    }
    cursor.expect("}")?;
    finish_entry(name, builder, cursor.path())
}

fn parse_interfaces_block(cursor: &mut TokenCursor) -> (result: Result<
    Vec<InterfaceConfigEntry>,
    MeshError,
>)
    requires
        old(cursor)@.valid(),
    ensures
        match result {
            Ok(found) => dictionary::yields(
                interface_block(old(cursor)@, Seq::empty()),
                entry_views(found@),
                final(cursor)@,
            ),
            Err(error) => dictionary::fails(interface_block(old(cursor)@, Seq::empty()), error),
        },
        final(cursor)@.follows(old(cursor)@),
{
    let mut found: Vec<InterfaceConfigEntry> = Vec::new();
    assert(entry_views(found@) =~= Seq::empty());
    loop
        invariant
            cursor@.follows(old(cursor)@),
            interface_block(cursor@, entry_views(found@)) == interface_block(
                old(cursor)@,
                Seq::empty(),
            ),
        ensures
            cursor@.peeks("}"@),
        decreases cursor@.left(),
    {
        if cursor.peek_is("}")? {
            break ;
        }
        let name = cursor.next_required()?;
        cursor.expect("{")?;
        let entry = parse_interface_entry(cursor, name)?;
        let ghost earlier = entry_views(found@);
        found.push(entry);
        assert(entry_views(found@) =~= earlier.push(entry@));
    }
    cursor.expect("}")?;
    Ok(found)
}

/// The interfaces that the file `content` at `path` configures.
pub fn parse_interface_config_str(content: &str, path: &str) -> (result: Result<
    InterfaceConfig,
    MeshError,
>)
    ensures
        match result {
            Ok(config) => config.path@ == path@ && dictionary::gives(
                interface_config(content@, path@),
                entry_views(config.entries@),
            ),
            Err(error) => dictionary::fails(interface_config(content@, path@), error),
        },
{
    let tokens = dictionary::tokenize_with(content, Dialect::Round);
    let mut cursor = TokenCursor::new(path, tokens);
    let mut entries: Vec<InterfaceConfigEntry> = Vec::new();
    assert(entry_views(entries@) =~= Seq::empty());
    while cursor.peek().is_some()
        invariant
            cursor@.valid(),
            interface_file(cursor@, entry_views(entries@)) == interface_config(content@, path@),
        decreases cursor@.left(),
    {
        let token = cursor.next_required()?;
        if text::text_eq(token.as_str(), "FoamFile") {
            cursor.skip_braced_block()?;
        } else if text::text_eq(token.as_str(), "interfaces") {
            cursor.expect("{")?;
            entries = parse_interfaces_block(&mut cursor)?;
        }
    }
    Ok(InterfaceConfig { path: path.to_string(), entries })
}

/// The first interface of the mesh with the name of the entry's face zone,
/// between its regions where `paired`.
fn find_interface(
    interfaces: &Vec<InterfaceSummary>,
    entry: &InterfaceConfigEntry,
    paired: bool,
) -> (at: Option<usize>)
    ensures
        match at {
            Some(i) => i < interfaces@.len() && mesh_interface(
                regions::interface_views(interfaces@),
                entry@,
                paired,
            ) == Some(interfaces@[i as int]@),
            None => mesh_interface(
                regions::interface_views(interfaces@),
                entry@,
                paired,
            ) is None,
        },
{
    let ghost all = regions::interface_views(interfaces@);
    let mut i: usize = 0;
    while i < interfaces.len()
        invariant
            i <= interfaces@.len(),
            all == regions::interface_views(interfaces@),
            mesh_interface(all.take(i as int), entry@, paired) is None,
        decreases interfaces@.len() - i,
    {
        assert(all.take(i + 1).drop_last() =~= all.take(i as int));
        let item = &interfaces[i];
        if text::text_eq(item.name.as_str(), entry.face_zone.as_str()) && (!paired
            || same_region_pair(item.region_a.as_str(), item.region_b.as_str(), &entry.regions)) {
            proof {
                lemma_interface_prefix(all, entry@, paired, i + 1);
            }
            return Some(i);
        }
        i += 1;
    }
    assert(all.take(i as int) =~= all);
    None
}

fn same_region_pair(left: &str, right: &str, pair: &[String; 2]) -> (same: bool)
    ensures
        same == same_pair(left@, right@, pair@[0]@, pair@[1]@),
{
    (text::text_eq(left, pair[0].as_str()) && text::text_eq(right, pair[1].as_str())) || (
    text::text_eq(left, pair[1].as_str()) && text::text_eq(right, pair[0].as_str()))
}

proof fn lemma_interface_prefix(
    interfaces: Seq<InterfaceView>,
    entry: EntryView,
    paired: bool,
    n: int,
)
    requires
        0 <= n <= interfaces.len(),
        mesh_interface(interfaces.take(n), entry, paired) is Some,
    ensures
        mesh_interface(interfaces, entry, paired) == mesh_interface(
            interfaces.take(n),
            entry,
            paired,
        ),
    decreases interfaces.len(),
{
    if n < interfaces.len() {
        assert(interfaces.drop_last().take(n) =~= interfaces.take(n));
        lemma_interface_prefix(interfaces.drop_last(), entry, paired, n);
    } else {
        assert(interfaces.take(n) =~= interfaces);
    }
}

fn find_boundary_zone(registry: &InterfaceRegistrySummary, name: &str) -> (at: Option<usize>)
    ensures
        match at {
            Some(i) => i < registry.boundary_face_zones@.len() && boundary_region(
                regions::zone_views(registry.boundary_face_zones@),
                name@,
            ) == Some(registry.boundary_face_zones@[i as int].region@),
            None => boundary_region(
                regions::zone_views(registry.boundary_face_zones@),
                name@,
            ) is None,
        },
{
    let zones = &registry.boundary_face_zones;
    let ghost all = regions::zone_views(zones@);
    let mut i: usize = 0;
    while i < zones.len()
        invariant
            i <= zones@.len(),
            zones == &registry.boundary_face_zones,
            all == regions::zone_views(zones@),
            boundary_region(all.take(i as int), name@) is None,
        decreases zones@.len() - i,
    {
        assert(all.take(i + 1).drop_last() =~= all.take(i as int));
        if text::text_eq(zones[i].name.as_str(), name) {
            proof {
                lemma_zone_prefix(all, name@, i + 1);
            }
            return Some(i);
        }
        i += 1;
    }
    assert(all.take(i as int) =~= all);
    None
}

proof fn lemma_zone_prefix(zones: Seq<(Seq<char>, Seq<char>)>, name: Seq<char>, n: int)
    requires
        0 <= n <= zones.len(),
        boundary_region(zones.take(n), name) is Some,
    ensures
        boundary_region(zones, name) == boundary_region(zones.take(n), name),
    decreases zones.len(),
{
    if n < zones.len() {
        assert(zones.drop_last().take(n) =~= zones.take(n));
        lemma_zone_prefix(zones.drop_last(), name, n);
    } else {
        assert(zones.take(n) =~= zones);
    }
}

/// The warning about an entry that the mesh does not have as configured.
fn unmatched_warning(entry: &InterfaceConfigEntry, registry: &InterfaceRegistrySummary) -> (message:
    String)
    requires
        mesh_interface(regions::interface_views(registry.interfaces@), entry@, true) is None,
    ensures
        seq![message@] == entry_warnings(
            regions::interface_views(registry.interfaces@),
            regions::zone_views(registry.boundary_face_zones@),
            entry@,
        ),
{
    let mut message = "interface '".to_string();
    message.append(entry.name.as_str());
    match find_interface(&registry.interfaces, entry, false) {
        Some(at) => {
            let found = &registry.interfaces[at];
            message.append("' references faceZone '");
            message.append(entry.face_zone.as_str());
            message.append("' for regions ");
            message.append(entry.regions[0].as_str());
            message.append("<->");
            message.append(entry.regions[1].as_str());
            message.append(", but mesh has ");
            message.append(found.region_a.as_str());
            message.append("<->");
            message.append(found.region_b.as_str());
        },
        None => match find_boundary_zone(registry, entry.face_zone.as_str()) {
            Some(at) => {
                message.append("' references boundary faceZone '");
                message.append(entry.face_zone.as_str());
                message.append("' on region '");
                message.append(registry.boundary_face_zones[at].region.as_str());
                message.append("'");
            },
            None => {
                message.append("' references missing faceZone '");
                message.append(entry.face_zone.as_str());
                message.append("'");
            },
        },
    }
    message
}

/// Holds the configured interfaces against those of the mesh.
pub fn validate_interface_config(
    config: &InterfaceConfig,
    registry: &InterfaceRegistrySummary,
) -> (validation: InterfaceConfigValidation)
    ensures
        validation.entries@.len() == config.entries@.len(),
        forall|i: int|
            0 <= i < config.entries@.len() ==> #[trigger] validation.entries@[i]@ == validated(
                regions::interface_views(registry.interfaces@),
                config.entries@[i]@,
            ),
        text::texts(validation.warnings@) == config_warnings(
            regions::interface_views(registry.interfaces@),
            regions::zone_views(registry.boundary_face_zones@),
            entry_views(config.entries@),
        ),
{
    let ghost interfaces = regions::interface_views(registry.interfaces@);
    let ghost zones = regions::zone_views(registry.boundary_face_zones@);
    let ghost all = entry_views(config.entries@);
    let mut entries: Vec<ValidatedInterfaceConfigEntry> = Vec::new();
    let mut warnings: Vec<String> = Vec::new();
    let mut i: usize = 0;
    assert(text::texts(warnings@) =~= config_warnings(interfaces, zones, all.take(0)));
    while i < config.entries.len()
        invariant
            i <= config.entries@.len(),
            interfaces == regions::interface_views(registry.interfaces@),
            zones == regions::zone_views(registry.boundary_face_zones@),
            all == entry_views(config.entries@),
            entries@.len() == i,
            forall|k: int|
                0 <= k < i ==> #[trigger] entries@[k]@ == validated(
                    interfaces,
                    config.entries@[k]@,
                ),
            text::texts(warnings@) == config_warnings(interfaces, zones, all.take(i as int)),
        decreases config.entries@.len() - i,
    {
        let entry = &config.entries[i];
        assert(all.take(i + 1).drop_last() =~= all.take(i as int));
        let ghost earlier = text::texts(warnings@);
        let mesh_faces: Option<usize> = match find_interface(&registry.interfaces, entry, true) {
            Some(at) => Some(registry.interfaces[at].faces),
            None => None,
        };
        let matched = mesh_faces.is_some();
        entries.push(
            ValidatedInterfaceConfigEntry {
                name: entry.name.clone(),
                face_zone: entry.face_zone.clone(),
                positive_from: entry.orientation.positive_from.clone(),
                positive_to: entry.orientation.positive_to.clone(),
                model: entry.model.clone(),
                mesh_faces,
            },
        );
        if !matched {
            let warning = unmatched_warning(entry, registry);
            warnings.push(warning);
            assert(text::texts(warnings@) =~= earlier + seq![warning@]);
        } else {
            assert(earlier =~= earlier + Seq::<Seq<char>>::empty());
        }
        i += 1;
    }
    assert(all.take(i as int) =~= all);
    InterfaceConfigValidation { entries, warnings }
}

/// An orientation that spells one region, `_to_` and the other is from the one to
/// the other, whichever comes first in the list; any other spelling is refused.
pub proof fn orientation_spells_its_regions(
    first: Seq<char>,
    second: Seq<char>,
    value: Seq<char>,
    path: Seq<char>,
)
    ensures
        oriented(first + "_to_"@ + second, first, second, path) == Ok::<
            (Seq<char>, Seq<char>),
            Failure,
        >((first, second)),
        match oriented(value, first, second, path) {
            Ok((from, to)) => value == from + "_to_"@ + to && (from == first && to == second || from
                == second && to == first),
            Err(_) => value != first + "_to_"@ + second && value != second + "_to_"@ + first,
        },
{
}

/// Whether an interface of the mesh has the face zone of an entry and lies between
/// its two regions.
pub open spec fn fits(found: InterfaceView, entry: EntryView) -> bool {
    &&& found.name == entry.face_zone
    &&& found.region_a == entry.first && found.region_b == entry.second || found.region_a
        == entry.second && found.region_b == entry.first
}

/// An entry has the faces of the first interface of the mesh with its face zone
/// between its regions, and none where the mesh has no such interface; what it says of
/// itself is kept.
pub proof fn entry_has_the_faces_of_its_interface(
    interfaces: Seq<InterfaceView>,
    entry: EntryView,
)
    ensures
        ({
            let found = validated(interfaces, entry);
            &&& found.name == entry.name
            &&& found.face_zone == entry.face_zone
            &&& found.positive_from == entry.positive_from
            &&& found.positive_to == entry.positive_to
            &&& found.model == entry.model
            &&& match found.mesh_faces {
                Some(faces) => exists|i: int|
                    0 <= i < interfaces.len() && fits(#[trigger] interfaces[i], entry)
                        && interfaces[i].faces == faces && forall|j: int|
                        0 <= j < i ==> !fits(#[trigger] interfaces[j], entry),
                None => forall|i: int|
                    0 <= i < interfaces.len() ==> !fits(#[trigger] interfaces[i], entry),
            }
        }),
{
    lemma_mesh_interface(interfaces, entry);
}

proof fn lemma_mesh_interface(interfaces: Seq<InterfaceView>, entry: EntryView)
    ensures
        match mesh_interface(interfaces, entry, true) {
            Some(found) => exists|i: int|
                0 <= i < interfaces.len() && fits(#[trigger] interfaces[i], entry) && interfaces[i]
                    == found && forall|j: int|
                    0 <= j < i ==> !fits(#[trigger] interfaces[j], entry),
            None => forall|i: int|
                0 <= i < interfaces.len() ==> !fits(#[trigger] interfaces[i], entry),
        },
    decreases interfaces.len(),
{
    if interfaces.len() > 0 {
        let front = interfaces.drop_last();
        lemma_mesh_interface(front, entry);
        match mesh_interface(front, entry, true) {
            Some(found) => {
                let i = choose|i: int|
                    0 <= i < front.len() && fits(#[trigger] front[i], entry) && front[i] == found
                        && forall|j: int| 0 <= j < i ==> !fits(#[trigger] front[j], entry);
                assert(interfaces[i] == front[i]);
                assert forall|j: int| 0 <= j < i implies !fits(
                    #[trigger] interfaces[j],
                    entry,
                ) by {
                    assert(interfaces[j] == front[j]);
                }
            },
            None => {
                assert forall|j: int| 0 <= j < front.len() implies !fits(
                    #[trigger] interfaces[j],
                    entry,
                ) by {
                    assert(interfaces[j] == front[j]);
                }
                if mesh_interface(interfaces, entry, true) is Some {
                    assert(interfaces[interfaces.len() - 1] == interfaces.last());
                    assert(fits(interfaces[interfaces.len() - 1], entry));
                }
            },
        }
    }
}

/// An entry is made of its own parts: its two regions, its face zone, its
/// orientation and its model, for which `none` stands where it is missing. An entry
/// without one of the others is refused.
pub proof fn entry_is_made_of_its_parts(name: Seq<char>, parts: EntryParts, path: Seq<char>)
    ensures
        match entry_of(name, parts, path) {
            Ok(entry) => {
                &&& entry.name == name
                &&& parts.regions == Some((entry.first, entry.second))
                &&& parts.face_zone == Some(entry.face_zone)
                &&& parts.orientation == Some(entry.positive_from + "_to_"@ + entry.positive_to)
                &&& parts.model is None ==> entry.model == "none"@
                &&& parts.model is Some ==> parts.model == Some(entry.model)
            },
            Err(_) => parts.regions is None || parts.face_zone is None || parts.orientation is None
                || {
                let (first, second) = parts.regions->0;
                parts.orientation->0 != first + "_to_"@ + second && parts.orientation->0 != second
                    + "_to_"@ + first
            },
        },
{
}

} // verus!
