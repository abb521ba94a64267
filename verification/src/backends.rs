//! The choice of compute backends in `system/ferrumBackends`.

use crate::dictionary;
use crate::dictionary::{Dialect, Stream, TokenCursor};
use crate::error::{Failure, MeshError};
use crate::text;
use vstd::prelude::*;

verus! {

/// The backends that a case asks for.
#[derive(Debug)]
pub struct BackendConfig {
    pub path: String,
    pub default: BackendChoice,
    pub sections: Vec<BackendSection>,
    pub gpu: GpuConfig,
}

/// Where a step runs.
#[derive(Clone, Copy, Debug, Eq, PartialEq, Structural)]
pub enum BackendChoice {
    Cpu,
    Gpu,
    Auto,
}

/// The choices for the steps of one part of the solver.
#[derive(Debug)]
pub struct BackendSection {
    pub name: String,
    pub entries: Vec<BackendSelection>,
}

/// The choice for one step.
#[derive(Debug)]
pub struct BackendSelection {
    pub step: String,
    pub choice: BackendChoice,
}

/// The settings of the graphics processor.
#[derive(Debug)]
pub struct GpuConfig {
    pub backend: String,
    pub device: String,
    pub precision: String,
}

/// The mathematical view of a [`GpuConfig`].
pub struct GpuView {
    pub backend: Seq<char>,
    pub device: Seq<char>,
    pub precision: Seq<char>,
}

/// The mathematical view of a [`BackendSection`].
pub struct BackendSectionView {
    pub name: Seq<char>,
    pub entries: Seq<(Seq<char>, BackendChoice)>,
}

/// The mathematical view of a [`BackendConfig`] without its path.
pub struct BackendView {
    pub default: Option<BackendChoice>,
    pub sections: Seq<BackendSectionView>,
    pub gpu: GpuView,
}

impl View for GpuConfig {
    type V = GpuView;

    open spec fn view(&self) -> GpuView {
        GpuView { backend: self.backend@, device: self.device@, precision: self.precision@ }
    }
}

/// The views of the choices of a vector.
pub open spec fn selection_views(entries: Seq<BackendSelection>) -> Seq<
    (Seq<char>, BackendChoice),
> {
    Seq::new(entries.len(), |i: int| (entries[i].step@, entries[i].choice))
}

impl View for BackendSection {
    type V = BackendSectionView;

    open spec fn view(&self) -> BackendSectionView {
        BackendSectionView { name: self.name@, entries: selection_views(self.entries@) }
    }
}

/// The views of the parts of a vector.
pub open spec fn section_views(sections: Seq<BackendSection>) -> Seq<BackendSectionView> {
    Seq::new(sections.len(), |i: int| sections[i]@)
}

/// What holds where nothing is configured.
pub open spec fn default_gpu() -> GpuView {
    GpuView { backend: "auto"@, device: "auto"@, precision: "f64"@ }
}

/// The name of a choice.
pub open spec fn choice_name(choice: BackendChoice) -> Seq<char> {
    match choice {
        BackendChoice::Cpu => "cpu"@,
        BackendChoice::Gpu => "gpu"@,
        BackendChoice::Auto => "auto"@,
    }
}

/// The choice that a word names.
pub open spec fn choice_of(value: Seq<char>, path: Seq<char>) -> Result<BackendChoice, Failure> {
    if value == "cpu"@ {
        Ok(BackendChoice::Cpu)
    } else if value == "gpu"@ {
        Ok(BackendChoice::Gpu)
    } else if value == "auto"@ {
        Ok(BackendChoice::Auto)
    } else {
        Err(
            Failure::InvalidInput(
                "invalid backend choice '"@ + value + "' in "@ + path
                    + "; expected cpu, gpu, or auto"@,
            ),
        )
    }
}

/// The name of a choice names that choice.
pub proof fn choice_name_is_read(choice: BackendChoice, path: Seq<char>)
    ensures
        choice_of(choice_name(choice), path) == Ok::<BackendChoice, Failure>(choice),
{
    reveal_strlit("cpu");
    reveal_strlit("gpu");
    reveal_strlit("auto");
    assert("cpu"@[0] != "gpu"@[0]);
    assert("auto"@.len() != "cpu"@.len() && "auto"@.len() != "gpu"@.len());
}

/// Whether a device name is made of letters, digits and `_-:.` alone.
pub open spec fn is_device(value: Seq<char>) -> bool {
    forall|i: int|
        0 <= i < value.len() ==> {
            let ch = #[trigger] value[i];
            text::is_alphanumeric(ch) || ch == '_' || ch == '-' || ch == ':' || ch == '.'
        }
}

/// The settings of the graphics processor after `key` has been set to `value`.
pub open spec fn gpu_set(
    gpu: GpuView,
    key: Seq<char>,
    value: Seq<char>,
    path: Seq<char>,
) -> Result<GpuView, Failure> {
    if key == "backend"@ {
        if value == "auto"@ || value == "wgpu"@ || value == "cuda"@ || value == "hip"@ {
            Ok(GpuView { backend: value, ..gpu })
        } else {
            Err(
                Failure::InvalidInput(
                    "invalid GPU backend '"@ + value + "' in "@ + path
                        + "; expected auto, wgpu, cuda, or hip"@,
                ),
            )
        }
    } else if key == "device"@ {
        if is_device(value) {
            Ok(GpuView { device: value, ..gpu })
        } else {
            Err(Failure::InvalidInput("invalid GPU device '"@ + value + "' in "@ + path))
        }
    } else if key == "precision"@ {
        if value == "auto"@ || value == "f32"@ || value == "f64"@ {
            Ok(GpuView { precision: value, ..gpu })
        } else {
            Err(
                Failure::InvalidInput(
                    "invalid GPU precision '"@ + value + "' in "@ + path
                        + "; expected auto, f32, or f64"@,
                ),
            )
        }
    } else {
        Ok(gpu)
    }
}

/// The rest of the block of the graphics processor. Every step takes two tokens.
pub open spec fn gpu_block(s: Stream, gpu: GpuView) -> Result<(GpuView, Stream), Failure>
    decreases s.left(),
{
    if s.ended() {
        Err(s.eof())
    } else if s.value() == "}"@ {
        Ok((gpu, s.next()))
    } else if s.next().ended() {
        Err(s.eof())
    } else {
        let rest = s.next().next().optional(";"@);
        match gpu_set(gpu, s.value(), s.next().value(), s.path) {
            Ok(set) => gpu_block(rest, set),
            Err(failure) => Err(failure),
        }
    }
}

/// The rest of the choices of a part. Every step takes two tokens.
pub open spec fn section_block(s: Stream, entries: Seq<(Seq<char>, BackendChoice)>) -> Result<
    (Seq<(Seq<char>, BackendChoice)>, Stream),
    Failure,
>
    decreases s.left(),
{
    if s.ended() {
        Err(s.eof())
    } else if s.value() == "}"@ {
        Ok((entries, s.next()))
    } else if s.next().ended() {
        Err(s.eof())
    } else {
        let rest = s.next().next().optional(";"@);
        match choice_of(s.next().value(), s.path) {
            Ok(choice) => section_block(rest, entries.push((s.value(), choice))),
            Err(failure) => Err(failure),
        }
    }
}

/// The configuration after the entry that starts with the next token.
pub open spec fn backend_entry(s: Stream, config: BackendView) -> Result<
    (BackendView, Stream),
    Failure,
> {
    let after = s.next();
    if s.value() == "default"@ {
        if after.ended() {
            Err(s.eof())
        } else {
            match choice_of(after.value(), s.path) {
                Ok(choice) => Ok(
                    (
                        BackendView { default: Some(choice), ..config },
                        after.next().optional(";"@),
                    ),
                ),
                Err(failure) => Err(failure),
            }
        }
    } else {
        match after.expect("{"@) {
            Ok(inside) => if s.value() == "gpu"@ {
                match gpu_block(inside, default_gpu()) {
                    Ok((gpu, rest)) => Ok((BackendView { gpu, ..config }, rest)),
                    Err(failure) => Err(failure),
                }
            } else {
                match section_block(inside, Seq::empty()) {
                    Ok((entries, rest)) => Ok(
                        (
                            BackendView {
                                sections: config.sections.push(
                                    BackendSectionView { name: s.value(), entries },
                                ),
                                ..config
                            },
                            rest,
                        ),
                    ),
                    Err(failure) => Err(failure),
                }
            },
            Err(failure) => Err(failure),
        }
    }
}

/// The entries of an outer block, up to its closing brace or the end of the
/// file. Every step takes a token.
pub open spec fn backend_entries(s: Stream, config: BackendView) -> Result<
    (BackendView, Stream),
    Failure,
>
    decreases s.left(),
{
    if s.ended() {
        Ok((config, s))
    } else if s.value() == "}"@ {
        Ok((config, s.next()))
    } else {
        match backend_entry(s, config) {
            Ok((next, rest)) if rest.left() < s.left() => backend_entries(rest, next),
            Ok(_) => Err(s.eof()),
            Err(failure) => Err(failure),
        }
    }
}

/// The configuration at the end of the file. Every step takes a token.
pub open spec fn backend_file(s: Stream, config: BackendView) -> Result<BackendView, Failure>
    decreases s.left(),
{
    if s.ended() {
        Ok(config)
    } else if s.value() == "FoamFile"@ {
        match s.next().block_end() {
            Ok(rest) if rest.left() < s.left() => backend_file(rest, config),
            Ok(_) => Err(s.eof()),
            Err(failure) => Err(failure),
        }
    } else if s.value() == "ferrumBackends"@ && s.next().peeks("{"@) {
        match backend_entries(s.next().next(), config) {
            Ok((next, rest)) if rest.left() < s.left() => backend_file(rest, next),
            Ok(_) => Err(s.eof()),
            Err(failure) => Err(failure),
        }
    } else {
        match backend_entry(s, config) {
            Ok((next, rest)) if rest.left() < s.left() => backend_file(rest, next),
            Ok(_) => Err(s.eof()),
            Err(failure) => Err(failure),
        }
    }
}

/// What the file `content` at `path` configures.
pub open spec fn backend_config(content: Seq<char>, path: Seq<char>) -> Result<
    BackendView,
    Failure,
> {
    backend_file(
        Stream { path, tokens: dictionary::tokens(content, Dialect::Square), at: 0 },
        BackendView { default: None, sections: Seq::empty(), gpu: default_gpu() },
    )
}

impl BackendChoice {
    /// The name of the choice.
    pub fn to_string(&self) -> (name: String)
        ensures
            name@ == choice_name(*self),
    {
        match self {
            BackendChoice::Cpu => "cpu".to_string(),
            BackendChoice::Gpu => "gpu".to_string(),
            BackendChoice::Auto => "auto".to_string(),
        }
    }
}

impl Default for GpuConfig {
    fn default() -> (gpu: Self)
        ensures
            gpu@ == default_gpu(),
    {
        GpuConfig {
            backend: "auto".to_string(),
            device: "auto".to_string(),
            precision: "f64".to_string(),
        }
    }
}

fn invalid(label: &str, value: &str, path: &str, expected: &str) -> (error: MeshError)
    ensures
        error@ == Failure::InvalidInput(label@ + value@ + "' in "@ + path@ + expected@),
{
    let mut message = label.to_string();
    message.append(value);
    message.append("' in ");
    message.append(path);
    message.append(expected);
    MeshError::InvalidInput(message)
}

fn parse_backend_choice(value: &str, path: &str) -> (result: Result<BackendChoice, MeshError>)
    ensures
        match result {
            Ok(choice) => dictionary::gives(choice_of(value@, path@), choice),
            Err(error) => dictionary::fails(choice_of(value@, path@), error),
        },
{
    if text::text_eq(value, "cpu") {
        Ok(BackendChoice::Cpu)
    } else if text::text_eq(value, "gpu") {
        Ok(BackendChoice::Gpu)
    } else if text::text_eq(value, "auto") {
        Ok(BackendChoice::Auto)
    } else {
        Err(invalid("invalid backend choice '", value, path, "; expected cpu, gpu, or auto"))
    }
}

fn is_word_or_number(value: &str) -> (yes: bool)
    ensures
        yes == is_device(value@),
{
    let chars = text::chars_of(value);
    let mut i: usize = 0;
    while i < chars.len()
        invariant
            i <= chars@.len(),
            chars@ == value@,
            is_device(chars@.take(i as int)),
        decreases chars@.len() - i,
    {
        let ch: char = chars[i];
        let code: u32 = ch as u32;
        let letter = (0x30 <= code && code <= 0x39) || (0x41 <= code && code <= 0x5a) || (0x61
            <= code && code <= 0x7a);
        if !(letter || ch == '_' || ch == '-' || ch == ':' || ch == '.') {
            return false;
        }
        assert(chars@.take(i + 1) =~= chars@.take(i as int).push(ch));
        i += 1;
    }
    assert(chars@.take(i as int) =~= value@);
    true
}

fn set_gpu(gpu: GpuConfig, key: &str, value: String, path: &str) -> (result: Result<
    GpuConfig,
    MeshError,
>)
    ensures
        match result {
            Ok(set) => dictionary::gives(gpu_set(gpu@, key@, value@, path@), set@),
            Err(error) => dictionary::fails(gpu_set(gpu@, key@, value@, path@), error),
        },
{
    if text::text_eq(key, "backend") {
        let known = text::text_eq(value.as_str(), "auto") || text::text_eq(value.as_str(), "wgpu")
            || text::text_eq(value.as_str(), "cuda") || text::text_eq(value.as_str(), "hip");
        if !known {
            return Err(
                invalid(
                    "invalid GPU backend '",
                    value.as_str(),
                    path,
                    "; expected auto, wgpu, cuda, or hip",
                ),
            );
        }
        Ok(GpuConfig { backend: value, device: gpu.device, precision: gpu.precision })
    } else if text::text_eq(key, "device") {
        if !is_word_or_number(value.as_str()) {
            let error = invalid("invalid GPU device '", value.as_str(), path, "");
            proof {
                reveal_strlit("");
                let front = "invalid GPU device '"@ + value@ + "' in "@ + path@;
                assert(front + ""@ =~= front);
            }
            return Err(error);
        }
        Ok(GpuConfig { backend: gpu.backend, device: value, precision: gpu.precision })
    } else if text::text_eq(key, "precision") {
        let known = text::text_eq(value.as_str(), "auto") || text::text_eq(value.as_str(), "f32")
            || text::text_eq(value.as_str(), "f64");
        if !known {
            return Err(
                invalid(
                    "invalid GPU precision '",
                    value.as_str(),
                    path,
                    "; expected auto, f32, or f64",
                ),
            );
        }
        Ok(GpuConfig { backend: gpu.backend, device: gpu.device, precision: value })
    } else {
        Ok(gpu)
    }
}

fn parse_gpu_block(cursor: &mut TokenCursor) -> (result: Result<GpuConfig, MeshError>)
    requires
        old(cursor)@.valid(),
    ensures
        match result {
            Ok(gpu) => dictionary::yields(
                gpu_block(old(cursor)@, default_gpu()),
                gpu@,
                final(cursor)@,
            ),
            Err(error) => dictionary::fails(gpu_block(old(cursor)@, default_gpu()), error),
        },
        final(cursor)@.follows(old(cursor)@),
{
    let mut gpu = GpuConfig::default();
    loop
        invariant
            cursor@.follows(old(cursor)@),
            gpu_block(cursor@, gpu@) == gpu_block(old(cursor)@, default_gpu()),
        ensures
            cursor@.peeks("}"@),
        decreases cursor@.left(),
    {
        if cursor.peek_is("}")? {
            break ;
        }
        let key = cursor.next_required()?;
        let value = cursor.next_required()?;
        cursor.expect_optional(";")?;
        gpu = set_gpu(gpu, key.as_str(), value, cursor.path())?;
    }
    cursor.expect("}")?;
    Ok(gpu)
}

fn parse_backend_section(cursor: &mut TokenCursor, name: String) -> (result: Result<
    BackendSection,
    MeshError,
>)
    requires
        old(cursor)@.valid(),
    ensures
        match result {
            Ok(section) => section@.name == name@ && dictionary::yields(
                section_block(old(cursor)@, Seq::empty()),
                section@.entries,
                final(cursor)@,
            ),
            Err(error) => dictionary::fails(section_block(old(cursor)@, Seq::empty()), error),
        },
        final(cursor)@.follows(old(cursor)@),
{
    let mut entries: Vec<BackendSelection> = Vec::new();
    assert(selection_views(entries@) =~= Seq::empty());
    loop
        invariant
            cursor@.follows(old(cursor)@),
            section_block(cursor@, selection_views(entries@)) == section_block(
                old(cursor)@,
                Seq::empty(),
            ),
        ensures
            cursor@.peeks("}"@),
        decreases cursor@.left(),
    {
        if cursor.peek_is("}")? {
            break ;
        }
        let step = cursor.next_required()?;
        let value = cursor.next_required()?;
        let choice = parse_backend_choice(value.as_str(), cursor.path())?;
        cursor.expect_optional(";")?;
        let ghost earlier = selection_views(entries@);
        entries.push(BackendSelection { step, choice });
        assert(selection_views(entries@) =~= earlier.push((step@, choice)));
    }
    cursor.expect("}")?;
    Ok(BackendSection { name, entries })
}

/// A configuration that is being read.
struct BackendConfigBuilder {
    default: Option<BackendChoice>,
    sections: Vec<BackendSection>,
    gpu: GpuConfig,
}

impl View for BackendConfigBuilder {
    type V = BackendView;

    closed spec fn view(&self) -> BackendView {
        BackendView {
            default: self.default,
            sections: section_views(self.sections@),
            gpu: self.gpu@,
        }
    }
}

fn parse_backend_entry(cursor: &mut TokenCursor, builder: &mut BackendConfigBuilder) -> (result:
    Result<(), MeshError>)
    requires
        old(cursor)@.valid(),
        !old(cursor)@.ended(),
    ensures
        match result {
            Ok(_) => dictionary::yields(
                backend_entry(old(cursor)@, old(builder)@),
                final(builder)@,
                final(cursor)@,
            ),
            Err(error) => dictionary::fails(backend_entry(old(cursor)@, old(builder)@), error),
        },
        final(cursor)@.follows(old(cursor)@),
        old(cursor)@.at < final(cursor)@.at,
{
    let key = cursor.next_required()?;
    if text::text_eq(key.as_str(), "default") {
        let value = cursor.next_required()?;
        let choice = parse_backend_choice(value.as_str(), cursor.path())?;
        cursor.expect_optional(";")?;
        builder.default = Some(choice);
    } else if text::text_eq(key.as_str(), "gpu") {
        cursor.expect("{")?;
        builder.gpu = parse_gpu_block(cursor)?;
    } else {
        cursor.expect("{")?;
        let section = parse_backend_section(cursor, key)?;
        let ghost earlier = section_views(builder.sections@);
        builder.sections.push(section);
        assert(section_views(builder.sections@) =~= earlier.push(section@));
    }
    Ok(())
}

fn parse_backend_entries(cursor: &mut TokenCursor, builder: &mut BackendConfigBuilder) -> (result:
    Result<(), MeshError>)
    requires
        old(cursor)@.valid(),
    ensures
        match result {
            Ok(_) => dictionary::yields(
                backend_entries(old(cursor)@, old(builder)@),
                final(builder)@,
                final(cursor)@,
            ),
            Err(error) => dictionary::fails(backend_entries(old(cursor)@, old(builder)@), error),
        },
        final(cursor)@.follows(old(cursor)@),
{
    while cursor.peek().is_some()
        invariant
            cursor@.follows(old(cursor)@),
            backend_entries(cursor@, builder@) == backend_entries(old(cursor)@, old(builder)@),
        decreases cursor@.left(),
    {
        if cursor.peek_is("}")? {
            cursor.expect("}")?;
            return Ok(());
        }
        parse_backend_entry(cursor, builder)?;
    }
    Ok(())
}

/// The backends that the file `content` at `path` asks for; steps run on the
/// processor where it names no default.
pub fn parse_backend_config_str(content: &str, path: &str) -> (result: Result<
    BackendConfig,
    MeshError,
>)
    ensures
        match result {
            Ok(config) => {
                let named = backend_config(content@, path@);
                &&& named is Ok
                &&& config.path@ == path@
                &&& config.default == named->Ok_0.default.unwrap_or(BackendChoice::Cpu)
                &&& section_views(config.sections@) == named->Ok_0.sections
                &&& config.gpu@ == named->Ok_0.gpu
            },
            Err(error) => dictionary::fails(backend_config(content@, path@), error),
        },
{
    let tokens = dictionary::tokenize(content);
    let mut cursor = TokenCursor::new(path, tokens);
    let mut builder = BackendConfigBuilder {
        default: None,
        sections: Vec::new(),
        gpu: GpuConfig::default(),
    };
    assert(section_views(builder.sections@) =~= Seq::empty());
    while cursor.peek().is_some()
        invariant
            cursor@.valid(),
            backend_file(cursor@, builder@) == backend_config(content@, path@),
        decreases cursor@.left(),
    {
        if cursor.at("FoamFile") {
            cursor.next_required()?;
            cursor.skip_braced_block()?;
            continue ;
        }
        let braced = match cursor.peek_next() {
            Some(token) => text::text_eq(token, "{"),
            None => false,
        };
        if braced && cursor.at("ferrumBackends") {
            cursor.next_required()?;
            cursor.expect("{")?;
            parse_backend_entries(&mut cursor, &mut builder)?;
            continue ;
        }
        parse_backend_entry(&mut cursor, &mut builder)?;
    }
    let default = match builder.default {
        Some(choice) => choice,
        None => BackendChoice::Cpu,
    };
    Ok(
        BackendConfig {
            path: path.to_string(),
            default,
            sections: builder.sections,
            gpu: builder.gpu,
        },
    )
}

} // verus!
