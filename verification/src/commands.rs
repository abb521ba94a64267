//! The commands of the program and the command lines of those that work on
//! meshes and cases.

use crate::arguments;
use crate::mesh;
use crate::ordering;
use crate::ordering::FoamWriteOptions;
use crate::text;
use crate::text::CharClass;
use vstd::prelude::*;

verus! {

/// The commands.
#[derive(Clone, Copy, Debug, Eq, PartialEq, Structural)]
pub enum Alias {
    GmshToFerrumFoam,
    CheckFerrumMesh,
    SplitFerrumMeshRegions,
    InitFerrumCase,
    FerrumSolver,
    FerrumPipeBenchmark,
    FerrumPlaneChannelBenchmark,
}

/// What a command line asks for.
#[derive(Clone, Copy, Debug, Eq, PartialEq, Structural)]
pub enum Subcommand {
    Help,
    Run(Alias),
}

/// The command that a word names.
pub open spec fn command_named(word: Seq<char>) -> Option<Alias> {
    if word == "gmshToFoam"@ || word == "gmshToFerrumFoam"@ {
        Some(Alias::GmshToFerrumFoam)
    } else if word == "checkMesh"@ || word == "checkFerrumMesh"@ {
        Some(Alias::CheckFerrumMesh)
    } else if word == "splitMeshRegions"@ || word == "splitFerrumMeshRegions"@ {
        Some(Alias::SplitFerrumMeshRegions)
    } else if word == "initCase"@ || word == "initFerrumCase"@ {
        Some(Alias::InitFerrumCase)
    } else if word == "solve"@ || word == "solver"@ || word == "ferrumSolver"@ {
        Some(Alias::FerrumSolver)
    } else if word == "pipeBenchmark"@ || word == "ferrumPipeBenchmark"@ {
        Some(Alias::FerrumPipeBenchmark)
    } else if word == "planeChannelBenchmark"@ || word == "ferrumPlaneChannelBenchmark"@ {
        Some(Alias::FerrumPlaneChannelBenchmark)
    } else {
        None
    }
}

/// What a command line asks for: its first word names the command.
pub open spec fn subcommand(args: Seq<Seq<char>>) -> Result<Subcommand, Seq<char>> {
    if args.len() == 0 || arguments::asks_help(args[0]) {
        Ok(Subcommand::Help)
    } else {
        match command_named(args[0]) {
            Some(alias) => Ok(Subcommand::Run(alias)),
            None => Err("unknown ferrum command '"@ + args[0] + "'"@),
        }
    }
}

/// Whether an argument from `at` on asks for help.
pub open spec fn help_from(args: Seq<Seq<char>>, at: int) -> bool
    decreases args.len() - at,
{
    at < args.len() && (arguments::asks_help(args[at]) || help_from(args, at + 1))
}

/// Whether a command shows its usage: where help is asked for, and where a
/// command that needs arguments has none.
pub open spec fn shows_usage(alias: Alias, args: Seq<Seq<char>>) -> bool {
    let needs_some = match alias {
        Alias::GmshToFerrumFoam => true,
        Alias::InitFerrumCase => true,
        Alias::FerrumPipeBenchmark => true,
        Alias::FerrumPlaneChannelBenchmark => true,
        _ => false,
    };
    (needs_some && args.len() == 0) || help_from(args, 0)
}

/// What a command line asks for.
pub fn ferrum_subcommand(args: &Vec<String>) -> (out: Result<Subcommand, String>)
    ensures
        match out {
            Ok(found) => text::accepts(subcommand(text::texts(args@)), found),
            Err(message) => text::refuses(subcommand(text::texts(args@)), message),
        },
{
    if args.len() == 0 || arguments::is_help(args[0].as_str()) {
        return Ok(Subcommand::Help);
    }
    let word = args[0].as_str();
    let alias = if text::text_eq(word, "gmshToFoam") || text::text_eq(word, "gmshToFerrumFoam") {
        Alias::GmshToFerrumFoam
    } else if text::text_eq(word, "checkMesh") || text::text_eq(word, "checkFerrumMesh") {
        Alias::CheckFerrumMesh
    } else if text::text_eq(word, "splitMeshRegions") || text::text_eq(
        word,
        "splitFerrumMeshRegions",
    ) {
        Alias::SplitFerrumMeshRegions
    } else if text::text_eq(word, "initCase") || text::text_eq(word, "initFerrumCase") {
        Alias::InitFerrumCase
    } else if text::text_eq(word, "solve") || text::text_eq(word, "solver") || text::text_eq(
        word,
        "ferrumSolver",
    ) {
        Alias::FerrumSolver
    } else if text::text_eq(word, "pipeBenchmark") || text::text_eq(word, "ferrumPipeBenchmark") {
        Alias::FerrumPipeBenchmark
    } else if text::text_eq(word, "planeChannelBenchmark") || text::text_eq(
        word,
        "ferrumPlaneChannelBenchmark",
    ) {
        Alias::FerrumPlaneChannelBenchmark
    } else {
        let mut message = "unknown ferrum command '".to_string();
        message.append(word);
        message.append("'");
        return Err(message);
    };
    Ok(Subcommand::Run(alias))
}

/// Whether a command shows its usage.
pub fn wants_usage(alias: Alias, args: &Vec<String>) -> (yes: bool)
    ensures
        yes == shows_usage(alias, text::texts(args@)),
{
    let needs_some = match alias {
        Alias::GmshToFerrumFoam => true,
        Alias::InitFerrumCase => true,
        Alias::FerrumPipeBenchmark => true,
        Alias::FerrumPlaneChannelBenchmark => true,
        _ => false,
    };
    if needs_some && args.len() == 0 {
        return true;
    }
    let ghost all = text::texts(args@);
    let mut at: usize = 0;
    while at < args.len()
        invariant
            at <= args@.len(),
            all == text::texts(args@),
            help_from(all, 0) == help_from(all, at as int),
        decreases args@.len() - at,
    {
        if arguments::is_help(args[at].as_str()) {
            return true;
        }
        at += 1;
    }
    false
}

/// Whether an argument names the case.
pub open spec fn is_case_flag(arg: Seq<char>) -> bool {
    arg == "-case"@ || arg == "--case"@
}

/// The case that the arguments from `at` on name first.
pub open spec fn case_from(args: Seq<Seq<char>>, at: int, default: Seq<char>) -> Result<
    Seq<char>,
    Seq<char>,
>
    decreases args.len() - at,
{
    if at >= args.len() {
        Ok(default)
    } else if is_case_flag(args[at]) {
        arguments::value_at(args, at, "-case requires a directory"@)
    } else {
        case_from(args, at + 1, default)
    }
}

fn is_case(arg: &str) -> (yes: bool)
    ensures
        yes == is_case_flag(arg@),
{
    text::text_eq(arg, "-case") || text::text_eq(arg, "--case")
}

/// The case that a command line names.
pub fn parse_case_dir(args: &Vec<String>, default: &str) -> (out: Result<String, String>)
    ensures
        match out {
            Ok(dir) => text::accepts(case_from(text::texts(args@), 0, default@), dir@),
            Err(message) => text::refuses(case_from(text::texts(args@), 0, default@), message),
        },
{
    let ghost all = text::texts(args@);
    let mut at: usize = 0;
    while at < args.len()
        invariant
            at <= args@.len(),
            all == text::texts(args@),
            case_from(all, 0, default@) == case_from(all, at as int, default@),
        decreases args@.len() - at,
    {
        if is_case(args[at].as_str()) {
            let value = arguments::value_behind(args, at, "-case requires a directory")?;
            return Ok(value.clone());
        }
        at += 1;
    }
    Ok(default.to_string())
}

/// Whether the arguments from `at` on ask for cell zones.
pub open spec fn zones_from(args: Seq<Seq<char>>, at: int) -> bool
    decreases args.len() - at,
{
    at < args.len() && (args[at] == "-cellZones"@ || args[at] == "--cellZones"@ || zones_from(
        args,
        at + 1,
    ))
}

/// Whether a command line asks for cell zones.
pub fn uses_cell_zones(args: &Vec<String>) -> (yes: bool)
    ensures
        yes == zones_from(text::texts(args@), 0),
{
    let ghost all = text::texts(args@);
    let mut at: usize = 0;
    while at < args.len()
        invariant
            at <= args@.len(),
            all == text::texts(args@),
            zones_from(all, 0) == zones_from(all, at as int),
        decreases args@.len() - at,
    {
        if text::text_eq(args[at].as_str(), "-cellZones") || text::text_eq(
            args[at].as_str(),
            "--cellZones",
        ) {
            return true;
        }
        at += 1;
    }
    false
}

/// What is asked of a new case.
#[derive(Debug)]
pub struct InitCaseOptions {
    pub case_dir: String,
    pub force: bool,
    pub regions: Vec<String>,
}

/// The mathematical view of an [`InitCaseOptions`].
pub struct InitView {
    pub case_dir: Seq<char>,
    pub force: bool,
    pub regions: Seq<Seq<char>>,
}

impl View for InitCaseOptions {
    type V = InitView;

    open spec fn view(&self) -> InitView {
        InitView {
            case_dir: self.case_dir@,
            force: self.force,
            regions: text::texts(self.regions@),
        }
    }
}

/// The name of a region.
pub open spec fn case_name(value: Seq<char>, label: Seq<char>) -> Result<Seq<char>, Seq<char>> {
    if value.len() == 0 {
        Err(label + " name must not be empty"@)
    } else if !arguments::is_word(value) {
        Err("invalid "@ + label + " name '"@ + value + "'"@)
    } else {
        Ok(value)
    }
}

/// The name of a region.
pub fn validate_case_name(value: &str, label: &str) -> (out: Result<String, String>)
    ensures
        match out {
            Ok(name) => text::accepts(case_name(value@, label@), name@),
            Err(message) => text::refuses(case_name(value@, label@), message),
        },
{
    if value.is_empty() {
        let mut message = label.to_string();
        message.append(" name must not be empty");
        return Err(message);
    }
    if !arguments::is_openfoam_word(value) {
        let mut message = "invalid ".to_string();
        message.append(label);
        message.append(" name '");
        message.append(value);
        message.append("'");
        return Err(message);
    }
    Ok(value.to_string())
}

/// Regions with the ones that the pieces from `at` on name; empty pieces name
/// none. The regions are sorted, and none is repeated.
pub open spec fn regions_from(
    pieces: Seq<Seq<char>>,
    at: int,
    regions: Seq<Seq<char>>,
) -> Result<Seq<Seq<char>>, Seq<char>>
    decreases pieces.len() - at,
{
    if at >= pieces.len() {
        Ok(regions)
    } else {
        let piece = text::trim(pieces[at]);
        if piece.len() == 0 {
            regions_from(pieces, at + 1, regions)
        } else {
            match case_name(piece, "region"@) {
                Err(message) => Err(message),
                Ok(name) => regions_from(
                    pieces,
                    at + 1,
                    ordering::name_inserted(regions, name),
                ),
            }
        }
    }
}

/// What the arguments from `at` on add to what is asked of a new case.
pub open spec fn init_from(args: Seq<Seq<char>>, at: int, asked: InitView) -> Result<
    InitView,
    Seq<char>,
>
    decreases args.len() - at,
{
    if at >= args.len() {
        Ok(asked)
    } else if args[at] == "--force"@ || args[at] == "-force"@ {
        init_from(args, at + 1, InitView { force: true, ..asked })
    } else if args[at] == "-region"@ || args[at] == "--region"@ {
        match arguments::value_at(args, at, "-region requires a region name"@) {
            Err(message) => Err(message),
            Ok(value) => match case_name(value, "region"@) {
                Err(message) => Err(message),
                Ok(name) => init_from(
                    args,
                    at + 2,
                    InitView { regions: ordering::name_inserted(asked.regions, name), ..asked },
                ),
            },
        }
    } else if args[at] == "-regions"@ || args[at] == "--regions"@ {
        match arguments::value_at(
            args,
            at,
            "-regions requires a comma-separated region list"@,
        ) {
            Err(message) => Err(message),
            Ok(value) => match regions_from(
                text::pieces(CharClass::Only(','), value),
                0,
                asked.regions,
            ) {
                Err(message) => Err(message),
                Ok(regions) => init_from(args, at + 2, InitView { regions, ..asked }),
            },
        }
    } else {
        Err("unknown initFerrumCase option '"@ + args[at] + "'"@)
    }
}

/// What a command line asks of a new case: the regions are sorted, and none is
/// repeated.
pub open spec fn init_args(args: Seq<Seq<char>>) -> Result<InitView, Seq<char>> {
    if args.len() == 0 {
        Err("initFerrumCase requires a case directory"@)
    } else {
        init_from(
            args,
            1,
            InitView { case_dir: args[0], force: false, regions: Seq::empty() },
        )
    }
}

fn add_regions(value: &str, regions: &mut Vec<String>) -> (out: Result<(), String>)
    ensures
        ({
            let named = regions_from(
                text::pieces(CharClass::Only(','), value@),
                0,
                text::texts(old(regions)@),
            );
            match out {
                Ok(_) => text::accepts(named, text::texts(final(regions)@)),
                Err(message) => text::refuses(named, message),
            }
        }),
{
    let pieces = text::split(value, CharClass::Only(','));
    let ghost all = text::texts(pieces@);
    let ghost before = text::texts(regions@);
    let mut at: usize = 0;
    while at < pieces.len()
        invariant
            at <= pieces@.len(),
            all == text::texts(pieces@),
            all == text::pieces(CharClass::Only(','), value@),
            before == text::texts(old(regions)@),
            regions_from(all, 0, before) == regions_from(
                all,
                at as int,
                text::texts(regions@),
            ),
        decreases pieces@.len() - at,
    {
        let piece = text::trimmed(pieces[at].as_str());
        if !piece.as_str().is_empty() {
            let name = validate_case_name(piece.as_str(), "region")?;
            ordering::insert_name(regions, name.as_str());
        }
        at += 1;
    }
    Ok(())
}

/// Reads the command line of a new case.
pub fn parse_init_case_args(args: &Vec<String>) -> (out: Result<InitCaseOptions, String>)
    ensures
        match out {
            Ok(options) => text::accepts(init_args(text::texts(args@)), options@),
            Err(message) => text::refuses(init_args(text::texts(args@)), message),
        },
{
    if args.len() == 0 {
        return Err("initFerrumCase requires a case directory".to_string());
    }
    let ghost all = text::texts(args@);
    let case_dir = args[0].clone();
    let mut force = false;
    let mut regions: Vec<String> = Vec::new();
    let mut at: usize = 1;
    assert(text::texts(regions@) =~= Seq::empty());
    while at < args.len()
        invariant
            1 <= at <= args@.len(),
            all == text::texts(args@),
            case_dir@ == all[0],
            init_args(all) == init_from(
                all,
                at as int,
                InitView { case_dir: case_dir@, force, regions: text::texts(regions@) },
            ),
        decreases args@.len() - at,
    {
        let arg = args[at].as_str();
        if text::text_eq(arg, "--force") || text::text_eq(arg, "-force") {
            force = true;
            at += 1;
        } else if text::text_eq(arg, "-region") || text::text_eq(arg, "--region") {
            let value = arguments::value_behind(args, at, "-region requires a region name")?;
            let name = validate_case_name(value.as_str(), "region")?;
            ordering::insert_name(&mut regions, name.as_str());
            at += 2;
        } else if text::text_eq(arg, "-regions") || text::text_eq(arg, "--regions") {
            let value = arguments::value_behind(
                args,
                at,
                "-regions requires a comma-separated region list",
            )?;
            add_regions(value.as_str(), &mut regions)?;
            at += 2;
        } else {
            let mut message = "unknown initFerrumCase option '".to_string();
            message.append(arg);
            message.append("'");
            return Err(message);
        }
    }
    Ok(InitCaseOptions { case_dir, force, regions })
}

/// What is asked of an import.
#[derive(Debug)]
pub struct GmshToFoamArgs {
    pub mesh_path: String,
    pub case_dir: String,
    pub options: FoamWriteOptions,
}

/// The mathematical view of a [`GmshToFoamArgs`]: the types are those that were
/// asked for, in their order.
pub struct ImportView {
    pub mesh_path: Seq<char>,
    pub case_dir: Seq<char>,
    pub types: Seq<(Seq<char>, Seq<char>)>,
}

/// The type that was asked for a patch last.
pub open spec fn last_type(types: Seq<(Seq<char>, Seq<char>)>, name: Seq<char>) -> Option<Seq<char>>
    decreases types.len(),
{
    if types.len() == 0 {
        None
    } else if mesh::sanitized(types.last().0) == name {
        Some(types.last().1)
    } else {
        last_type(types.drop_last(), name)
    }
}

/// Whether `found` is what a command line asks of an import.
pub open spec fn is_import(found: GmshToFoamArgs, asked: ImportView) -> bool {
    &&& found.mesh_path@ == asked.mesh_path
    &&& found.case_dir@ == asked.case_dir
    &&& forall|name: Seq<char>|
        #[trigger] found.options.asked(name) == last_type(asked.types, name)
}

/// Whether a patch can have a type.
pub open spec fn type_checked(patch: Seq<char>, patch_type: Seq<char>) -> Result<(), Seq<char>> {
    if text::trim(patch).len() == 0 {
        Err("patch name must not be empty"@)
    } else if !arguments::is_word(patch_type) {
        Err("invalid OpenFOAM patch type '"@ + patch_type + "'"@)
    } else {
        Ok(())
    }
}

impl ImportView {
    /// With the type of one more patch.
    pub open spec fn typed(self, patch: Seq<char>, patch_type: Seq<char>) -> ImportView {
        ImportView { types: self.types.push((patch, patch_type)), ..self }
    }
}

/// The patch type that a flag stands for.
pub open spec fn flag_type(arg: Seq<char>) -> Option<(Seq<char>, Seq<char>)> {
    if arg == "-emptyPatch"@ || arg == "--emptyPatch"@ {
        Some(("empty"@, "-emptyPatch requires a patch name"@))
    } else if arg == "-wedgePatch"@ || arg == "--wedgePatch"@ {
        Some(("wedge"@, "-wedgePatch requires a patch name"@))
    } else if arg == "-symmetryPatch"@ || arg == "--symmetryPatch"@ {
        Some(("symmetryPlane"@, "-symmetryPatch requires a patch name"@))
    } else {
        None
    }
}

/// What is said where a patch type is missing.
pub open spec fn type_missing() -> Seq<char> {
    "-patchType requires '<patch>=<type>' or '<patch> <type>'"@
}

/// What the arguments from `at` on add to what is asked of an import.
pub open spec fn import_from(args: Seq<Seq<char>>, at: int, asked: ImportView) -> Result<
    ImportView,
    Seq<char>,
>
    decreases args.len() - at,
{
    if at >= args.len() {
        Ok(asked)
    } else if is_case_flag(args[at]) {
        match arguments::value_at(args, at, "-case requires a directory"@) {
            Err(message) => Err(message),
            Ok(value) => import_from(args, at + 2, ImportView { case_dir: value, ..asked }),
        }
    } else if flag_type(args[at]) is Some {
        let (patch_type, missing) = flag_type(args[at])->0;
        match arguments::value_at(args, at, missing) {
            Err(message) => Err(message),
            Ok(patch) => import_from(args, at + 2, asked.typed(patch, patch_type)),
        }
    } else if args[at] == "-patchType"@ || args[at] == "--patchType"@ {
        match arguments::value_at(args, at, type_missing()) {
            Err(message) => Err(message),
            Ok(first) => match text::split_once(first, '=') {
                Some((patch, patch_type)) => match type_checked(patch, patch_type) {
                    Err(message) => Err(message),
                    Ok(_) => import_from(args, at + 2, asked.typed(patch, patch_type)),
                },
                None => match arguments::value_at(args, at + 1, type_missing()) {
                    Err(message) => Err(message),
                    Ok(patch_type) => match type_checked(first, patch_type) {
                        Err(message) => Err(message),
                        Ok(_) => import_from(args, at + 3, asked.typed(first, patch_type)),
                    },
                },
            },
        }
    } else {
        Err("unknown gmshToFerrumFoam option '"@ + args[at] + "'"@)
    }
}

/// What a command line asks of an import.
pub open spec fn import_args(args: Seq<Seq<char>>) -> Result<ImportView, Seq<char>> {
    if args.len() == 0 {
        Err("gmshToFerrumFoam requires a mesh path"@)
    } else {
        import_from(
            args,
            1,
            ImportView { mesh_path: args[0], case_dir: "."@, types: Seq::empty() },
        )
    }
}

/// Whether options hold the types that were asked for.
spec fn holds_types(options: FoamWriteOptions, types: Seq<(Seq<char>, Seq<char>)>) -> bool {
    options.valid() && forall|name: Seq<char>|
        #[trigger] options.asked(name) == last_type(types, name)
}

fn set_type(
    options: &mut FoamWriteOptions,
    patch: &str,
    patch_type: &str,
    types: Ghost<Seq<(Seq<char>, Seq<char>)>>,
)
    requires
        holds_types(*old(options), types@),
    ensures
        holds_types(*final(options), types@.push((patch@, patch_type@))),
{
    let ghost before = *options;
    options.set_patch_type(patch, patch_type);
    proof {
        let now = types@.push((patch@, patch_type@));
        assert(now.drop_last() =~= types@);
        assert forall|name: Seq<char>| #[trigger] options.asked(name) == last_type(now, name) by {
            assert(before.asked(name) == last_type(types@, name));
        }
    }
}

fn check_type(patch: &str, patch_type: &str) -> (out: Result<(), String>)
    ensures
        match out {
            Ok(done) => text::accepts(type_checked(patch@, patch_type@), done),
            Err(message) => text::refuses(type_checked(patch@, patch_type@), message),
        },
{
    if text::is_blank(patch) {
        return Err("patch name must not be empty".to_string());
    }
    if !arguments::is_openfoam_word(patch_type) {
        let mut message = "invalid OpenFOAM patch type '".to_string();
        message.append(patch_type);
        message.append("'");
        return Err(message);
    }
    Ok(())
}

fn type_of_flag(arg: &str) -> (found: Option<(&'static str, &'static str)>)
    ensures
        match found {
            Some((patch_type, missing)) => flag_type(arg@) == Some((patch_type@, missing@)),
            None => flag_type(arg@) is None,
        },
{
    if text::text_eq(arg, "-emptyPatch") || text::text_eq(arg, "--emptyPatch") {
        Some(("empty", "-emptyPatch requires a patch name"))
    } else if text::text_eq(arg, "-wedgePatch") || text::text_eq(arg, "--wedgePatch") {
        Some(("wedge", "-wedgePatch requires a patch name"))
    } else if text::text_eq(arg, "-symmetryPatch") || text::text_eq(arg, "--symmetryPatch") {
        Some(("symmetryPlane", "-symmetryPatch requires a patch name"))
    } else {
        None
    }
}

/// Reads the command line of an import.
pub fn parse_gmsh_to_foam_args(args: &Vec<String>) -> (out: Result<GmshToFoamArgs, String>)
    ensures
        match out {
            Ok(found) => import_args(text::texts(args@)) is Ok && is_import(
                found,
                import_args(text::texts(args@))->Ok_0,
            ) && found.options.valid(),
            Err(message) => text::refuses(import_args(text::texts(args@)), message),
        },
{
    if args.len() == 0 {
        return Err("gmshToFerrumFoam requires a mesh path".to_string());
    }
    let ghost all = text::texts(args@);
    let mesh_path = args[0].clone();
    let mut case_dir = ".".to_string();
    let mut options = FoamWriteOptions::default();
    let ghost mut types: Seq<(Seq<char>, Seq<char>)> = Seq::empty();
    let mut at: usize = 1;
    while at < args.len()
        invariant
            1 <= at <= args@.len(),
            all == text::texts(args@),
            mesh_path@ == all[0],
            holds_types(options, types),
            import_args(all) == import_from(
                all,
                at as int,
                ImportView { mesh_path: mesh_path@, case_dir: case_dir@, types },
            ),
        decreases args@.len() - at,
    {
        let arg = args[at].as_str();
        if is_case(arg) {
            let value = arguments::value_behind(args, at, "-case requires a directory")?;
            case_dir = value.clone();
            at += 2;
        } else if let Some((patch_type, missing)) = type_of_flag(arg) {
            let patch = arguments::value_behind(args, at, missing)?;
            set_type(&mut options, patch.as_str(), patch_type, Ghost(types));
            proof {
                types = types.push((patch@, patch_type@));
            }
            at += 2;
        } else if text::text_eq(arg, "-patchType") || text::text_eq(arg, "--patchType") {
            let first = arguments::value_behind(
                args,
                at,
                "-patchType requires '<patch>=<type>' or '<patch> <type>'",
            )?;
            match text::split_at_first(first.as_str(), '=') {
                Some((patch, patch_type)) => {
                    check_type(patch.as_str(), patch_type.as_str())?;
                    set_type(&mut options, patch.as_str(), patch_type.as_str(), Ghost(types));
                    proof {
                        types = types.push((patch@, patch_type@));
                    }
                    at += 2;
                },
                None => {
                    let patch_type = arguments::value_behind(
                        args,
                        at + 1,
                        "-patchType requires '<patch>=<type>' or '<patch> <type>'",
                    )?;
                    check_type(first.as_str(), patch_type.as_str())?;
                    set_type(&mut options, first.as_str(), patch_type.as_str(), Ghost(types));
                    proof {
                        types = types.push((first@, patch_type@));
                    }
                    at += 3;
                },
            }
        } else {
            let mut message = "unknown gmshToFerrumFoam option '".to_string();
            message.append(arg);
            message.append("'");
            return Err(message);
        }
    }
    Ok(GmshToFoamArgs { mesh_path, case_dir, options })
}

/// The case of a command line is the word behind its first `-case`, and the default
/// where there is none; a `-case` without a word behind it is refused.
pub proof fn case_stands_behind_its_flag(args: Seq<Seq<char>>, default: Seq<char>, at: int)
    ensures
        0 <= at < args.len() && (args[at] == "-case"@ || args[at] == "--case"@) && (forall|i: int|
            0 <= i < at ==> #[trigger] args[i] != "-case"@ && args[i] != "--case"@) ==> match case_from(
            args,
            0,
            default,
        ) {
            Ok(found) => at + 1 < args.len() && found == args[at + 1],
            Err(_) => at + 1 == args.len(),
        },
        (forall|i: int|
            0 <= i < args.len() ==> #[trigger] args[i] != "-case"@ && args[i] != "--case"@)
            ==> case_from(args, 0, default) == Ok::<Seq<char>, Seq<char>>(default),
{
    lemma_case_from(args, default, 0, at);
}

proof fn lemma_case_from(args: Seq<Seq<char>>, default: Seq<char>, from: int, at: int)
    requires
        0 <= from,
    ensures
        from <= at < args.len() && (args[at] == "-case"@ || args[at] == "--case"@) && (forall|i: int|
            from <= i < at ==> #[trigger] args[i] != "-case"@ && args[i] != "--case"@)
            ==> case_from(args, from, default) == arguments::value_at(
            args,
            at,
            "-case requires a directory"@,
        ),
        (forall|i: int|
            from <= i < args.len() ==> #[trigger] args[i] != "-case"@ && args[i] != "--case"@)
            ==> case_from(args, from, default) == Ok::<Seq<char>, Seq<char>>(default),
    decreases args.len() - from,
{
    if from < args.len() {
        lemma_case_from(args, default, from + 1, at);
    }
}

/// Help is shown where any argument asks for it, and where a command that needs
/// arguments has none; nowhere else.
pub proof fn usage_is_shown_on_request(alias: Alias, args: Seq<Seq<char>>)
    ensures
        shows_usage(alias, args) <==> (exists|i: int|
            0 <= i < args.len() && (#[trigger] args[i] == "-h"@ || args[i] == "--help"@ || args[i]
                == "help"@)) || (args.len() == 0 && (alias == Alias::GmshToFerrumFoam || alias
            == Alias::InitFerrumCase || alias == Alias::FerrumPipeBenchmark || alias
            == Alias::FerrumPlaneChannelBenchmark)),
{
    lemma_help_from(args, 0);
}

proof fn lemma_help_from(args: Seq<Seq<char>>, from: int)
    requires
        0 <= from,
    ensures
        help_from(args, from) <==> exists|i: int|
            from <= i < args.len() && (#[trigger] args[i] == "-h"@ || args[i] == "--help"@ || args[i]
                == "help"@),
    decreases args.len() - from,
{
    if from < args.len() {
        lemma_help_from(args, from + 1);
        if arguments::asks_help(args[from]) {
            assert(args[from] == "-h"@ || args[from] == "--help"@ || args[from] == "help"@);
        }
    }
}

/// Cell zones are asked for by their flag, wherever it stands.
pub proof fn zones_are_asked_by_their_flag(args: Seq<Seq<char>>, from: int)
    requires
        0 <= from,
    ensures
        zones_from(args, from) <==> exists|i: int|
            from <= i < args.len() && (#[trigger] args[i] == "-cellZones"@ || args[i]
                == "--cellZones"@),
    decreases args.len() - from,
{
    if from < args.len() {
        zones_are_asked_by_their_flag(args, from + 1);
        if args[from] == "-cellZones"@ || args[from] == "--cellZones"@ {
            assert(args[from] == args[from]);
        }
    }
}

/// Each command is called by its own words.
pub proof fn command_words(args: Seq<Seq<char>>)
    requires
        args.len() > 0,
        subcommand(args) is Ok,
    ensures
        ({
            let word = args[0];
            match subcommand(args)->Ok_0 {
                Subcommand::Help => word == "-h"@ || word == "--help"@ || word == "help"@,
                Subcommand::Run(Alias::GmshToFerrumFoam) => word == "gmshToFoam"@ || word
                    == "gmshToFerrumFoam"@,
                Subcommand::Run(Alias::CheckFerrumMesh) => word == "checkMesh"@ || word
                    == "checkFerrumMesh"@,
                Subcommand::Run(Alias::SplitFerrumMeshRegions) => word == "splitMeshRegions"@
                    || word == "splitFerrumMeshRegions"@,
                Subcommand::Run(Alias::InitFerrumCase) => word == "initCase"@ || word
                    == "initFerrumCase"@,
                Subcommand::Run(Alias::FerrumSolver) => word == "solve"@ || word == "solver"@
                    || word == "ferrumSolver"@,
                Subcommand::Run(Alias::FerrumPipeBenchmark) => word == "pipeBenchmark"@ || word
                    == "ferrumPipeBenchmark"@,
                Subcommand::Run(Alias::FerrumPlaneChannelBenchmark) => word
                    == "planeChannelBenchmark"@ || word == "ferrumPlaneChannelBenchmark"@,
            }
        }),
{
}

/// A region that is asked for is in the new case, and those that were asked for
/// before stay; a word that is no name is refused.
pub proof fn asked_region_is_in_the_case(
    args: Seq<Seq<char>>,
    at: int,
    before: InitView,
    region: Seq<char>,
)
    requires
        0 <= at,
        at + 1 < args.len(),
        args[at] == "-region"@ || args[at] == "--region"@,
        args[at + 1] == region,
    ensures
        arguments::is_word(region) ==> init_from(args, at, before) == init_from(
            args,
            at + 2,
            InitView { regions: ordering::name_inserted(before.regions, region), ..before },
        ) && ordering::name_inserted(before.regions, region).contains(region) && forall|other:
            Seq<char>|
            before.regions.contains(other) ==> #[trigger] ordering::name_inserted(
                before.regions,
                region,
            ).contains(other),
        !arguments::is_word(region) ==> init_from(args, at, before) is Err,
{
    reveal_strlit("-region");
    reveal_strlit("--region");
    reveal_strlit("--force");
    reveal_strlit("-force");
    assert("-region"@.len() == 7 && "--region"@.len() == 8 && "--force"@.len() == 7
        && "-force"@.len() == 6);
    assert("-region"@[1] != "--force"@[1]);
    lemma_inserted_holds(before.regions, region);
}

proof fn lemma_inserted_holds(names: Seq<Seq<char>>, name: Seq<char>)
    ensures
        ordering::name_inserted(names, name).contains(name),
        forall|other: Seq<char>|
            names.contains(other) ==> #[trigger] ordering::name_inserted(names, name).contains(
                other,
            ),
    decreases names.len(),
{
    let all = ordering::name_inserted(names, name);
    if names.len() == 0 || text::precedes(names.last(), name) {
        assert(all[names.len() as int] == name);
        assert forall|other: Seq<char>| names.contains(other) implies #[trigger] all.contains(
            other,
        ) by {
            let k = choose|k: int| 0 <= k < names.len() && names[k] == other;
            assert(all[k] == other);
        }
    } else if names.last() == name {
        assert(names[names.len() - 1] == name);
    } else {
        let front = names.drop_last();
        lemma_inserted_holds(front, name);
        let grown = ordering::name_inserted(front, name);
        assert(all =~= grown.push(names.last()));
        let k = choose|k: int| 0 <= k < grown.len() && grown[k] == name;
        assert(all[k] == name);
        assert forall|other: Seq<char>| names.contains(other) implies #[trigger] all.contains(
            other,
        ) by {
            let k = choose|k: int| 0 <= k < names.len() && names[k] == other;
            if k < front.len() {
                assert(front[k] == other);
                assert(grown.contains(other));
                let m = choose|m: int| 0 <= m < grown.len() && grown[m] == other;
                assert(all[m] == other);
            } else {
                assert(all[grown.len() as int] == other);
            }
        }
    }
}

/// A new case has the directory that is named first; force is asked for by its flag
/// alone.
pub proof fn new_case_has_the_first_word(args: Seq<Seq<char>>)
    requires
        init_args(args) is Ok,
    ensures
        args.len() > 0,
        init_args(args)->Ok_0.case_dir == args[0],
        init_args(args)->Ok_0.force ==> exists|i: int|
            1 <= i < args.len() && (#[trigger] args[i] == "--force"@ || args[i] == "-force"@),
        args.len() == 2 && (args[1] == "--force"@ || args[1] == "-force"@) ==> init_args(
            args,
        )->Ok_0.force,
{
    let start = InitView { case_dir: args[0], force: false, regions: Seq::empty() };
    lemma_init_from(args, 1, start);
    if args.len() == 2 && (args[1] == "--force"@ || args[1] == "-force"@) {
        let forced = InitView { force: true, ..start };
        assert(init_from(args, 2, forced) == Ok::<InitView, Seq<char>>(forced));
    }
}

proof fn lemma_init_from(args: Seq<Seq<char>>, from: int, before: InitView)
    requires
        0 <= from,
        init_from(args, from, before) is Ok,
    ensures
        init_from(args, from, before)->Ok_0.case_dir == before.case_dir,
        init_from(args, from, before)->Ok_0.force ==> before.force || exists|i: int|
            from <= i < args.len() && (#[trigger] args[i] == "--force"@ || args[i] == "-force"@),
        before.force ==> init_from(args, from, before)->Ok_0.force,
    decreases args.len() - from,
{
    if from < args.len() {
        if args[from] == "--force"@ || args[from] == "-force"@ {
            lemma_init_from(args, from + 1, InitView { force: true, ..before });
        } else if args[from] == "-region"@ || args[from] == "--region"@ {
            let name = args[from + 1];
            lemma_init_from(
                args,
                from + 2,
                InitView { regions: ordering::name_inserted(before.regions, name), ..before },
            );
        } else {
            let regions = regions_from(
                text::pieces(CharClass::Only(','), args[from + 1]),
                0,
                before.regions,
            )->Ok_0;
            lemma_init_from(args, from + 2, InitView { regions, ..before });
        }
    }
}

/// An import reads the mesh that is named first, and goes to the case that is named
/// behind `-case`. A patch gets the type of its flag, or the one that is spelled
/// behind `-patchType`.
pub proof fn import_takes_its_options(
    args: Seq<Seq<char>>,
    at: int,
    before: ImportView,
    patch: Seq<char>,
    patch_type: Seq<char>,
)
    requires
        0 <= at,
        at + 1 < args.len(),
    ensures
        ({
            let found = import_from(args, at, before);
            let value = args[at + 1];
            &&& args[at] == "-case"@ || args[at] == "--case"@ ==> found == import_from(
                args,
                at + 2,
                ImportView { case_dir: value, ..before },
            )
            &&& args[at] == "-emptyPatch"@ || args[at] == "--emptyPatch"@ ==> found == import_from(
                args,
                at + 2,
                ImportView { types: before.types.push((value, "empty"@)), ..before },
            )
            &&& args[at] == "-wedgePatch"@ || args[at] == "--wedgePatch"@ ==> found == import_from(
                args,
                at + 2,
                ImportView { types: before.types.push((value, "wedge"@)), ..before },
            )
            &&& args[at] == "-symmetryPatch"@ || args[at] == "--symmetryPatch"@ ==> found
                == import_from(
                args,
                at + 2,
                ImportView { types: before.types.push((value, "symmetryPlane"@)), ..before },
            )
            &&& (args[at] == "-patchType"@ || args[at] == "--patchType"@) && value == patch + "="@
                + patch_type && (forall|i: int| 0 <= i < patch.len() ==> #[trigger] patch[i] != '=')
                && text::trim(patch).len() > 0 && arguments::is_word(patch_type) ==> found
                == import_from(
                args,
                at + 2,
                ImportView { types: before.types.push((patch, patch_type)), ..before },
            )
        }),
        args.len() > 0 && import_args(args) is Ok ==> import_args(args) == import_from(
            args,
            1,
            ImportView { mesh_path: args[0], case_dir: "."@, types: Seq::empty() },
        ),
{
    lemma_import_flags();
    reveal_strlit("=");
    let value = patch + "="@ + patch_type;
    if forall|i: int| 0 <= i < patch.len() ==> #[trigger] patch[i] != '=' {
        assert(value[patch.len() as int] == '=');
        assert forall|i: int| 0 <= i < patch.len() implies #[trigger] value[i] != '=' by {
            assert(value[i] == patch[i]);
        }
        crate::readback::lemma_find_first(value, '=', patch.len() as int);
        assert(value.take(patch.len() as int) =~= patch);
        assert(value.skip(patch.len() as int + 1) =~= patch_type);
    }
}

proof fn lemma_import_flags()
    ensures
        "-case"@.len() == 5 && "--case"@.len() == 6,
        "-emptyPatch"@.len() == 11 && "--emptyPatch"@.len() == 12,
        "-wedgePatch"@.len() == 11 && "--wedgePatch"@.len() == 12,
        "-symmetryPatch"@.len() == 14 && "--symmetryPatch"@.len() == 15,
        "-patchType"@.len() == 10 && "--patchType"@.len() == 11,
        "-emptyPatch"@[1] == 'e' && "-wedgePatch"@[1] == 'w' && "--patchType"@[1] == '-',
        "--emptyPatch"@[2] == 'e' && "--wedgePatch"@[2] == 'w',
{
    reveal_strlit("-case");
    reveal_strlit("--case");
    reveal_strlit("-emptyPatch");
    reveal_strlit("--emptyPatch");
    reveal_strlit("-wedgePatch");
    reveal_strlit("--wedgePatch");
    reveal_strlit("-symmetryPatch");
    reveal_strlit("--symmetryPatch");
    reveal_strlit("-patchType");
    reveal_strlit("--patchType");
}

/// Of two types for a patch the later counts, and what is asked of one patch is
/// nothing to another.
pub proof fn later_type_counts(
    types: Seq<(Seq<char>, Seq<char>)>,
    patch: Seq<char>,
    patch_type: Seq<char>,
    name: Seq<char>,
)
    ensures
        last_type(types.push((patch, patch_type)), name) == (if mesh::sanitized(patch) == name {
            Some(patch_type)
        } else {
            last_type(types, name)
        }),
{
    assert(types.push((patch, patch_type)).drop_last() =~= types);
}

} // verus!
