//! A new case: its directories and the files it starts from.

use crate::commands::InitCaseOptions;
use crate::foam_case;
use crate::foam_case::CaseFile;
use crate::foam_text;
use crate::layout;
use crate::layout::TextList;
use crate::text;
use vstd::prelude::*;

verus! {

/// What was made of a new case.
#[derive(Debug)]
pub struct InitCaseSummary {
    pub case_dir: String,
    pub created_dirs: Vec<String>,
    pub written_files: Vec<String>,
    pub skipped_files: Vec<String>,
}

/// A step in the making of a case: a directory, or a file with its content.
#[derive(Debug)]
pub struct InitStep {
    pub path: String,
    pub content: Option<String>,
}

/// What a step asks for.
#[derive(Clone, Copy, Debug, Eq, PartialEq, Structural)]
pub enum InitAction {
    /// The directory is made, with those above it.
    CreateDir,
    /// The file is written.
    WriteFile,
    /// What is there stays.
    Leave,
}

/// The directories of the first `n` regions.
pub open spec fn region_dirs(case_dir: Seq<char>, regions: Seq<Seq<char>>, n: int) -> Seq<Seq<char>>
    decreases n,
{
    if n <= 0 {
        Seq::empty()
    } else {
        region_dirs(case_dir, regions, n - 1).push(
            text::below(text::below(case_dir, "0"@), regions[n - 1]),
        ).push(
            text::below(
                text::below(text::below(case_dir, "constant"@), regions[n - 1]),
                "polyMesh"@,
            ),
        )
    }
}

/// The directories of a case.
pub open spec fn case_dirs(case_dir: Seq<char>, regions: Seq<Seq<char>>) -> Seq<Seq<char>> {
    Seq::empty().push(case_dir).push(text::below(case_dir, "0"@)).push(
        text::below(case_dir, "constant"@),
    ).push(text::below(text::below(case_dir, "constant"@), "polyMesh"@)).push(
        text::below(case_dir, "system"@),
    ) + region_dirs(case_dir, regions, regions.len() as int)
}

/// Those of the first `n` paths that are made: all where `force`, else those that
/// were not there. `existed` tells from `from` on which were.
pub open spec fn made(
    paths: Seq<Seq<char>>,
    existed: Seq<bool>,
    from: int,
    force: bool,
    n: int,
) -> Seq<Seq<char>>
    decreases n,
{
    if n <= 0 {
        Seq::empty()
    } else {
        let earlier = made(paths, existed, from, force, n - 1);
        if existed[from + n - 1] && !force {
            earlier
        } else {
            earlier.push(paths[n - 1])
        }
    }
}

/// Those of the first `n` paths that are left as they are.
pub open spec fn left(
    paths: Seq<Seq<char>>,
    existed: Seq<bool>,
    from: int,
    force: bool,
    n: int,
) -> Seq<Seq<char>>
    decreases n,
{
    if n <= 0 {
        Seq::empty()
    } else {
        let earlier = left(paths, existed, from, force, n - 1);
        if existed[from + n - 1] && !force {
            earlier.push(paths[n - 1])
        } else {
            earlier
        }
    }
}

/// The control dictionary of a new case.
pub open spec fn control_dict_text() -> Seq<char> {
    layout::lines_text(
        foam_text::head("dictionary"@, "controlDict"@, "system"@) + (Seq::empty()
            .push("application ferrumSolver;"@)
            .push("startFrom startTime;"@)
            .push("startTime 0;"@)
            .push("stopAt endTime;"@)
            .push("endTime 1;"@)
            .push("deltaT 1;"@)
            .push("writeControl timeStep;"@)
            .push("writeInterval 1;"@)),
    )
}

fn control_dict() -> (out: String)
    ensures
        out@ == control_dict_text(),
{
    let mut lines = foam_text::header("dictionary", "controlDict", "system");
    let mut body = TextList::new();
    body.add("application ferrumSolver;");
    body.add("startFrom startTime;");
    body.add("startTime 0;");
    body.add("stopAt endTime;");
    body.add("endTime 1;");
    body.add("deltaT 1;");
    body.add("writeControl timeStep;");
    body.add("writeInterval 1;");
    lines.extend(body);
    lines.as_lines()
}

/// The schemes of a new case.
pub open spec fn fv_schemes_text() -> Seq<char> {
    layout::lines_text(
        foam_text::head("dictionary"@, "fvSchemes"@, "system"@) + (Seq::empty()
            .push("ddtSchemes { default Euler; }"@)
            .push("gradSchemes { default Gauss linear; }"@)
            .push("divSchemes { default none; }"@)
            .push("laplacianSchemes { default Gauss linear corrected; }"@)
            .push("interpolationSchemes { default linear; }"@)
            .push("snGradSchemes { default corrected; }"@)),
    )
}

fn fv_schemes() -> (out: String)
    ensures
        out@ == fv_schemes_text(),
{
    let mut lines = foam_text::header("dictionary", "fvSchemes", "system");
    let mut body = TextList::new();
    body.add("ddtSchemes { default Euler; }");
    body.add("gradSchemes { default Gauss linear; }");
    body.add("divSchemes { default none; }");
    body.add("laplacianSchemes { default Gauss linear corrected; }");
    body.add("interpolationSchemes { default linear; }");
    body.add("snGradSchemes { default corrected; }");
    lines.extend(body);
    lines.as_lines()
}

/// The solution controls of a new case.
pub open spec fn fv_solution_text() -> Seq<char> {
    layout::lines_text(
        foam_text::head("dictionary"@, "fvSolution"@, "system"@) + (Seq::empty()
            .push("solvers { }"@)
            .push("SIMPLE { nNonOrthogonalCorrectors 0; }"@)),
    )
}

fn fv_solution() -> (out: String)
    ensures
        out@ == fv_solution_text(),
{
    let mut lines = foam_text::header("dictionary", "fvSolution", "system");
    let mut body = TextList::new();
    body.add("solvers { }");
    body.add("SIMPLE { nNonOrthogonalCorrectors 0; }");
    lines.extend(body);
    lines.as_lines()
}

/// The backends of a new case.
pub open spec fn ferrum_backends_text() -> Seq<char> {
    layout::lines_text(
        foam_text::head("dictionary"@, "ferrumBackends"@, "system"@) + (Seq::empty()
            .push("// Execution policy only: physics models must remain backend-neutral."@)
            .push("default cpu;"@)
            .push(Seq::empty())
            .push("mesh"@)
            .push("{"@)
            .push("    import cpu;"@)
            .push("    checks cpu;"@)
            .push("}"@)
            .push(Seq::empty())
            .push("cpu"@)
            .push("{"@)
            .push("    cpus auto;"@)
            .push("    coresPerCpu auto;"@)
            .push("    threads auto;"@)
            .push("    threadPinning off;"@)
            .push("    numa auto;"@)
            .push("}"@)
            .push(Seq::empty())
            .push("flow"@)
            .push("{"@)
            .push("    nonlinearSolve auto;"@)
            .push("    residual auto;"@)
            .push("    jacobian auto;"@)
            .push("    linearSolve auto;"@)
            .push("    pressureCorrection auto;"@)
            .push("}"@)
            .push(Seq::empty())
            .push("chemistry"@)
            .push("{"@)
            .push("    residual auto;"@)
            .push("    jacobian auto;"@)
            .push("    nonlinearSolve auto;"@)
            .push("    odeSolve auto;"@)
            .push("}"@)
            .push(Seq::empty())
            .push("gpu"@)
            .push("{"@)
            .push("    backend auto;"@)
            .push("    devices (auto);"@)
            .push("    multiGpu auto;"@)
            .push("    precision f64;"@)
            .push("}"@)),
    )
}

fn ferrum_backends() -> (out: String)
    ensures
        out@ == ferrum_backends_text(),
{
    let mut lines = foam_text::header("dictionary", "ferrumBackends", "system");
    let mut body = TextList::new();
    body.add("// Execution policy only: physics models must remain backend-neutral.");
    body.add("default cpu;");
    body.blank();
    body.add("mesh");
    body.add("{");
    body.add("    import cpu;");
    body.add("    checks cpu;");
    body.add("}");
    body.blank();
    body.add("cpu");
    body.add("{");
    body.add("    cpus auto;");
    body.add("    coresPerCpu auto;");
    body.add("    threads auto;");
    body.add("    threadPinning off;");
    body.add("    numa auto;");
    body.add("}");
    body.blank();
    body.add("flow");
    body.add("{");
    body.add("    nonlinearSolve auto;");
    body.add("    residual auto;");
    body.add("    jacobian auto;");
    body.add("    linearSolve auto;");
    body.add("    pressureCorrection auto;");
    body.add("}");
    body.blank();
    body.add("chemistry");
    body.add("{");
    body.add("    residual auto;");
    body.add("    jacobian auto;");
    body.add("    nonlinearSolve auto;");
    body.add("    odeSolve auto;");
    body.add("}");
    body.blank();
    body.add("gpu");
    body.add("{");
    body.add("    backend auto;");
    body.add("    devices (auto);");
    body.add("    multiGpu auto;");
    body.add("    precision f64;");
    body.add("}");
    lines.extend(body);
    lines.as_lines()
}

/// The interfaces of a new case.
pub open spec fn interfaces_text() -> Seq<char> {
    layout::lines_text(
        foam_text::head("dictionary"@, "interfaces"@, "constant"@) + (Seq::empty()
            .push("interfaces"@)
            .push("{"@)
            .push("    // exampleInterface"@)
            .push("    // {"@)
            .push("    //     regions (region_a region_b);"@)
            .push("    //     faceZone interface_name;"@)
            .push("    //     // Sign convention only: reversed physics gives a negative flux."@)
            .push("    //     orientation region_a_to_region_b;"@)
            .push("    //     model none;"@)
            .push("    // }"@)
            .push("}"@)),
    )
}

fn interfaces() -> (out: String)
    ensures
        out@ == interfaces_text(),
{
    let mut lines = foam_text::header("dictionary", "interfaces", "constant");
    let mut body = TextList::new();
    body.add("interfaces");
    body.add("{");
    body.add("    // exampleInterface");
    body.add("    // {");
    body.add("    //     regions (region_a region_b);");
    body.add("    //     faceZone interface_name;");
    body.add("    //     // Sign convention only: reversed physics gives a negative flux.");
    body.add("    //     orientation region_a_to_region_b;");
    body.add("    //     model none;");
    body.add("    // }");
    body.add("}");
    lines.extend(body);
    lines.as_lines()
}

/// The transport properties of a new case.
pub open spec fn transport_properties_text() -> Seq<char> {
    layout::lines_text(
        foam_text::head("dictionary"@, "transportProperties"@, "constant"@) + (Seq::empty()
            .push("// Transport models and material properties will be solver-specific."@)),
    )
}

fn transport_properties() -> (out: String)
    ensures
        out@ == transport_properties_text(),
{
    let mut lines = foam_text::header("dictionary", "transportProperties", "constant");
    let mut body = TextList::new();
    body.add("// Transport models and material properties will be solver-specific.");
    lines.extend(body);
    lines.as_lines()
}

/// The regions in the description of a case.
pub open spec fn region_items(regions: Seq<Seq<char>>) -> Seq<Seq<char>> {
    Seq::new(regions.len(), |i: int| "- `"@ + regions[i] + "`"@)
}

/// The description of a new case.
pub open spec fn readme_text(regions: Seq<Seq<char>>) -> Seq<char> {
    layout::lines_text(
        (Seq::empty()
        .push("# FerrumCFD Case"@)
        .push(Seq::empty())
        .push("This case was initialized with `initFerrumCase`."@)
        .push(Seq::empty())
        .push("Typical workflow:"@)
        .push(Seq::empty())
        .push("```powershell"@)
        .push("gmshToFerrumFoam path\\to\\mesh.msh -case ."@)
        .push("checkFerrumMesh -case ."@)
        .push("splitFerrumMeshRegions -case . -cellZones"@)
        .push("```"@)) + (if regions.len() == 0 {
            Seq::empty()
        } else {
            Seq::empty().push(Seq::empty()).push("Configured region folders:"@).push(Seq::empty())
                + region_items(regions)
        }),
    )
}

fn readme(regions: &Vec<String>) -> (out: String)
    ensures
        out@ == readme_text(text::texts(regions@)),
{
    let mut lines = TextList::new();
    lines.add("# FerrumCFD Case");
    lines.blank();
    lines.add("This case was initialized with `initFerrumCase`.");
    lines.blank();
    lines.add("Typical workflow:");
    lines.blank();
    lines.add("```powershell");
    lines.add("gmshToFerrumFoam path\\to\\mesh.msh -case .");
    lines.add("checkFerrumMesh -case .");
    lines.add("splitFerrumMeshRegions -case . -cellZones");
    lines.add("```");
    let ghost all = text::texts(regions@);
    let ghost wanted = region_items(all);
    assert(all.len() == regions@.len());
    let mut tail = TextList::new();
    if regions.len() > 0 {
        tail.blank();
        tail.add("Configured region folders:");
        tail.blank();
        let mut items = TextList::new();
        let mut at: usize = 0;
        assert(wanted.take(0) =~= Seq::empty());
        while at < regions.len()
            invariant
                at <= regions@.len(),
                all == text::texts(regions@),
                wanted == region_items(all),
                items@ == wanted.take(at as int),
            decreases regions@.len() - at,
        {
            let mut item = "- `".to_string();
            item.append(regions[at].as_str());
            item.append("`");
            items.push(item);
            assert(wanted.take(at + 1) =~= wanted.take(at as int).push(wanted[at as int]));
            at += 1;
        }
        assert(wanted.take(at as int) =~= wanted);
        tail.extend(items);
    }
    lines.extend(tail);
    lines.as_lines()
}

/// The files of a new case.
pub open spec fn case_files(case_dir: Seq<char>, regions: Seq<Seq<char>>) -> Seq<
    (Seq<char>, Seq<char>),
> {
    Seq::empty()
        .push((text::below(case_dir, "README.md"@), readme_text(regions)))
        .push((text::below(text::below(case_dir, "system"@), "controlDict"@), control_dict_text()))
        .push((text::below(text::below(case_dir, "system"@), "fvSchemes"@), fv_schemes_text()))
        .push((text::below(text::below(case_dir, "system"@), "fvSolution"@), fv_solution_text()))
        .push(
            (
                text::below(text::below(case_dir, "system"@), "ferrumBackends"@),
                ferrum_backends_text(),
            ),
        )
        .push((text::below(text::below(case_dir, "constant"@), "interfaces"@), interfaces_text()))
        .push(
            (
                text::below(text::below(case_dir, "constant"@), "transportProperties"@),
                transport_properties_text(),
            ),
        )
}

fn add_template(files: &mut Vec<CaseFile>, path: String, content: String)
    ensures
        foam_case::file_views(final(files)@) == foam_case::file_views(old(files)@).push(
            (path@, content@),
        ),
{
    let ghost before = foam_case::file_views(files@);
    let ghost added = (path@, content@);
    files.push(CaseFile { path, content });
    assert(foam_case::file_views(files@) =~= before.push(added));
}

fn templates(options: &InitCaseOptions) -> (files: Vec<CaseFile>)
    ensures
        foam_case::file_views(files@) == case_files(options@.case_dir, options@.regions),
{
    let dir = options.case_dir.as_str();
    let mut files: Vec<CaseFile> = Vec::new();
    assert(foam_case::file_views(files@) =~= Seq::empty());
    add_template(&mut files, text::path_below(dir, "README.md"), readme(&options.regions));
    add_template(
        &mut files,
        text::path_below(text::path_below(dir, "system").as_str(), "controlDict"),
        control_dict(),
    );
    add_template(
        &mut files,
        text::path_below(text::path_below(dir, "system").as_str(), "fvSchemes"),
        fv_schemes(),
    );
    add_template(
        &mut files,
        text::path_below(text::path_below(dir, "system").as_str(), "fvSolution"),
        fv_solution(),
    );
    add_template(
        &mut files,
        text::path_below(text::path_below(dir, "system").as_str(), "ferrumBackends"),
        ferrum_backends(),
    );
    add_template(
        &mut files,
        text::path_below(text::path_below(dir, "constant").as_str(), "interfaces"),
        interfaces(),
    );
    add_template(
        &mut files,
        text::path_below(text::path_below(dir, "constant").as_str(), "transportProperties"),
        transport_properties(),
    );
    files
}

fn directories(options: &InitCaseOptions) -> (dirs: TextList)
    ensures
        dirs@ == case_dirs(options@.case_dir, options@.regions),
{
    let dir = options.case_dir.as_str();
    let initial = text::path_below(dir, "0");
    let constant = text::path_below(dir, "constant");
    let mut dirs = TextList::new();
    dirs.add(dir);
    dirs.add(initial.as_str());
    dirs.add(constant.as_str());
    dirs.push(text::path_below(constant.as_str(), "polyMesh"));
    dirs.push(text::path_below(dir, "system"));
    let regions = &options.regions;
    let ghost all = text::texts(regions@);
    let mut below = TextList::new();
    let mut at: usize = 0;
    while at < regions.len()
        invariant
            at <= regions@.len(),
            all == text::texts(regions@),
            initial@ == text::below(dir@, "0"@),
            constant@ == text::below(dir@, "constant"@),
            below@ == region_dirs(dir@, all, at as int),
        decreases regions@.len() - at,
    {
        below.push(text::path_below(initial.as_str(), regions[at].as_str()));
        below.push(
            text::path_below(
                text::path_below(constant.as_str(), regions[at].as_str()).as_str(),
                "polyMesh",
            ),
        );
        at += 1;
    }
    assert(all.len() == regions@.len());
    dirs.extend(below);
    dirs
}

/// The paths of the files of a case.
pub open spec fn file_paths(case_dir: Seq<char>, regions: Seq<Seq<char>>) -> Seq<Seq<char>> {
    let files = case_files(case_dir, regions);
    Seq::new(files.len(), |i: int| files[i].0)
}

/// The paths of the steps: the directories, then the files.
pub open spec fn step_paths(case_dir: Seq<char>, regions: Seq<Seq<char>>) -> Seq<Seq<char>> {
    case_dirs(case_dir, regions) + file_paths(case_dir, regions)
}

/// The steps: the directories, then the files.
pub open spec fn steps_of(case_dir: Seq<char>, regions: Seq<Seq<char>>) -> Seq<
    (Seq<char>, Option<Seq<char>>),
> {
    let dirs = case_dirs(case_dir, regions);
    let files = case_files(case_dir, regions);
    Seq::new(dirs.len(), |i: int| (dirs[i], None::<Seq<char>>)) + Seq::new(
        files.len(),
        |i: int| (files[i].0, Some(files[i].1)),
    )
}

/// The views of steps.
pub open spec fn step_views(steps: Seq<InitStep>) -> Seq<(Seq<char>, Option<Seq<char>>)> {
    Seq::new(steps.len(), |i: int| (steps[i].path@, text::opt_text(steps[i].content)))
}

/// What a step asks for where its path is there or not.
pub open spec fn action_of(is_dir: bool, force: bool, exists: bool) -> InitAction {
    if exists && (is_dir || !force) {
        InitAction::Leave
    } else if is_dir {
        InitAction::CreateDir
    } else {
        InitAction::WriteFile
    }
}

/// The message of a step that failed.
pub open spec fn step_failure(is_dir: bool, path: Seq<char>, reason: Seq<char>) -> Seq<char> {
    (if is_dir {
        "could not create "@
    } else {
        "could not write "@
    }) + path + " ("@ + reason + ")"@
}

/// Whether `summary` tells what was made of a new case whose steps found their
/// paths there as `existed` says.
pub open spec fn is_summary(
    summary: InitCaseSummary,
    case_dir: Seq<char>,
    force: bool,
    regions: Seq<Seq<char>>,
    existed: Seq<bool>,
) -> bool {
    let dirs = case_dirs(case_dir, regions);
    let files = file_paths(case_dir, regions);
    let n = files.len() as int;
    &&& summary.case_dir@ == case_dir
    &&& text::texts(summary.created_dirs@) == made(dirs, existed, 0, false, dirs.len() as int)
    &&& text::texts(summary.written_files@) == made(files, existed, dirs.len() as int, force, n)
    &&& text::texts(summary.skipped_files@) == left(files, existed, dirs.len() as int, force, n)
}

/// Without force, what is made was not there.
pub proof fn nothing_is_overwritten(
    paths: Seq<Seq<char>>,
    existed: Seq<bool>,
    from: int,
    n: int,
    at: int,
)
    requires
        0 <= n <= paths.len(),
        0 <= at < made(paths, existed, from, false, n).len(),
    ensures
        exists|i: int|
            0 <= i < n && #[trigger] paths[i] == made(paths, existed, from, false, n)[at]
                && !existed[from + i],
    decreases n,
{
    if n > 0 {
        let earlier = made(paths, existed, from, false, n - 1);
        if at < earlier.len() {
            nothing_is_overwritten(paths, existed, from, n - 1, at);
            let i = choose|i: int|
                0 <= i < n - 1 && #[trigger] paths[i] == earlier[at] && !existed[from + i];
            assert(paths[i] == made(paths, existed, from, false, n)[at]);
        } else {
            assert(paths[n - 1] == made(paths, existed, from, false, n)[at]);
        }
    }
}

proof fn lemma_all_made(
    paths: Seq<Seq<char>>,
    existed: Seq<bool>,
    from: int,
    force: bool,
    n: int,
)
    requires
        0 <= n <= paths.len(),
        forall|i: int| from <= i < from + n ==> !#[trigger] existed[i] || force,
    ensures
        made(paths, existed, from, force, n) == paths.take(n),
        left(paths, existed, from, force, n) == Seq::<Seq<char>>::empty(),
    decreases n,
{
    if n > 0 {
        lemma_all_made(paths, existed, from, force, n - 1);
        assert(!existed[from + n - 1] || force);
        assert(paths.take(n) =~= paths.take(n - 1).push(paths[n - 1]));
    } else {
        assert(paths.take(0) =~= Seq::empty());
    }
}

proof fn lemma_all_left(paths: Seq<Seq<char>>, existed: Seq<bool>, from: int, n: int)
    requires
        0 <= n <= paths.len(),
        forall|i: int| from <= i < from + n ==> #[trigger] existed[i],
    ensures
        made(paths, existed, from, false, n) == Seq::<Seq<char>>::empty(),
        left(paths, existed, from, false, n) == paths.take(n),
    decreases n,
{
    if n > 0 {
        lemma_all_left(paths, existed, from, n - 1);
        assert(existed[from + n - 1]);
        assert(paths.take(n) =~= paths.take(n - 1).push(paths[n - 1]));
    } else {
        assert(paths.take(0) =~= Seq::empty());
    }
}

/// Where every directory and file is there, and without force, nothing is created
/// or written, and all seven files are skipped.
pub proof fn second_run_changes_nothing(
    summary: InitCaseSummary,
    case_dir: Seq<char>,
    regions: Seq<Seq<char>>,
    existed: Seq<bool>,
)
    requires
        is_summary(summary, case_dir, false, regions, existed),
        existed.len() == step_paths(case_dir, regions).len(),
        forall|i: int| 0 <= i < existed.len() ==> #[trigger] existed[i],
    ensures
        summary.created_dirs@.len() == 0,
        summary.written_files@.len() == 0,
        text::texts(summary.skipped_files@) == file_paths(case_dir, regions),
        summary.skipped_files@.len() == 7,
{
    let dirs = case_dirs(case_dir, regions);
    let files = file_paths(case_dir, regions);
    lemma_all_left(dirs, existed, 0, dirs.len() as int);
    lemma_all_left(files, existed, dirs.len() as int, files.len() as int);
    assert(files.take(files.len() as int) =~= files);
    assert(text::texts(summary.created_dirs@).len() == summary.created_dirs@.len());
    assert(text::texts(summary.written_files@).len() == summary.written_files@.len());
    assert(text::texts(summary.skipped_files@).len() == summary.skipped_files@.len());
}

/// Where nothing is there, every directory is created and every file written.
pub proof fn first_run_makes_all(
    summary: InitCaseSummary,
    case_dir: Seq<char>,
    force: bool,
    regions: Seq<Seq<char>>,
    existed: Seq<bool>,
)
    requires
        is_summary(summary, case_dir, force, regions, existed),
        existed.len() == step_paths(case_dir, regions).len(),
        forall|i: int| 0 <= i < existed.len() ==> !#[trigger] existed[i],
    ensures
        text::texts(summary.created_dirs@) == case_dirs(case_dir, regions),
        text::texts(summary.written_files@) == file_paths(case_dir, regions),
        summary.skipped_files@.len() == 0,
{
    let dirs = case_dirs(case_dir, regions);
    let files = file_paths(case_dir, regions);
    lemma_all_made(dirs, existed, 0, false, dirs.len() as int);
    lemma_all_made(files, existed, dirs.len() as int, force, files.len() as int);
    assert(dirs.take(dirs.len() as int) =~= dirs);
    assert(files.take(files.len() as int) =~= files);
    assert(text::texts(summary.skipped_files@).len() == summary.skipped_files@.len());
}

/// Whether `s` names one directory: it is not empty and has no slash.
pub open spec fn is_name(s: Seq<char>) -> bool {
    s.len() > 0 && forall|i: int| 0 <= i < s.len() ==> #[trigger] s[i] != '/'
}

/// Whether `path` is `dir`, or a directory above it.
pub open spec fn is_above(path: Seq<char>, dir: Seq<char>) -> bool {
    dir == path || (path + "/"@).is_prefix_of(dir)
}

proof fn lemma_region_dirs(case_dir: Seq<char>, regions: Seq<Seq<char>>, n: int, dir: Seq<char>)
    requires
        0 <= n <= regions.len(),
        region_dirs(case_dir, regions, n).contains(dir),
    ensures
        exists|r: int|
            0 <= r < n && (dir == text::below(text::below(case_dir, "0"@), #[trigger] regions[r])
                || dir == text::below(
                text::below(text::below(case_dir, "constant"@), regions[r]),
                "polyMesh"@,
            )),
    decreases n,
{
    if n > 0 {
        let earlier = region_dirs(case_dir, regions, n - 1);
        let all = region_dirs(case_dir, regions, n);
        let at = choose|i: int| 0 <= i < all.len() && all[i] == dir;
        if at < earlier.len() {
            assert(earlier[at] == dir);
            lemma_region_dirs(case_dir, regions, n - 1, dir);
        } else {
            assert(dir == text::below(text::below(case_dir, "0"@), regions[n - 1]) || dir
                == text::below(
                text::below(text::below(case_dir, "constant"@), regions[n - 1]),
                "polyMesh"@,
            ));
        }
    }
}

/// What stands before a name below `dir`.
spec fn stem(dir: Seq<char>) -> Seq<char> {
    if dir.len() == 0 || dir.last() == '/' {
        dir
    } else {
        dir + "/"@
    }
}

proof fn lemma_below(dir: Seq<char>, name: Seq<char>)
    requires
        name.len() > 0,
        name[0] != '/',
    ensures
        text::below(dir, name) == stem(dir) + name,
{
}

proof fn lemma_below_twice(dir: Seq<char>, first: Seq<char>, second: Seq<char>)
    requires
        first.len() > 0,
        first[0] != '/',
        first.last() != '/',
        second.len() > 0,
        second[0] != '/',
    ensures
        text::below(text::below(dir, first), second) == stem(dir) + (first + "/"@ + second),
{
    let outer = text::below(dir, first);
    assert(outer.last() == first.last());
    assert(outer + "/"@ + second =~= stem(dir) + (first + "/"@ + second));
}

proof fn lemma_apart(front: Seq<char>, path: Seq<char>, dir: Seq<char>)
    requires
        !is_above(path, dir),
    ensures
        !is_above(front + path, front + dir),
{
    let whole = front + dir;
    assert(whole.skip(front.len() as int) =~= dir);
    assert((front + path).skip(front.len() as int) =~= path);
    if (front + path + "/"@).is_prefix_of(whole) {
        let above = path + "/"@;
        assert forall|i: int| 0 <= i < above.len() implies above[i] == dir[i] by {
            assert((front + path + "/"@)[front.len() + i] == above[i]);
            assert(whole[front.len() + i] == dir[i]);
        }
        assert(above =~= dir.take(above.len() as int));
    }
}

proof fn lemma_words_apart(path: Seq<char>, dir: Seq<char>, at: int)
    requires
        0 <= at < path.len(),
        at < dir.len(),
        path[at] != dir[at],
    ensures
        !is_above(path, dir),
{
    if (path + "/"@).is_prefix_of(dir) {
        assert((path + "/"@)[at] == path[at]);
    }
}

proof fn lemma_longer_apart(path: Seq<char>, dir: Seq<char>)
    requires
        dir.len() < path.len(),
    ensures
        !is_above(path, dir),
{
}

proof fn lemma_region_apart(name: Seq<char>, region: Seq<char>)
    requires
        is_name(name),
        is_name(region),
        name != region,
    ensures
        !is_above(name, region + "/"@ + "polyMesh"@),
{
    reveal_strlit("/");
    reveal_strlit("polyMesh");
    let dir = region + "/"@ + "polyMesh"@;
    assert(dir[region.len() as int] == '/');
    if is_above(name, dir) {
        let head = if dir == name {
            name
        } else {
            name + "/"@
        };
        assert forall|i: int| 0 <= i < head.len() implies head[i] == dir[i] by {}
        if region.len() < name.len() {
            assert(head[region.len() as int] == name[region.len() as int]);
        } else if name.len() < region.len() {
            assert(head == name + "/"@);
            assert(head[name.len() as int] == '/');
            assert(dir[name.len() as int] == region[name.len() as int]);
        } else {
            assert forall|i: int| 0 <= i < name.len() implies name[i] == region[i] by {
                assert(head[i] == name[i]);
                assert(dir[i] == region[i]);
            }
            assert(name =~= region);
        }
    }
}

/// Whether no directory of a case lies at or below `tail`.
spec fn is_clear(tail: Seq<char>, regions: Seq<Seq<char>>) -> bool {
    &&& tail.len() > 0
    &&& !is_above(tail, "0"@)
    &&& !is_above(tail, "constant"@)
    &&& !is_above(tail, "constant"@ + "/"@ + "polyMesh"@)
    &&& !is_above(tail, "system"@)
    &&& forall|r: int|
        0 <= r < regions.len() ==> !is_above(tail, "0"@ + "/"@ + #[trigger] regions[r])
            && !is_above(tail, "constant"@ + "/"@ + (regions[r] + "/"@ + "polyMesh"@))
}

/// Whether the regions have names that leave the files of a case alone.
pub open spec fn leave_files(regions: Seq<Seq<char>>) -> bool {
    forall|r: int|
        0 <= r < regions.len() ==> is_name(#[trigger] regions[r]) && regions[r]
            != "interfaces"@ && regions[r] != "transportProperties"@
}

proof fn lemma_literals()
    ensures
        "/"@ == seq!['/'],
        "0"@ == seq!['0'],
        "polyMesh"@.len() == 8 && "polyMesh"@[0] == 'p',
        "constant"@.len() == 8 && "constant"@[0] == 'c' && "constant"@.last() == 't',
        "system"@.len() == 6 && "system"@[0] == 's' && "system"@.last() == 'm',
{
    reveal_strlit("/");
    reveal_strlit("0");
    reveal_strlit("polyMesh");
    reveal_strlit("constant");
    reveal_strlit("system");
    assert("/"@ =~= seq!['/']);
    assert("0"@ =~= seq!['0']);
}

proof fn lemma_clear_dir(
    case_dir: Seq<char>,
    regions: Seq<Seq<char>>,
    tail: Seq<char>,
    dir: Seq<char>,
)
    requires
        leave_files(regions),
        is_clear(tail, regions),
        case_dirs(case_dir, regions).contains(dir),
    ensures
        !is_above(stem(case_dir) + tail, dir),
{
    lemma_literals();
    let front = stem(case_dir);
    let all = case_dirs(case_dir, regions);
    let below = region_dirs(case_dir, regions, regions.len() as int);
    let at = choose|i: int| 0 <= i < all.len() && all[i] == dir;
    lemma_below(case_dir, "0"@);
    lemma_below(case_dir, "constant"@);
    lemma_below(case_dir, "system"@);
    lemma_below_twice(case_dir, "constant"@, "polyMesh"@);
    lemma_apart(front, tail, "0"@);
    lemma_apart(front, tail, "constant"@);
    lemma_apart(front, tail, "constant"@ + "/"@ + "polyMesh"@);
    lemma_apart(front, tail, "system"@);
    if at == 0 {
        lemma_longer_apart(front + tail, dir);
    } else if at >= 5 {
        assert(below[at - 5] == dir);
        lemma_region_dirs(case_dir, regions, regions.len() as int, dir);
        let r = choose|r: int|
            0 <= r < regions.len() && (dir == text::below(
                text::below(case_dir, "0"@),
                #[trigger] regions[r],
            ) || dir == text::below(
                text::below(text::below(case_dir, "constant"@), regions[r]),
                "polyMesh"@,
            ));
        let region = regions[r];
        assert(region[0] != '/');
        assert(region.last() == region[region.len() - 1]);
        assert(region.last() != '/');
        lemma_below_twice(case_dir, "0"@, region);
        lemma_below_twice(case_dir, "constant"@, region);
        let outer = text::below(text::below(case_dir, "constant"@), region);
        assert(outer.last() == region.last());
        assert(outer + "/"@ + "polyMesh"@ =~= front + ("constant"@ + "/"@ + (region + "/"@
            + "polyMesh"@)));
        lemma_apart(front, tail, "0"@ + "/"@ + region);
        lemma_apart(front, tail, "constant"@ + "/"@ + (region + "/"@ + "polyMesh"@));
    }
}

proof fn lemma_clear_first(tail: Seq<char>, regions: Seq<Seq<char>>)
    requires
        tail.len() > 0,
        tail[0] != '0',
        tail[0] != 'c',
        tail[0] != 's' || tail.len() > 6,
    ensures
        is_clear(tail, regions),
{
    lemma_literals();
    lemma_words_apart(tail, "0"@, 0);
    lemma_words_apart(tail, "constant"@, 0);
    lemma_words_apart(tail, "constant"@ + "/"@ + "polyMesh"@, 0);
    if tail[0] == 's' {
        lemma_longer_apart(tail, "system"@);
    } else {
        lemma_words_apart(tail, "system"@, 0);
    }
    assert forall|r: int| 0 <= r < regions.len() implies !is_above(
        tail,
        "0"@ + "/"@ + #[trigger] regions[r],
    ) && !is_above(tail, "constant"@ + "/"@ + (regions[r] + "/"@ + "polyMesh"@)) by {
        lemma_words_apart(tail, "0"@ + "/"@ + regions[r], 0);
        lemma_words_apart(tail, "constant"@ + "/"@ + (regions[r] + "/"@ + "polyMesh"@), 0);
    }
}

proof fn lemma_clear_constant(name: Seq<char>, regions: Seq<Seq<char>>)
    requires
        is_name(name),
        name[0] != 'p',
        forall|r: int|
            0 <= r < regions.len() ==> is_name(#[trigger] regions[r]) && regions[r]
                != name,
    ensures
        is_clear("constant"@ + "/"@ + name, regions),
{
    lemma_literals();
    let front = "constant"@ + "/"@;
    let tail = front + name;
    lemma_words_apart(tail, "0"@, 0);
    lemma_longer_apart(tail, "constant"@);
    lemma_words_apart(tail, front + "polyMesh"@, 9);
    lemma_words_apart(tail, "system"@, 0);
    assert forall|r: int| 0 <= r < regions.len() implies !is_above(
        tail,
        "0"@ + "/"@ + #[trigger] regions[r],
    ) && !is_above(tail, "constant"@ + "/"@ + (regions[r] + "/"@ + "polyMesh"@)) by {
        lemma_words_apart(tail, "0"@ + "/"@ + regions[r], 0);
        lemma_region_apart(name, regions[r]);
        lemma_apart(front, name, regions[r] + "/"@ + "polyMesh"@);
    }
}

/// The name of file `at` in its directory.
spec fn file_name(at: int) -> Seq<char> {
    if at == 0 {
        "README.md"@
    } else if at == 1 {
        "controlDict"@
    } else if at == 2 {
        "fvSchemes"@
    } else if at == 3 {
        "fvSolution"@
    } else if at == 4 {
        "ferrumBackends"@
    } else if at == 5 {
        "interfaces"@
    } else {
        "transportProperties"@
    }
}

/// The path of file `at` in its case.
spec fn file_tail(at: int) -> Seq<char> {
    if at == 0 {
        file_name(at)
    } else if at < 5 {
        "system"@ + "/"@ + file_name(at)
    } else {
        "constant"@ + "/"@ + file_name(at)
    }
}

proof fn lemma_clear_files(case_dir: Seq<char>, regions: Seq<Seq<char>>, at: int)
    requires
        leave_files(regions),
        0 <= at < file_paths(case_dir, regions).len(),
    ensures
        file_paths(case_dir, regions)[at] == stem(case_dir) + file_tail(at),
        is_clear(file_tail(at), regions),
{
    lemma_literals();
    reveal_strlit("README.md");
    reveal_strlit("controlDict");
    reveal_strlit("fvSchemes");
    reveal_strlit("fvSolution");
    reveal_strlit("ferrumBackends");
    reveal_strlit("interfaces");
    reveal_strlit("transportProperties");
    let name = file_name(at);
    if at == 0 {
        lemma_below(case_dir, name);
        lemma_clear_first(name, regions);
    } else if at < 5 {
        lemma_below_twice(case_dir, "system"@, name);
        lemma_clear_first("system"@ + "/"@ + name, regions);
    } else {
        assert(is_name(name));
        lemma_below_twice(case_dir, "constant"@, name);
        lemma_clear_constant(name, regions);
    }
}

proof fn lemma_files_apart(i: int, j: int)
    requires
        0 <= j < i < 7,
    ensures
        !is_above(file_tail(i), file_tail(j)),
{
    lemma_literals();
    reveal_strlit("README.md");
    reveal_strlit("controlDict");
    reveal_strlit("fvSchemes");
    reveal_strlit("fvSolution");
    reveal_strlit("ferrumBackends");
    reveal_strlit("interfaces");
    reveal_strlit("transportProperties");
    let path = file_tail(i);
    let other = file_tail(j);
    if j == 0 || (i >= 5 && j < 5) {
        lemma_words_apart(path, other, 0);
    } else if i >= 5 {
        lemma_words_apart(path, other, 9);
    } else if j == 1 {
        lemma_words_apart(path, other, 7);
    } else if i == 3 {
        lemma_words_apart(path, other, 10);
    } else {
        lemma_words_apart(path, other, 8);
    }
}

/// Whether `existed` is what a disk tells that held the paths of `existing`, where
/// two texts are never the same path: a path is there if it was, or if an earlier
/// step made it or something below it.
pub open spec fn is_told(
    existing: Seq<Seq<char>>,
    paths: Seq<Seq<char>>,
    existed: Seq<bool>,
) -> bool {
    existed.len() == paths.len() && forall|i: int|
        0 <= i < paths.len() ==> (#[trigger] existed[i] <==> existing.contains(paths[i]) || exists|
            j: int,
        |
            0 <= j < i && is_above(paths[i], #[trigger] paths[j]))
}

/// Without force, a file of a new case is written exactly where it was not there
/// before, unless a region has the name of a file.
pub proof fn missing_files_are_written(
    case_dir: Seq<char>,
    regions: Seq<Seq<char>>,
    existing: Seq<Seq<char>>,
    existed: Seq<bool>,
    at: int,
)
    requires
        leave_files(regions),
        is_told(existing, step_paths(case_dir, regions), existed),
        0 <= at < file_paths(case_dir, regions).len(),
    ensures
        ({
            let files = file_paths(case_dir, regions);
            let from = case_dirs(case_dir, regions).len() as int;
            made(files, existed, from, false, files.len() as int).contains(files[at])
                <==> !existing.contains(files[at])
        }),
{
    let files = file_paths(case_dir, regions);
    let from = case_dirs(case_dir, regions).len() as int;
    assert forall|i: int| 0 <= i < files.len() implies (#[trigger] existed[from + i]
        <==> existing.contains(files[i])) by {
        lemma_file_is_told(case_dir, regions, existing, existed, i);
    }
    lemma_made_contains(files, existed, from, files.len() as int, files[at]);
    if made(files, existed, from, false, files.len() as int).contains(files[at]) {
        let i = choose|i: int|
            0 <= i < files.len() && #[trigger] files[i] == files[at] && !existed[from + i];
        assert(!existed[from + i]);
    } else {
        assert(existed[from + at]);
    }
}

proof fn lemma_file_is_told(
    case_dir: Seq<char>,
    regions: Seq<Seq<char>>,
    existing: Seq<Seq<char>>,
    existed: Seq<bool>,
    at: int,
)
    requires
        leave_files(regions),
        is_told(existing, step_paths(case_dir, regions), existed),
        0 <= at < file_paths(case_dir, regions).len(),
    ensures
        existed[case_dirs(case_dir, regions).len() + at] <==> existing.contains(
            file_paths(case_dir, regions)[at],
        ),
{
    let paths = step_paths(case_dir, regions);
    let dirs = case_dirs(case_dir, regions);
    let files = file_paths(case_dir, regions);
    let place = dirs.len() + at;
    assert(paths[place] == files[at]);
    lemma_clear_files(case_dir, regions, at);
    assert forall|j: int| 0 <= j < place implies !is_above(paths[place], #[trigger] paths[j]) by {
        if j < dirs.len() {
            assert(dirs.contains(dirs[j]));
            lemma_clear_dir(case_dir, regions, file_tail(at), dirs[j]);
        } else {
            let k = j - dirs.len();
            assert(paths[j] == files[k]);
            lemma_clear_files(case_dir, regions, k);
            lemma_files_apart(at, k);
            lemma_apart(stem(case_dir), file_tail(at), file_tail(k));
        }
    }
    assert(existed[place] <==> existing.contains(paths[place]));
}

proof fn lemma_made_contains(
    paths: Seq<Seq<char>>,
    existed: Seq<bool>,
    from: int,
    n: int,
    path: Seq<char>,
)
    requires
        0 <= n <= paths.len(),
    ensures
        made(paths, existed, from, false, n).contains(path) <==> exists|i: int|
            0 <= i < n && #[trigger] paths[i] == path && !existed[from + i],
    decreases n,
{
    let now = made(paths, existed, from, false, n);
    if n > 0 {
        lemma_made_contains(paths, existed, from, n - 1, path);
        let earlier = made(paths, existed, from, false, n - 1);
        if !existed[from + n - 1] {
            assert(now == earlier.push(paths[n - 1]));
            assert(now[earlier.len() as int] == paths[n - 1]);
            if earlier.contains(path) {
                let i = choose|i: int| 0 <= i < earlier.len() && earlier[i] == path;
                assert(now[i] == path);
            }
        }
    }
}

/// Whether each region has a directory name of its own, which stands for no other
/// directory and is no file of a case.
pub open spec fn are_apart(regions: Seq<Seq<char>>) -> bool {
    &&& leave_files(regions)
    &&& regions.no_duplicates()
    &&& forall|r: int|
        0 <= r < regions.len() ==> #[trigger] regions[r] != "."@ && regions[r] != ".."@
}

/// The path of directory `at` in its case.
spec fn dir_tail(regions: Seq<Seq<char>>, at: int) -> Seq<char> {
    if at == 1 {
        "0"@
    } else if at == 2 {
        "constant"@
    } else if at == 3 {
        "constant"@ + "/"@ + "polyMesh"@
    } else if at == 4 {
        "system"@
    } else if (at - 5) % 2 == 0 {
        "0"@ + "/"@ + regions[(at - 5) / 2]
    } else {
        "constant"@ + "/"@ + (regions[(at - 5) / 2] + "/"@ + "polyMesh"@)
    }
}

proof fn lemma_region_dir_at(case_dir: Seq<char>, regions: Seq<Seq<char>>, n: int, at: int)
    requires
        0 <= n <= regions.len(),
        0 <= at < 2 * n,
    ensures
        region_dirs(case_dir, regions, n).len() == 2 * n,
        region_dirs(case_dir, regions, n)[at] == (if at % 2 == 0 {
            text::below(text::below(case_dir, "0"@), regions[at / 2])
        } else {
            text::below(
                text::below(text::below(case_dir, "constant"@), regions[at / 2]),
                "polyMesh"@,
            )
        }),
    decreases n,
{
    lemma_region_dir_count(case_dir, regions, n);
    lemma_region_dir_count(case_dir, regions, n - 1);
    if at < 2 * (n - 1) {
        lemma_region_dir_at(case_dir, regions, n - 1, at);
    }
}

proof fn lemma_region_dir_count(case_dir: Seq<char>, regions: Seq<Seq<char>>, n: int)
    requires
        0 <= n <= regions.len(),
    ensures
        region_dirs(case_dir, regions, n).len() == 2 * n,
    decreases n,
{
    if n > 0 {
        lemma_region_dir_count(case_dir, regions, n - 1);
    }
}

proof fn lemma_dir_at(case_dir: Seq<char>, regions: Seq<Seq<char>>, at: int)
    requires
        leave_files(regions),
        0 < at < case_dirs(case_dir, regions).len(),
    ensures
        case_dirs(case_dir, regions)[at] == stem(case_dir) + dir_tail(regions, at),
        dir_tail(regions, at).len() > 0,
        at >= 5 ==> 0 <= (at - 5) / 2 < regions.len(),
{
    lemma_literals();
    let front = stem(case_dir);
    lemma_region_dir_count(case_dir, regions, regions.len() as int);
    lemma_below(case_dir, "0"@);
    lemma_below(case_dir, "constant"@);
    lemma_below(case_dir, "system"@);
    lemma_below_twice(case_dir, "constant"@, "polyMesh"@);
    if at >= 5 {
        let r = (at - 5) / 2;
        lemma_region_dir_at(case_dir, regions, regions.len() as int, at - 5);
        let region = regions[r];
        assert(region[0] != '/');
        assert(region.last() == region[region.len() - 1]);
        lemma_below_twice(case_dir, "0"@, region);
        lemma_below_twice(case_dir, "constant"@, region);
        let outer = text::below(text::below(case_dir, "constant"@), region);
        assert(outer.last() == region.last());
        assert(outer + "/"@ + "polyMesh"@ =~= front + ("constant"@ + "/"@ + (region + "/"@
            + "polyMesh"@)));
    }
}

proof fn lemma_names_apart(name: Seq<char>, other: Seq<char>)
    requires
        is_name(name),
        is_name(other),
        name != other,
    ensures
        !is_above(name, other),
        !is_above(name + "/"@ + "polyMesh"@, other + "/"@ + "polyMesh"@),
{
    lemma_literals();
    let path = name + "/"@ + "polyMesh"@;
    let dir = other + "/"@ + "polyMesh"@;
    if is_above(name, other) {
        let head = name + "/"@;
        assert(head[name.len() as int] == '/');
        assert(head[name.len() as int] == other[name.len() as int]);
    }
    if name.len() < other.len() {
        assert(path[name.len() as int] == '/');
        assert(dir[name.len() as int] == other[name.len() as int]);
        lemma_words_apart(path, dir, name.len() as int);
    } else if other.len() < name.len() {
        assert(dir[other.len() as int] == '/');
        assert(path[other.len() as int] == name[other.len() as int]);
        lemma_words_apart(path, dir, other.len() as int);
    } else {
        if forall|i: int| 0 <= i < name.len() ==> name[i] == other[i] {
            assert(name =~= other);
        }
        let at = choose|i: int| 0 <= i < name.len() && name[i] != other[i];
        assert(path[at] == name[at]);
        assert(dir[at] == other[at]);
        lemma_words_apart(path, dir, at);
    }
}

proof fn lemma_dirs_apart(regions: Seq<Seq<char>>, i: int, j: int)
    requires
        are_apart(regions),
        0 < j < i < 5 + 2 * regions.len(),
    ensures
        !is_above(dir_tail(regions, i), dir_tail(regions, j)),
{
    lemma_literals();
    let path = dir_tail(regions, i);
    let other = dir_tail(regions, j);
    let front = "constant"@ + "/"@;
    if i < 5 {
        if i == 3 && j == 2 {
            lemma_longer_apart(path, other);
        } else {
            lemma_words_apart(path, other, 0);
        }
    } else {
        let region = regions[(i - 5) / 2];
        assert(is_name(region));
        if j < 5 {
            if (i - 5) % 2 == 0 {
                if j == 1 {
                    lemma_longer_apart(path, other);
                } else {
                    lemma_words_apart(path, other, 0);
                }
            } else if j == 2 || j == 3 {
                lemma_longer_apart(path, other);
            } else {
                lemma_words_apart(path, other, 0);
            }
        } else {
            let earlier = regions[(j - 5) / 2];
            assert(is_name(earlier));
            if (i - 5) % 2 != (j - 5) % 2 {
                lemma_words_apart(path, other, 0);
            } else {
                assert((j - 5) / 2 < (i - 5) / 2);
                lemma_names_apart(region, earlier);
                lemma_apart("0"@ + "/"@, region, earlier);
                lemma_apart(front, region + "/"@ + "polyMesh"@, earlier + "/"@ + "polyMesh"@);
            }
        }
    }
}

/// A run on a disk that holds nothing of the case finds nothing there: it creates
/// every directory and writes every file.
pub proof fn fresh_case_is_complete(
    summary: InitCaseSummary,
    case_dir: Seq<char>,
    force: bool,
    regions: Seq<Seq<char>>,
    existed: Seq<bool>,
)
    requires
        are_apart(regions),
        is_summary(summary, case_dir, force, regions, existed),
        is_told(Seq::empty(), step_paths(case_dir, regions), existed),
    ensures
        text::texts(summary.created_dirs@) == case_dirs(case_dir, regions),
        text::texts(summary.written_files@) == file_paths(case_dir, regions),
        summary.skipped_files@.len() == 0,
{
    let paths = step_paths(case_dir, regions);
    let dirs = case_dirs(case_dir, regions);
    let front = stem(case_dir);
    lemma_region_dir_count(case_dir, regions, regions.len() as int);
    assert forall|i: int| 0 <= i < existed.len() implies !#[trigger] existed[i] by {
        if i >= dirs.len() {
            lemma_file_is_told(case_dir, regions, Seq::empty(), existed, i - dirs.len());
        } else {
            assert forall|j: int| 0 <= j < i implies !is_above(paths[i], #[trigger] paths[j]) by {
                lemma_dir_at(case_dir, regions, i);
                if j == 0 {
                    lemma_longer_apart(paths[i], paths[j]);
                } else {
                    lemma_dir_at(case_dir, regions, j);
                    lemma_dirs_apart(regions, i, j);
                    lemma_apart(front, dir_tail(regions, i), dir_tail(regions, j));
                }
            }
        }
    }
    first_run_makes_all(summary, case_dir, force, regions, existed);
}

/// Where it is asked for, every file is written.
pub proof fn force_writes_all(
    summary: InitCaseSummary,
    case_dir: Seq<char>,
    regions: Seq<Seq<char>>,
    existed: Seq<bool>,
)
    requires
        is_summary(summary, case_dir, true, regions, existed),
    ensures
        text::texts(summary.written_files@) == file_paths(case_dir, regions),
        summary.skipped_files@.len() == 0,
{
    let dirs = case_dirs(case_dir, regions);
    let files = file_paths(case_dir, regions);
    lemma_all_made(files, existed, dirs.len() as int, true, files.len() as int);
    assert(files.take(files.len() as int) =~= files);
    assert(text::texts(summary.skipped_files@).len() == summary.skipped_files@.len());
}

/// A path is either made or left as it is.
pub proof fn every_file_is_told(
    paths: Seq<Seq<char>>,
    existed: Seq<bool>,
    from: int,
    force: bool,
    n: int,
)
    requires
        0 <= n <= paths.len(),
    ensures
        made(paths, existed, from, force, n).len() + left(paths, existed, from, force, n).len()
            == n,
    decreases n,
{
    if n > 0 {
        every_file_is_told(paths, existed, from, force, n - 1);
    }
}

/// The steps in the making of a case, in their order.
pub fn init_steps(options: &InitCaseOptions) -> (steps: Vec<InitStep>)
    ensures
        step_views(steps@) == steps_of(options@.case_dir, options@.regions),
{
    let dirs = directories(options).into_parts();
    let files = templates(options);
    let ghost dir_views = text::texts(dirs@);
    let ghost views = foam_case::file_views(files@);
    let ghost wanted = steps_of(options@.case_dir, options@.regions);
    let mut steps: Vec<InitStep> = Vec::new();
    let mut at: usize = 0;
    assert(step_views(steps@) =~= wanted.take(0));
    while at < dirs.len()
        invariant
            at <= dirs@.len(),
            dir_views == text::texts(dirs@),
            dir_views == case_dirs(options@.case_dir, options@.regions),
            wanted == steps_of(options@.case_dir, options@.regions),
            step_views(steps@) == wanted.take(at as int),
        decreases dirs@.len() - at,
    {
        let ghost earlier = step_views(steps@);
        steps.push(InitStep { path: dirs[at].clone(), content: None });
        proof {
            assert(wanted[at as int] == (dir_views[at as int], None::<Seq<char>>));
            assert(step_views(steps@) =~= earlier.push(wanted[at as int]));
            assert(wanted.take(at + 1) =~= earlier.push(wanted[at as int]));
        }
        at += 1;
    }
    let ghost front = dirs@.len() as int;
    let mut k: usize = 0;
    while k < files.len()
        invariant
            k <= files@.len(),
            views == foam_case::file_views(files@),
            views == case_files(options@.case_dir, options@.regions),
            front == case_dirs(options@.case_dir, options@.regions).len(),
            wanted == steps_of(options@.case_dir, options@.regions),
            step_views(steps@) == wanted.take(front + k),
        decreases files@.len() - k,
    {
        let ghost earlier = step_views(steps@);
        steps.push(
            InitStep { path: files[k].path.clone(), content: Some(files[k].content.clone()) },
        );
        proof {
            assert(wanted[front + k] == (views[k as int].0, Some(views[k as int].1)));
            assert(step_views(steps@) =~= earlier.push(wanted[front + k]));
            assert(wanted.take(front + k + 1) =~= earlier.push(wanted[front + k]));
        }
        k += 1;
    }
    assert(wanted.take(front + k) =~= wanted);
    steps
}

/// What a step asks for where its path is there or not.
pub fn step_action(step: &InitStep, force: bool, exists: bool) -> (action: InitAction)
    ensures
        action == action_of(step.content is None, force, exists),
{
    let is_dir: bool = step.content.is_none();
    if exists && (is_dir || !force) {
        InitAction::Leave
    } else if is_dir {
        InitAction::CreateDir
    } else {
        InitAction::WriteFile
    }
}

fn sorted_out(paths: &Vec<String>, existed: &Vec<bool>, from: usize, force: bool) -> (found: (
    Vec<String>,
    Vec<String>,
))
    requires
        from + paths@.len() <= existed.len(),
    ensures
        text::texts(found.0@) == made(
            text::texts(paths@),
            existed@,
            from as int,
            force,
            paths@.len() as int,
        ),
        text::texts(found.1@) == left(
            text::texts(paths@),
            existed@,
            from as int,
            force,
            paths@.len() as int,
        ),
{
    let ghost all = text::texts(paths@);
    let mut done: Vec<String> = Vec::new();
    let mut kept: Vec<String> = Vec::new();
    let mut at: usize = 0;
    assert(text::texts(done@) =~= Seq::empty());
    assert(text::texts(kept@) =~= Seq::empty());
    while at < paths.len()
        invariant
            at <= paths@.len(),
            all == text::texts(paths@),
            from + paths@.len() <= existed.len(),
            text::texts(done@) == made(all, existed@, from as int, force, at as int),
            text::texts(kept@) == left(all, existed@, from as int, force, at as int),
        decreases paths@.len() - at,
    {
        if existed[from + at] && !force {
            let ghost earlier = text::texts(kept@);
            kept.push(paths[at].clone());
            assert(text::texts(kept@) =~= earlier.push(all[at as int]));
        } else {
            let ghost earlier = text::texts(done@);
            done.push(paths[at].clone());
            assert(text::texts(done@) =~= earlier.push(all[at as int]));
        }
        at += 1;
    }
    (done, kept)
}

/// What was made of a new case. `existed` tells of each step, up to the last one
/// that was taken, whether its path was there when its turn came; `failure` is the
/// reason for which that last step failed.
pub fn init_case(options: &InitCaseOptions, existed: &Vec<bool>, failure: Option<String>) -> (out:
    Result<InitCaseSummary, String>)
    requires
        ({
            let steps = steps_of(options@.case_dir, options@.regions);
            let last = existed@.len() - 1;
            match failure {
                None => existed@.len() == steps.len(),
                Some(_) => 0 <= last < steps.len() && action_of(
                    steps[last].1 is None,
                    options.force,
                    existed@[last],
                ) != InitAction::Leave,
            }
        }),
    ensures
        match (failure, out) {
            (None, Ok(summary)) => is_summary(
                summary,
                options@.case_dir,
                options.force,
                options@.regions,
                existed@,
            ),
            (Some(reason), Err(message)) => {
                let step = steps_of(options@.case_dir, options@.regions)[existed@.len() - 1];
                message@ == step_failure(step.1 is None, step.0, reason@)
            },
            _ => false,
        },
{
    let ghost steps = steps_of(options@.case_dir, options@.regions);
    if let Some(reason) = failure {
        let all = init_steps(options);
        assert(step_views(all@).len() == all@.len());
        let step = &all[existed.len() - 1];
        assert(steps[existed@.len() - 1] == step_views(all@)[existed@.len() - 1]);
        let mut message = if step.content.is_none() {
            "could not create ".to_string()
        } else {
            "could not write ".to_string()
        };
        message.append(step.path.as_str());
        message.append(" (");
        message.append(reason.as_str());
        message.append(")");
        return Err(message);
    }
    let dirs = directories(options).into_parts();
    let templates = templates(options);
    let ghost views = foam_case::file_views(templates@);
    let ghost wanted = file_paths(options@.case_dir, options@.regions);
    let mut files: Vec<String> = Vec::new();
    let mut at: usize = 0;
    assert(text::texts(files@) =~= wanted.take(0));
    while at < templates.len()
        invariant
            at <= templates@.len(),
            views == foam_case::file_views(templates@),
            views == case_files(options@.case_dir, options@.regions),
            wanted == file_paths(options@.case_dir, options@.regions),
            text::texts(files@) == wanted.take(at as int),
        decreases templates@.len() - at,
    {
        let ghost earlier = text::texts(files@);
        files.push(templates[at].path.clone());
        proof {
            assert(wanted[at as int] == views[at as int].0);
            assert(text::texts(files@) =~= earlier.push(wanted[at as int]));
            assert(wanted.take(at + 1) =~= earlier.push(wanted[at as int]));
        }
        at += 1;
    }
    assert(wanted.take(at as int) =~= wanted);
    assert(text::texts(dirs@).len() == dirs@.len());
    assert(text::texts(files@).len() == files@.len());
    let (created_dirs, _) = sorted_out(&dirs, existed, 0, false);
    let (written_files, skipped_files) = sorted_out(&files, existed, dirs.len(), options.force);
    Ok(
        InitCaseSummary {
            case_dir: options.case_dir.clone(),
            created_dirs,
            written_files,
            skipped_files,
        },
    )
}

} // verus!
