//! Commands, their arguments, and the files of a new case.

use ferrum::arguments::{
    is_help, is_openfoam_word, parse_bool_arg, parse_bool_value, parse_finite_f64_arg,
    parse_non_negative_f64_arg, parse_non_negative_usize_arg, parse_positive_f64_arg,
    parse_positive_usize_arg, parse_relaxation_arg,
};
use ferrum::commands::{
    ferrum_subcommand, parse_case_dir, parse_gmsh_to_foam_args, parse_init_case_args,
    uses_cell_zones, validate_case_name, wants_usage, Alias, InitCaseOptions, Subcommand,
};
use ferrum::control::parse_control_dict_str;
use ferrum::init::{init_case, init_steps, step_action, InitAction, InitCaseSummary};
use ferrum::mesh_text::init_case_lines;
use ferrum::numerics::parse_numerics_dictionary_str;
use ferrum::reals::{Readings, Real, RealKind};

fn args(words: &[&str]) -> Vec<String> {
    words.iter().map(|word| word.to_string()).collect()
}

fn number(value: f64) -> Real {
    let kind = if !value.is_finite() {
        RealKind::NotFinite
    } else if value < 0.0 {
        RealKind::Negative
    } else if value == 0.0 {
        RealKind::Zero
    } else if value <= 1.0 {
        RealKind::UpToOne
    } else {
        RealKind::AboveOne
    };
    Real {
        kind,
        display: format!("{value}"),
        scientific: format!("{value:.6e}"),
        percent: format!("{:.3}%", value * 100.0),
        full: if value == 0.0 { "0".to_string() } else { format!("{value:.16e}") },
    }
}

fn readings(texts: &[&str]) -> Readings {
    let mut found = Readings::new();
    for text in texts {
        if let Ok(value) = text.parse::<f64>() {
            found.list(text.to_string(), number(value));
        }
    }
    found
}

#[test]
fn knows_the_commands_and_their_other_names() {
    for (name, alias) in [
        ("gmshToFoam", Alias::GmshToFerrumFoam),
        ("gmshToFerrumFoam", Alias::GmshToFerrumFoam),
        ("checkMesh", Alias::CheckFerrumMesh),
        ("splitMeshRegions", Alias::SplitFerrumMeshRegions),
        ("initCase", Alias::InitFerrumCase),
        ("solve", Alias::FerrumSolver),
        ("solver", Alias::FerrumSolver),
        ("ferrumSolver", Alias::FerrumSolver),
        ("pipeBenchmark", Alias::FerrumPipeBenchmark),
        ("ferrumPlaneChannelBenchmark", Alias::FerrumPlaneChannelBenchmark),
    ] {
        assert_eq!(ferrum_subcommand(&args(&[name])), Ok(Subcommand::Run(alias)));
    }
    assert_eq!(ferrum_subcommand(&args(&[])), Ok(Subcommand::Help));
    assert_eq!(ferrum_subcommand(&args(&["--help"])), Ok(Subcommand::Help));
    assert_eq!(
        ferrum_subcommand(&args(&["mesh"])),
        Err("unknown ferrum command 'mesh'".to_string())
    );
}

#[test]
fn shows_the_usage_where_it_is_asked_for() {
    assert!(is_help("-h") && is_help("--help"));
    assert!(!is_help("help me"));
    assert!(wants_usage(Alias::InitFerrumCase, &args(&[])));
    assert!(wants_usage(Alias::GmshToFerrumFoam, &args(&[])));
    assert!(!wants_usage(Alias::CheckFerrumMesh, &args(&[])));
    assert!(wants_usage(Alias::CheckFerrumMesh, &args(&["-case", "c", "--help"])));
}

#[test]
fn takes_the_first_case_directory() {
    assert_eq!(parse_case_dir(&args(&["x", "-case", "a", "--case", "b"]), "."), Ok("a".to_string()));
    assert_eq!(parse_case_dir(&args(&["x"]), "."), Ok(".".to_string()));
    assert_eq!(
        parse_case_dir(&args(&["-case"]), "."),
        Err("-case requires a directory".to_string())
    );
    assert!(uses_cell_zones(&args(&["-case", ".", "-cellZones"])));
    assert!(!uses_cell_zones(&args(&["-case", "."])));
}

#[test]
fn reads_options_of_a_new_case() {
    let options = parse_init_case_args(&args(&[
        "case", "-regions", "solid, fluid,,solid", "-region", "air", "--force",
    ]))
    .expect("options");
    assert_eq!(options.case_dir, "case");
    assert!(options.force);
    assert_eq!(options.regions, vec!["air", "fluid", "solid"]);
    let message = |words: &[&str]| parse_init_case_args(&args(words)).expect_err("refused");
    assert_eq!(message(&[]), "initFerrumCase requires a case directory");
    assert_eq!(message(&["c", "-region"]), "-region requires a region name");
    assert_eq!(message(&["c", "-region", "a b"]), "invalid region name 'a b'");
    assert_eq!(message(&["c", "-regions"]), "-regions requires a comma-separated region list");
    assert_eq!(message(&["c", "-x"]), "unknown initFerrumCase option '-x'");
    assert_eq!(
        validate_case_name("", "region"),
        Err("region name must not be empty".to_string())
    );
    assert!(is_openfoam_word("wall-1_a") && !is_openfoam_word("a.b") && !is_openfoam_word(""));
}

#[test]
fn reads_options_of_an_import() {
    let import = parse_gmsh_to_foam_args(&args(&[
        "m.msh", "-case", "c", "-emptyPatch", "front", "-wedgePatch", "w", "-symmetryPatch", "s",
        "-patchType", "inlet=wall", "--patchType", "front", "patch",
    ]))
    .expect("import");
    assert_eq!(import.mesh_path, "m.msh");
    assert_eq!(import.case_dir, "c");
    assert_eq!(import.options.patch_type_for("front"), "patch");
    assert_eq!(import.options.patch_type_for("w"), "wedge");
    assert_eq!(import.options.patch_type_for("s"), "symmetryPlane");
    assert_eq!(import.options.patch_type_for("inlet"), "wall");
    let message = |words: &[&str]| parse_gmsh_to_foam_args(&args(words)).expect_err("refused");
    assert_eq!(message(&[]), "gmshToFerrumFoam requires a mesh path");
    assert_eq!(message(&["m", "-wedgePatch"]), "-wedgePatch requires a patch name");
    assert_eq!(message(&["m", "-patchType", " =wall"]), "patch name must not be empty");
    assert_eq!(message(&["m", "-patchType", "a=b c"]), "invalid OpenFOAM patch type 'b c'");
    assert_eq!(
        message(&["m", "-patchType", "a"]),
        "-patchType requires '<patch>=<type>' or '<patch> <type>'"
    );
    assert_eq!(message(&["m", "x"]), "unknown gmshToFerrumFoam option 'x'");
}

#[test]
fn reads_flags_and_numbers() {
    assert_eq!(parse_bool_value("ON;"), Some(true));
    assert_eq!(parse_bool_value("no"), Some(false));
    assert_eq!(parse_bool_value("maybe"), None);
    assert!(parse_bool_arg("--x", "maybe").is_err());
    assert_eq!(parse_positive_usize_arg("--x", "7"), Ok(7));
    assert!(parse_positive_usize_arg("--x", "0").is_err());
    assert!(parse_positive_usize_arg("--x", "-1").is_err());
    assert_eq!(parse_non_negative_usize_arg("--x", "0"), Ok(0));
    let known = readings(&["0", "-1", "0.5", "2", "inf"]);
    assert_eq!(parse_finite_f64_arg(&known, "--x", "-1").expect("number").display, "-1");
    assert!(parse_finite_f64_arg(&known, "--x", "inf").is_err());
    assert!(parse_finite_f64_arg(&known, "--x", "word").is_err());
    assert!(parse_positive_f64_arg(&known, "--x", "0").is_err());
    assert_eq!(parse_positive_f64_arg(&known, "--x", "2").expect("number").display, "2");
    assert!(parse_non_negative_f64_arg(&known, "--x", "-1").is_err());
    assert!(parse_non_negative_f64_arg(&known, "--x", "0").is_ok());
    assert!(parse_relaxation_arg(&known, "--x", "0.5").is_ok());
    assert!(parse_relaxation_arg(&known, "--x", "2").is_err());
    assert!(parse_relaxation_arg(&known, "--x", "0").is_err());
}

fn new_case(force: bool) -> InitCaseOptions {
    InitCaseOptions { case_dir: "case".to_string(), force, regions: vec!["fluid".to_string()] }
}

/// What is made of a new case on a disk that holds the paths of `existing`, and
/// the files that are written.
fn made(options: &InitCaseOptions, existing: &[&str]) -> (InitCaseSummary, Vec<(String, String)>) {
    let mut paths: Vec<String> = existing.iter().map(|path| path.to_string()).collect();
    let mut existed = Vec::new();
    let mut files = Vec::new();
    for step in init_steps(options) {
        let above = format!("{}/", step.path);
        let exists = paths.iter().any(|path| *path == step.path || path.starts_with(&above));
        existed.push(exists);
        match step_action(&step, options.force, exists) {
            InitAction::CreateDir => assert!(step.content.is_none()),
            InitAction::WriteFile => {
                files.push((step.path.clone(), step.content.expect("content")));
            }
            InitAction::Leave => assert!(exists),
        }
        paths.push(step.path);
    }
    (init_case(options, &existed, None).expect("summary"), files)
}

#[test]
fn plans_a_new_case() {
    let (summary, files) = made(&new_case(false), &[]);
    assert_eq!(
        summary.created_dirs,
        vec![
            "case",
            "case/0",
            "case/constant",
            "case/constant/polyMesh",
            "case/system",
            "case/0/fluid",
            "case/constant/fluid/polyMesh",
        ]
    );
    assert_eq!(
        summary.written_files,
        vec![
            "case/README.md",
            "case/system/controlDict",
            "case/system/fvSchemes",
            "case/system/fvSolution",
            "case/system/ferrumBackends",
            "case/constant/interfaces",
            "case/constant/transportProperties",
        ]
    );
    assert!(summary.skipped_files.is_empty());
    assert_eq!(files.len(), 7);
    assert_eq!(files[0].0, "case/README.md");
    assert!(files[0].1.ends_with("Configured region folders:\n\n- `fluid`\n"));
    assert_eq!(init_case_lines(&summary).into_parts()[0], "Initialized FerrumCFD case: case");
}

#[test]
fn keeps_files_that_exist() {
    let existing = ["case", "case/system", "case/system/controlDict"];
    let (summary, files) = made(&new_case(false), &existing);
    assert!(!summary.created_dirs.contains(&"case".to_string()));
    assert_eq!(summary.skipped_files, vec!["case/system/controlDict"]);
    assert!(files.iter().all(|(path, _)| path != "case/system/controlDict"));
    assert_eq!(
        init_case_lines(&summary).into_parts().last().map(String::as_str),
        Some("use --force to overwrite existing template files")
    );
    let (forced, files) = made(&new_case(true), &existing);
    assert!(forced.skipped_files.is_empty());
    assert_eq!(files.len(), 7);
}

#[test]
fn changes_nothing_in_a_second_run() {
    let options = new_case(false);
    let (first, _) = made(&options, &[]);
    let existed = vec![true; init_steps(&options).len()];
    let second = init_case(&options, &existed, None).expect("summary");
    assert!(second.created_dirs.is_empty());
    assert!(second.written_files.is_empty());
    assert_eq!(second.skipped_files, first.written_files);
}

#[test]
fn takes_the_disk_at_its_word() {
    let mut options = new_case(false);
    options.regions = args(&[".", "", "..", "a", "a"]);
    let steps = init_steps(&options);
    let paths: Vec<&str> = steps[5..15].iter().map(|step| step.path.as_str()).collect();
    assert_eq!(
        paths,
        vec![
            "case/0/.",
            "case/constant/./polyMesh",
            "case/0/",
            "case/constant/polyMesh",
            "case/0/..",
            "case/constant/../polyMesh",
            "case/0/a",
            "case/constant/a/polyMesh",
            "case/0/a",
            "case/constant/a/polyMesh",
        ]
    );
    let mut existed = vec![false; steps.len()];
    for there in [5, 6, 7, 8, 9, 13, 14] {
        existed[there] = true;
    }
    let summary = init_case(&options, &existed, None).expect("summary");
    assert_eq!(
        summary.created_dirs[5..],
        ["case/constant/../polyMesh", "case/0/a", "case/constant/a/polyMesh"]
    );
}

#[test]
fn tells_which_step_failed() {
    let options = new_case(true);
    let reason = || Some("denied".to_string());
    assert_eq!(
        init_case(&options, &vec![true, false], reason()).expect_err("directory"),
        "could not create case/0 (denied)"
    );
    assert_eq!(
        init_case(&options, &vec![true; 8], reason()).expect_err("file"),
        "could not write case/README.md (denied)"
    );
}

#[test]
fn leaves_a_file_whose_name_a_region_has() {
    let mut options = new_case(false);
    options.regions = args(&["interfaces", "/root"]);
    let (summary, _) = made(&options, &[]);
    assert_eq!(summary.skipped_files, vec!["case/constant/interfaces"]);
    assert_eq!(summary.written_files.len(), 6);
    assert_eq!(
        summary.created_dirs[5..],
        ["case/0/interfaces", "case/constant/interfaces/polyMesh", "/root", "/root/polyMesh"]
    );
}

#[test]
fn reads_the_dictionaries_of_a_new_case() {
    let (_, files) = made(&new_case(true), &[]);
    let content = |path: &str| {
        let file = files.iter().find(|file| file.0 == path).expect("file");
        file.1.clone()
    };
    let control = parse_control_dict_str(
        &content("case/system/controlDict"),
        "controlDict",
        &readings(&["0", "1"]),
    )
    .expect("control");
    assert_eq!(control.application, "ferrumSolver");
    assert_eq!(control.end_time.map(|time| time.display), Some("1".to_string()));
    let schemes = parse_numerics_dictionary_str(&content("case/system/fvSchemes"), "fvSchemes")
        .expect("schemes");
    assert_eq!(schemes.len(), 6);
    assert_eq!(schemes[3].entries[0].value, vec!["Gauss", "linear", "corrected"]);
    let solution = parse_numerics_dictionary_str(&content("case/system/fvSolution"), "fvSolution")
        .expect("solution");
    assert_eq!(solution[1].entries[0].key, "nNonOrthogonalCorrectors");
}
