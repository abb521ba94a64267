# ferrum

Mesh and case tools of a finite-volume flow solver with OpenFOAM-like cases,
verified with Verus.

- `src/` is the library: readers of Gmsh meshes, mesh directories, field files
  and case dictionaries; the topology, ordering and zones of an imported mesh
  and the files it is written to; the command lines; the settings of a run; the
  terms of the diffusion and momentum equations; the course of a laminar SIMPLE
  run; and every report, table and JSON text that the commands print or write.
  Each function states what it returns, for every input that its `requires`
  admits, and each module with laws that relate several functions states them as
  public proof functions.
- `tests/` runs the library on concrete meshes, dictionaries and command lines.
- `app/` is ordinary Rust round the library: files, output, and the
  floating-point kernels.

Numbers with a fractional part enter the library as `reals::Real`: where the
number lies and how it is written. What a text denotes as a number is given as
`reals::Readings`. Arithmetic on such numbers is the application's; the library
lists the terms, decides what comes next and checks what comes in.

Laws worth looking at first: `readback::written_mesh_is_read`,
`summary_readback::written_summary_is_read`,
`field_readback::written_field_is_read`, `plot_readback::report_is_plotted`,
`topology::topology_is_sound`, `ordering::faces_are_written_once`,
`momentum::flux_is_conserved`, `simple_loop::run_ends`,
`report_grammar::report_is_json`, `plan_grammar::plan_is_json` and
`resolve::command_line_wins`.
