use shoulders::discovery::{dedup_specs, make_kernel_spec, search_roots, KernelSpec};

fn spec(name: &str, display: &str) -> KernelSpec {
    KernelSpec {
        name: String::from(name),
        display_name: String::from(display),
        language: String::from("python"),
        path: format!("/kernels/{display}"),
    }
}

#[test]
fn definition_fields_default_to_the_directory_name() {
    let s = make_kernel_spec("python3", "/kernels/python3", None, None);
    assert_eq!(s.name, "python3");
    assert_eq!(s.display_name, "python3");
    assert_eq!(s.language, "python3");
    assert_eq!(s.path, "/kernels/python3");
    let s = make_kernel_spec(
        "ir",
        "/kernels/ir",
        Some(String::from("R")),
        Some(String::from("r")),
    );
    assert_eq!(s.display_name, "R");
    assert_eq!(s.language, "r");
}

#[test]
fn dedup_keeps_the_first_find_of_each_name() {
    let specs = vec![
        spec("python3", "first"),
        spec("ir", "r-first"),
        spec("python3", "second"),
        spec("julia", "j"),
        spec("ir", "r-second"),
    ];
    let out = dedup_specs(specs);
    assert_eq!(out.len(), 3);
    assert_eq!(out[0].name, "python3");
    assert_eq!(out[0].display_name, "first");
    assert_eq!(out[1].name, "ir");
    assert_eq!(out[1].display_name, "r-first");
    assert_eq!(out[2].name, "julia");
}

#[test]
fn dedup_of_unique_names_changes_nothing() {
    let specs = vec![spec("a", "a"), spec("b", "b")];
    let out = dedup_specs(specs.clone());
    assert_eq!(out, specs);
}

#[test]
fn search_roots_scan_the_standard_locations() {
    let roots = search_roots("/home/u", None, None);
    assert_eq!(roots[0], "/home/u/Library/Jupyter/kernels");
    assert_eq!(roots[1], "/home/u/Library/Python/3.9/share/jupyter/kernels");
    assert_eq!(roots[6], "/home/u/.local/share/jupyter/kernels");
    assert_eq!(roots[7], "/usr/local/share/jupyter/kernels");
    assert_eq!(roots[8], "/usr/share/jupyter/kernels");
    assert_eq!(roots[roots.len() - 1], "/home/u/miniforge3/share/jupyter/kernels");
    assert_eq!(roots.len(), 12);
}

#[test]
fn windows_roots_are_appended_when_present() {
    let roots = search_roots(
        "C:\\Users\\u",
        Some("C:\\Users\\u\\AppData\\Roaming"),
        Some("C:\\ProgramData"),
    );
    assert_eq!(roots.len(), 14);
    assert_eq!(roots[12], "C:\\Users\\u\\AppData\\Roaming\\jupyter\\kernels");
    assert_eq!(roots[13], "C:\\ProgramData\\jupyter\\kernels");
}
