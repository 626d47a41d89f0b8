use std::path::{Path, PathBuf};

use sourcepawn_core::spcomp::{build_args, local_include_dir};
use tempfile::tempdir;

fn text(path: &Path) -> String {
    path.display().to_string()
}

/// The arguments for `root_path`, looking on disk for its `include` folder.
fn args_for(
    root_path: &Path,
    out_path: &Path,
    includes_directories: &[PathBuf],
    linter_arguments: &[String],
) -> Vec<String> {
    let root = text(root_path);
    let existing_local_include = match local_include_dir(&root) {
        Some(dir) if Path::new(&dir).exists() => Some(dir),
        _ => None,
    };
    let includes: Vec<String> = includes_directories.iter().map(|d| text(d)).collect();
    build_args(
        &root,
        &text(out_path),
        &includes,
        linter_arguments,
        existing_local_include,
    )
}

/// Creates the directory `name` in `parent`, which must exist; it lasts as
/// long as the returned value.
fn make_dir(parent: &Path, name: &str) -> tempfile::TempDir {
    tempfile::Builder::new()
        .prefix(name)
        .rand_bytes(0)
        .tempdir_in(parent)
        .expect("failed to create include dir")
}

/// Sets up a `<tmp>/project/plugin.sp` root path inside a fresh temp directory.
fn setup_root() -> (tempfile::TempDir, PathBuf, PathBuf) {
    let tmp = tempdir().expect("failed to create temp dir");
    let project_dir = tmp.path().join("project");
    let root_path = project_dir.join("plugin.sp");
    (tmp, root_path, project_dir)
}

#[test]
fn adds_project_directory_as_include_when_no_local_include_folder_exists() {
    let (_tmp, root_path, project_dir) = setup_root();
    let out_path = root_path.parent().unwrap().join("plugin.smx");

    let args = args_for(&root_path, &out_path, &[], &[]);

    assert_eq!(
        args,
        vec![
            text(&root_path),
            format!("-i{}", project_dir.display()),
            format!("-o{}", out_path.display()),
            "--syntax-only".to_string(),
        ]
    );
}

#[test]
fn adds_local_include_folder_when_it_exists_on_disk() {
    let (_tmp, root_path, project_dir) = setup_root();
    let include_dir = project_dir.join("include");
    let _project = make_dir(project_dir.parent().unwrap(), "project");
    let _include = make_dir(&project_dir, "include");
    let out_path = root_path.parent().unwrap().join("plugin.smx");

    let args = args_for(&root_path, &out_path, &[], &[]);

    assert_eq!(
        args,
        vec![
            text(&root_path),
            format!("-i{}", project_dir.display()),
            format!("-i{}", include_dir.display()),
            format!("-o{}", out_path.display()),
            "--syntax-only".to_string(),
        ]
    );
}

#[test]
fn does_not_add_local_include_folder_when_it_does_not_exist_on_disk() {
    let (_tmp, root_path, project_dir) = setup_root();
    // Note: `<project_dir>/include` is intentionally not created on disk.
    let out_path = root_path.parent().unwrap().join("plugin.smx");

    let args = args_for(&root_path, &out_path, &[], &[]);

    let include_dir_arg = format!("-i{}", project_dir.join("include").display());
    assert!(
        !args.contains(&include_dir_arg),
        "should not add a nonexistent include folder, got: {args:?}"
    );
}

#[test]
fn user_configured_includes_are_appended_after_project_includes() {
    let (tmp, root_path, project_dir) = setup_root();
    let out_path = root_path.parent().unwrap().join("plugin.smx");
    let user_include = tmp.path().join("shared_includes");

    let args = args_for(&root_path, &out_path, std::slice::from_ref(&user_include), &[]);

    assert_eq!(
        args,
        vec![
            text(&root_path),
            format!("-i{}", project_dir.display()),
            format!("-i{}", user_include.display()),
            format!("-o{}", out_path.display()),
            "--syntax-only".to_string(),
        ]
    );
}

#[test]
fn user_configured_includes_are_appended_after_local_include_folder() {
    let (tmp, root_path, project_dir) = setup_root();
    let include_dir = project_dir.join("include");
    let _project = make_dir(project_dir.parent().unwrap(), "project");
    let _include = make_dir(&project_dir, "include");
    let out_path = root_path.parent().unwrap().join("plugin.smx");
    let user_include = tmp.path().join("shared_includes");

    let args = args_for(&root_path, &out_path, std::slice::from_ref(&user_include), &[]);

    assert_eq!(
        args,
        vec![
            text(&root_path),
            format!("-i{}", project_dir.display()),
            format!("-i{}", include_dir.display()),
            format!("-i{}", user_include.display()),
            format!("-o{}", out_path.display()),
            "--syntax-only".to_string(),
        ]
    );
}

#[test]
fn preserves_relative_order_of_multiple_user_configured_includes() {
    let (tmp, root_path, project_dir) = setup_root();
    let out_path = root_path.parent().unwrap().join("plugin.smx");
    let user_include_a = tmp.path().join("includes_a");
    let user_include_b = tmp.path().join("includes_b");
    let user_include_c = tmp.path().join("includes_c");

    let args = args_for(
        &root_path,
        &out_path,
        &[user_include_a.clone(), user_include_b.clone(), user_include_c.clone()],
        &[],
    );

    assert_eq!(
        args,
        vec![
            text(&root_path),
            format!("-i{}", project_dir.display()),
            format!("-i{}", user_include_a.display()),
            format!("-i{}", user_include_b.display()),
            format!("-i{}", user_include_c.display()),
            format!("-o{}", out_path.display()),
            "--syntax-only".to_string(),
        ]
    );
}

/// Edge case: a root path that has no parent directory (e.g. sitting at the
/// filesystem root) must not panic, must not contribute a project include, and
/// must still append user-configured include directories.
#[test]
fn handles_root_path_without_a_parent_directory() {
    let tmp = tempdir().expect("failed to create temp dir");
    let fs_root = tmp.path().ancestors().last().unwrap().to_path_buf();
    let root_path = fs_root;
    assert!(
        root_path.parent().is_none(),
        "test setup requires a root path without a parent"
    );
    let out_path = tmp.path().join("plugin.smx");
    let user_include = tmp.path().join("shared_includes");

    let args = args_for(&root_path, &out_path, std::slice::from_ref(&user_include), &[]);

    assert_eq!(
        args,
        vec![
            text(&root_path),
            format!("-i{}", user_include.display()),
            format!("-o{}", out_path.display()),
            "--syntax-only".to_string(),
        ]
    );
}

#[test]
fn appends_linter_arguments_after_include_and_output_flags() {
    let (tmp, root_path, project_dir) = setup_root();
    let out_path = root_path.parent().unwrap().join("plugin.smx");
    let user_include = tmp.path().join("shared_includes");
    let linter_arguments = vec!["-w3".to_string(), "--verbose=2".to_string()];

    let args = args_for(
        &root_path,
        &out_path,
        std::slice::from_ref(&user_include),
        &linter_arguments,
    );

    assert_eq!(
        args,
        vec![
            text(&root_path),
            format!("-i{}", project_dir.display()),
            format!("-i{}", user_include.display()),
            format!("-o{}", out_path.display()),
            "--syntax-only".to_string(),
            "-w3".to_string(),
            "--verbose=2".to_string(),
        ]
    );
}

#[test]
fn local_include_dir_is_the_include_folder_beside_the_root() {
    assert_eq!(
        local_include_dir("/home/me/project/plugin.sp"),
        Some("/home/me/project/include".to_string())
    );
    assert_eq!(local_include_dir("/"), None);
    assert_eq!(
        build_args("/", "/o.smx", &[], &[], Some("/include".to_string())),
        vec!["/", "-o/o.smx", "--syntax-only"]
    );
    assert_eq!(local_include_dir(""), None);
    assert_eq!(local_include_dir("plugin.sp"), Some("include".to_string()));
    assert_eq!(local_include_dir("project/plugin.sp"), Some("project/include".to_string()));
}

#[test]
fn build_args_without_local_include_folder_uses_parent_only() {
    let args = build_args(
        "/p/x.sp",
        "/p/x.smx",
        &["/inc".to_string()],
        &["-v".to_string()],
        None,
    );
    assert_eq!(args, vec!["/p/x.sp", "-i/p", "-i/inc", "-o/p/x.smx", "--syntax-only", "-v"]);
    let args = build_args("/p/x.sp", "/p/x.smx", &[], &[], Some("/p/include".to_string()));
    assert_eq!(args, vec!["/p/x.sp", "-i/p", "-i/p/include", "-o/p/x.smx", "--syntax-only"]);
}
