use std::collections::{BTreeMap, BTreeSet};

use vittusave::swapper::{DirSwapper, FsStep, Slot, SwapError};

/// A disk as the tests see it: each directory that exists, with the relative
/// paths of the files below it.
type Disk = BTreeMap<String, BTreeSet<String>>;

const DEFAULT_NAME: &str = "Example1";

fn place(slot: &Slot) -> String {
    match slot {
        Slot::Primary => "primary".to_string(),
        Slot::Version(name) => format!("versions/{name}"),
    }
}

fn run(disk: &mut Disk, steps: &[FsStep]) {
    for step in steps {
        match step {
            FsStep::CreateDir(s) => {
                disk.entry(place(s)).or_default();
            }
            FsStep::ClearDir(s) => {
                disk.insert(place(s), BTreeSet::new());
            }
            FsStep::CopyInto(from, to) => {
                let files = disk.get(&place(from)).cloned().expect("source directory exists");
                disk.entry(place(to)).or_default().extend(files);
            }
            FsStep::MoveDir(from, to) => {
                let files = disk.remove(&place(from)).expect("source directory exists");
                disk.insert(place(to), files);
            }
            FsStep::RemoveDir(s) => {
                disk.remove(&place(s));
            }
        }
    }
}

fn tree(files: &[&str]) -> BTreeSet<String> {
    files.iter().map(|f| f.to_string()).collect()
}

fn tree_1() -> BTreeSet<String> {
    tree(&["file1.txt", "file2.txt", "inner/file3.txt"])
}

fn tree_2() -> BTreeSet<String> {
    tree(&["Cargo.toml", "Cargo.lock", "src/main.rs", "src/app.rs"])
}

fn versions_on(disk: &Disk) -> Vec<String> {
    disk.keys()
        .filter_map(|k| k.strip_prefix("versions/").map(str::to_string))
        .collect()
}

/// Builds a swapper with live version `DEFAULT_NAME` over `disk`, and carries out
/// its step.
fn new_swapper(disk: &mut Disk) -> DirSwapper {
    disk.entry("primary".to_string()).or_default();
    let (swapper, steps) = DirSwapper::build(
        "/saves/live".to_string(),
        "/saves/versions".to_string(),
        DEFAULT_NAME.to_string(),
        versions_on(disk),
    );
    run(disk, &steps);
    swapper
}

fn add(swapper: &mut DirSwapper, disk: &mut Disk, name: &str) {
    let steps = swapper.add_version_steps(name).unwrap();
    run(disk, &steps);
    swapper.add_version(name).unwrap();
}

fn activate(swapper: &mut DirSwapper, disk: &mut Disk, name: &str) {
    let steps = swapper.set_active_steps(name).unwrap();
    run(disk, &steps);
    swapper.set_active(name.to_string()).unwrap();
}

fn delete(swapper: &mut DirSwapper, disk: &mut Disk, name: &str) {
    let steps = swapper.delete_version_steps(name).unwrap();
    swapper.delete_version(name).unwrap();
    run(disk, &steps);
}

#[test]
fn constructor_does_not_modify_primary_dir() {
    let mut disk = Disk::new();
    disk.insert("primary".to_string(), tree_1());
    let swapper = new_swapper(&mut disk);
    assert_eq!(swapper.primary_dir(), "/saves/live");
    assert_eq!(disk["primary"], tree_1());
}

#[test]
fn constructor_uses_existing_version_dirs() {
    let mut disk = Disk::new();
    disk.insert("versions/Example2".to_string(), tree_1());
    disk.insert("versions/Example3".to_string(), tree_1());
    let swapper = new_swapper(&mut disk);
    assert!(swapper.get_version_dir("Example2").is_some());
    assert!(swapper.get_version_dir("Example3").is_some());
    assert_eq!(disk["versions/Example2"], tree_1());
    assert_eq!(disk["versions/Example3"], tree_1());
}

#[test]
fn swap_replaces_old_contents_with_new() {
    let mut disk = Disk::new();
    disk.insert("primary".to_string(), tree_1());
    let mut swapper = new_swapper(&mut disk);
    add(&mut swapper, &mut disk, "Example2");
    disk.insert("versions/Example2".to_string(), tree_2());
    activate(&mut swapper, &mut disk, "Example2");
    assert_eq!(disk["primary"], tree_2());
}

#[test]
fn swap_updates_version_identifier() {
    let mut disk = Disk::new();
    let mut swapper = new_swapper(&mut disk);
    add(&mut swapper, &mut disk, "Example2");
    activate(&mut swapper, &mut disk, "Example2");
    assert_eq!(swapper.active_version(), Some("Example2"));
}

#[test]
fn non_existent_name_is_invalid() {
    let mut disk = Disk::new();
    let mut swapper = new_swapper(&mut disk);
    assert!(swapper.set_active_steps("Invalid").is_err());
    assert!(swapper.set_active("Invalid".to_string()).is_err());
}

#[test]
fn double_swap_restores_original_dir_contents() {
    let mut disk = Disk::new();
    disk.insert("primary".to_string(), tree_1());
    let mut swapper = new_swapper(&mut disk);
    add(&mut swapper, &mut disk, "Example2");
    disk.insert("versions/Example2".to_string(), tree_2());
    activate(&mut swapper, &mut disk, "Example2");
    activate(&mut swapper, &mut disk, DEFAULT_NAME);
    assert_eq!(disk["primary"], tree_1());
}

#[test]
fn double_swap_restores_orginal_version_identifier() {
    let mut disk = Disk::new();
    let mut swapper = new_swapper(&mut disk);
    add(&mut swapper, &mut disk, "Example2");
    activate(&mut swapper, &mut disk, "Example2");
    activate(&mut swapper, &mut disk, DEFAULT_NAME);
    assert_eq!(swapper.active_version(), Some(DEFAULT_NAME));
}

#[test]
fn add_version_creates_an_empty_dir() {
    let mut disk = Disk::new();
    let mut swapper = new_swapper(&mut disk);
    add(&mut swapper, &mut disk, "Example2");
    assert_eq!(disk["versions/Example2"], BTreeSet::new());
}

#[test]
fn swap_replaces_version_dir_contents() {
    let mut disk = Disk::new();
    let mut swapper = new_swapper(&mut disk);
    add(&mut swapper, &mut disk, "Example2");
    disk.insert("versions/Example2".to_string(), tree_1());
    activate(&mut swapper, &mut disk, "Example2");
    disk.insert("primary".to_string(), tree_2());
    activate(&mut swapper, &mut disk, DEFAULT_NAME);
    assert_eq!(disk["versions/Example2"], tree_2());
}

#[test]
fn delete_version_removes_version_dir() {
    let mut disk = Disk::new();
    let mut swapper = new_swapper(&mut disk);
    add(&mut swapper, &mut disk, "Example2");
    disk.insert("versions/Example2".to_string(), tree_1());
    delete(&mut swapper, &mut disk, "Example2");
    assert!(!disk.contains_key("versions/Example2"));
    assert!(swapper.get_version_dir("Example2").is_none());
}

#[test]
fn deleted_version_is_deactivated() {
    let mut disk = Disk::new();
    let mut swapper = new_swapper(&mut disk);
    add(&mut swapper, &mut disk, "Example2");
    disk.insert("versions/Example2".to_string(), tree_1());
    activate(&mut swapper, &mut disk, "Example2");
    delete(&mut swapper, &mut disk, "Example2");
    assert!(swapper.active_version().is_none());
}

#[test]
fn delete_version_does_not_delete_primary_dir() {
    let mut disk = Disk::new();
    let mut swapper = new_swapper(&mut disk);
    add(&mut swapper, &mut disk, "Example2");
    disk.insert("versions/Example2".to_string(), tree_1());
    delete(&mut swapper, &mut disk, "Example2");
    assert!(disk.contains_key("primary"));
}

#[test]
fn scenario_swap_and_back() {
    let mut disk = Disk::new();
    disk.insert("primary".to_string(), tree(&["file1.txt", "file2.txt", "inner/file3.txt"]));
    let mut swapper = new_swapper(&mut disk);
    add(&mut swapper, &mut disk, "Example2");
    disk.insert("versions/Example2".to_string(), tree(&["Cargo.toml", "Cargo.lock", "src/main.rs"]));
    activate(&mut swapper, &mut disk, "Example2");
    assert_eq!(disk["primary"], tree(&["Cargo.toml", "Cargo.lock", "src/main.rs"]));
    assert_eq!(disk["versions/Example1"], tree(&["file1.txt", "file2.txt", "inner/file3.txt"]));
    activate(&mut swapper, &mut disk, "Example1");
    assert_eq!(disk["primary"], tree(&["file1.txt", "file2.txt", "inner/file3.txt"]));
    assert_eq!(swapper.active_version(), Some("Example1"));
}

#[test]
fn activating_missing_version_is_not_found_and_keeps_active() {
    let mut disk = Disk::new();
    let mut swapper = new_swapper(&mut disk);
    assert_eq!(swapper.set_active_steps("DoesNotExist").unwrap_err(), SwapError::NotFound);
    assert_eq!(swapper.set_active("DoesNotExist".to_string()), Err(SwapError::NotFound));
    assert_eq!(swapper.active_version(), Some(DEFAULT_NAME));
}

#[test]
fn activation_holds_among_many_versions() {
    let mut disk = Disk::new();
    let mut swapper = new_swapper(&mut disk);
    for name in ["A", "B", "C", "D"] {
        add(&mut swapper, &mut disk, name);
    }
    activate(&mut swapper, &mut disk, "C");
    assert_eq!(swapper.active_version(), Some("C"));
    activate(&mut swapper, &mut disk, "A");
    assert_eq!(swapper.active_version(), Some("A"));
}

#[test]
fn deleting_other_version_keeps_active() {
    let mut disk = Disk::new();
    let mut swapper = new_swapper(&mut disk);
    add(&mut swapper, &mut disk, "Example2");
    delete(&mut swapper, &mut disk, "Example2");
    assert_eq!(swapper.active_version(), Some(DEFAULT_NAME));
    assert_eq!(swapper.delete_version("Example2"), Err(SwapError::NotFound));
    assert_eq!(swapper.delete_version_steps("Example2").unwrap_err(), SwapError::NotFound);
}

#[test]
fn restart_reuses_stored_version() {
    let mut disk = Disk::new();
    disk.insert("primary".to_string(), tree_2());
    disk.insert("versions/Example1".to_string(), tree_1());
    let before = disk.clone();
    let swapper = new_swapper(&mut disk);
    assert_eq!(disk, before);
    assert_eq!(swapper.active_version(), Some(DEFAULT_NAME));
}

#[test]
fn swap_leaves_nothing_of_old_contents() {
    let mut disk = Disk::new();
    disk.insert("primary".to_string(), tree(&["old.sav", "shared.cfg"]));
    let mut swapper = new_swapper(&mut disk);
    add(&mut swapper, &mut disk, "X");
    disk.insert("versions/X".to_string(), tree(&["new.sav", "shared.cfg"]));
    activate(&mut swapper, &mut disk, "X");
    assert_eq!(disk["primary"], tree(&["new.sav", "shared.cfg"]));
    assert_eq!(disk["versions/Example1"], tree(&["old.sav", "shared.cfg"]));
}

#[test]
fn reactivating_active_version_keeps_live_contents() {
    let mut disk = Disk::new();
    disk.insert("primary".to_string(), tree_1());
    let mut swapper = new_swapper(&mut disk);
    activate(&mut swapper, &mut disk, DEFAULT_NAME);
    assert_eq!(disk["primary"], tree_1());
    assert_eq!(disk["versions/Example1"], tree_1());
}

#[test]
fn adding_taken_name_is_already_exists() {
    let mut disk = Disk::new();
    let mut swapper = new_swapper(&mut disk);
    assert_eq!(swapper.add_version_steps(DEFAULT_NAME).unwrap_err(), SwapError::AlreadyExists);
    assert_eq!(swapper.add_version(DEFAULT_NAME), Err(SwapError::AlreadyExists));
}

#[test]
fn swap_steps_park_then_bring_in() {
    let mut disk = Disk::new();
    let mut swapper = new_swapper(&mut disk);
    add(&mut swapper, &mut disk, "B");
    let steps = swapper.set_active_steps("B").unwrap();
    assert_eq!(steps.len(), 4);
    assert!(matches!(&steps[0], FsStep::ClearDir(Slot::Version(n)) if n == DEFAULT_NAME));
    assert!(matches!(&steps[1], FsStep::CopyInto(Slot::Primary, Slot::Version(n)) if n == DEFAULT_NAME));
    assert!(matches!(&steps[2], FsStep::ClearDir(Slot::Primary)));
    assert!(matches!(&steps[3], FsStep::CopyInto(Slot::Version(n), Slot::Primary) if n == "B"));
}

#[test]
fn swap_without_active_version_only_brings_in() {
    let mut disk = Disk::new();
    let mut swapper = new_swapper(&mut disk);
    add(&mut swapper, &mut disk, "B");
    delete(&mut swapper, &mut disk, DEFAULT_NAME);
    let steps = swapper.set_active_steps("B").unwrap();
    assert_eq!(steps.len(), 2);
    run(&mut disk, &steps);
    swapper.set_active("B".to_string()).unwrap();
    assert_eq!(swapper.active_version(), Some("B"));
}

#[test]
fn rename_moves_version_and_keeps_it_active() {
    let mut disk = Disk::new();
    disk.insert("primary".to_string(), tree_1());
    let mut swapper = new_swapper(&mut disk);
    add(&mut swapper, &mut disk, "B");
    assert_eq!(swapper.rename_version_steps("B", DEFAULT_NAME).unwrap_err(), SwapError::AlreadyExists);
    assert_eq!(swapper.rename_version_steps("Missing", "C").unwrap_err(), SwapError::NotFound);
    let steps = swapper.rename_version_steps(DEFAULT_NAME, "Renamed").unwrap();
    run(&mut disk, &steps);
    swapper.rename_version(DEFAULT_NAME, "Renamed").unwrap();
    assert_eq!(swapper.active_version(), Some("Renamed"));
    assert!(swapper.get_version_dir(DEFAULT_NAME).is_none());
    assert!(disk.contains_key("versions/Renamed"));
    assert!(!disk.contains_key("versions/Example1"));
}

#[test]
fn build_lists_existing_and_initial_versions_once() {
    let (swapper, steps) = DirSwapper::build(
        "p".to_string(),
        "v".to_string(),
        "A".to_string(),
        vec!["B".to_string(), "A".to_string(), "B".to_string()],
    );
    assert!(swapper.has_version("A"));
    assert!(swapper.has_version("B"));
    assert!(!swapper.has_version("C"));
    assert_eq!(swapper.version_dir(), "v");
    assert_eq!(steps.len(), 1);
    assert!(matches!(&steps[0], FsStep::CreateDir(Slot::Version(n)) if n == "A"));
}
