use plasmid::filesystem::MemFileSystem;
use plasmid::path::FsPath;
use plasmid::planner::{Operation, Plan, Planner};
use plasmid::walker::FileMapping;

fn p(segments: &[&str]) -> FsPath {
    FsPath::from_segments(segments.iter().map(|s| s.to_string()).collect())
}

fn mapping(source: &[&str], dest: &[&str]) -> FileMapping {
    FileMapping { source: p(source), dest: p(dest) }
}

#[test]
fn test_plan_links_new_file() {
    let mut fs = MemFileSystem::new();
    fs.insert_file(p(&["S", "a.txt"]));

    let planner = Planner::new(fs);
    let plan = planner.plan(&vec![mapping(&["S", "a.txt"], &["D", "a.txt"])]);

    assert_eq!(plan.operations.len(), 1);
    assert_eq!(
        plan.operations[0],
        Operation::Link { src: p(&["S", "a.txt"]), dest: p(&["D", "a.txt"]) }
    );
}

#[test]
fn test_plan_noop_when_destination_exists() {
    let mut fs = MemFileSystem::new();
    fs.insert_file(p(&["S", "a.txt"]));
    fs.insert_file(p(&["D", "a.txt"]));

    let planner = Planner::new(fs);
    let plan = planner.plan(&vec![mapping(&["S", "a.txt"], &["D", "a.txt"])]);

    assert_eq!(plan.operations, vec![Operation::NoOp]);
}

#[test]
fn test_plan_noop_whatever_blocks_the_destination() {
    let mut fs = MemFileSystem::new();
    fs.insert_file(p(&["S", "a.txt"]));
    fs.insert_dir(p(&["D", "dir"]));
    fs.insert_symlink(p(&["D", "link"]), p(&["elsewhere"]));

    let planner = Planner::new(fs);
    let plan = planner.plan(&vec![
        mapping(&["S", "a.txt"], &["D", "dir"]),
        mapping(&["S", "a.txt"], &["D", "link"]),
    ]);

    assert_eq!(plan.operations, vec![Operation::NoOp, Operation::NoOp]);
}

#[test]
fn test_plan_mkdir_for_directory_source() {
    let mut fs = MemFileSystem::new();
    fs.insert_dir(p(&["S", "sub"]));

    let planner = Planner::new(fs);
    let plan = planner.plan(&vec![mapping(&["S", "sub"], &["D", "sub"])]);

    assert_eq!(plan.operations, vec![Operation::MkDir { path: p(&["D", "sub"]) }]);
}

#[test]
fn test_plan_noop_for_missing_source() {
    let fs = MemFileSystem::new();

    let planner = Planner::new(fs);
    let plan = planner.plan(&vec![mapping(&["S", "ghost"], &["D", "ghost"])]);

    assert_eq!(plan.operations, vec![Operation::NoOp]);
}

#[test]
fn test_planning_twice_yields_identical_plans() {
    let mut fs = MemFileSystem::new();
    fs.insert_file(p(&["S", "a"]));
    fs.insert_dir(p(&["S", "d"]));
    fs.insert_file(p(&["D", "a"]));

    let planner = Planner::new(fs);
    let mappings = vec![
        mapping(&["S", "a"], &["D", "a"]),
        mapping(&["S", "d"], &["D", "d"]),
        mapping(&["S", "ghost"], &["D", "ghost"]),
    ];

    let first = planner.plan(&mappings);
    let second = planner.plan(&mappings);

    assert_eq!(first.operations, second.operations);
}

#[test]
fn test_planning_leaves_the_filesystem_unchanged() {
    let mut fs = MemFileSystem::new();
    fs.insert_file(p(&["S", "a"]));
    fs.insert_file(p(&["D", "busy"]));
    let snapshot = fs.entries.clone();

    let planner = Planner::new(fs);
    let _plan = planner.plan(&vec![
        mapping(&["S", "a"], &["D", "a"]),
        mapping(&["S", "a"], &["D", "busy"]),
    ]);

    assert_eq!(planner.fs.entries, snapshot);
}

#[test]
fn test_plan_add_appends_in_order() {
    let mut plan = Plan::default();
    assert!(plan.operations.is_empty());

    plan.add(Operation::Warn { message: "needs attention".to_string() });
    plan.add(Operation::NoOp);

    assert_eq!(plan.operations.len(), 2);
    assert_eq!(plan.operations[0], Operation::Warn { message: "needs attention".to_string() });
    assert_eq!(plan.operations[1], Operation::NoOp);
}
