use plasmid::filesystem::{FileSystemOps, MemFileSystem};
use plasmid::path::FsPath;

fn p(segments: &[&str]) -> FsPath {
    FsPath::from_segments(segments.iter().map(|s| s.to_string()).collect())
}

#[test]
fn test_mock_exists() {
    let mut fs = MemFileSystem::new();
    let file = p(&["tmp", "file"]);

    fs.insert_file(file.clone());

    assert!(fs.entry_exists(&file));
    assert!(!fs.entry_exists(&p(&["tmp", "missing"])));
}

#[test]
fn test_mock_is_symlink() {
    let mut fs = MemFileSystem::new();
    let link = p(&["link"]);
    let target = p(&["target"]);

    fs.insert_symlink(link.clone(), target);

    assert!(fs.is_symlink(&link));
    assert!(!fs.is_symlink(&p(&["notalink"])));
}

#[test]
fn test_mock_is_file() {
    let mut fs = MemFileSystem::new();
    let file = p(&["tmp", "file"]);
    let dir = p(&["tmp", "dir"]);

    fs.insert_file(file.clone());
    fs.insert_dir(dir.clone());

    assert!(fs.is_file(&file));
    assert!(!fs.is_file(&dir));
}

#[test]
fn test_mock_is_dir() {
    let mut fs = MemFileSystem::new();
    let file = p(&["tmp", "file"]);
    let dir = p(&["tmp", "dir"]);

    fs.insert_file(file.clone());
    fs.insert_dir(dir.clone());

    assert!(fs.is_dir(&dir));
    assert!(!fs.is_dir(&file));
}

#[test]
fn test_mock_read_link() {
    let mut fs = MemFileSystem::new();
    let link = p(&["dotfiles", ".zshrc"]);
    let target = p(&["home", "user", ".zshrc"]);

    fs.insert_symlink(link.clone(), target.clone());

    let Ok(resolved) = fs.read_link(&link) else { panic!() };
    assert_eq!(resolved, target);
}

#[test]
fn test_mock_read_link_failure() {
    let fs = MemFileSystem::new();
    let missing = p(&["missing"]);

    let result = fs.read_link(&missing);
    assert!(result.is_err());
}

#[test]
fn test_exists() {
    let mut fs = MemFileSystem::new();
    let file = p(&["dir", "file"]);
    fs.insert_dir(p(&["dir"]));
    fs.insert_file(file.clone());

    assert!(fs.entry_exists(&file));
    assert!(!fs.entry_exists(&p(&["dir", "missing"])));
}

#[test]
fn test_symlink_and_read() {
    let mut fs = MemFileSystem::new();
    fs.insert_dir(p(&["dir"]));
    let target = p(&["dir", "target"]);
    let link = p(&["dir", "link"]);
    fs.insert_file(target.clone());

    fs.create_symlink(&target, &link).unwrap();

    assert!(fs.is_symlink(&link));

    let resolved = fs.read_link(&link).unwrap();
    assert_eq!(resolved, target);
}

#[test]
fn test_create_symlink_refuses_existing_destination() {
    let mut fs = MemFileSystem::new();
    fs.insert_dir(p(&["dir"]));
    let blocked = p(&["dir", "blocked"]);
    fs.insert_file(blocked.clone());

    let before = fs.entries.clone();
    let result = fs.create_symlink(&p(&["dir", "target"]), &blocked);
    assert!(result.is_err());
    assert_eq!(fs.entries, before);
}

#[test]
fn test_create_symlink_refuses_missing_parent() {
    let mut fs = MemFileSystem::new();
    let dest = p(&["nowhere", "link"]);

    let result = fs.create_symlink(&p(&["target"]), &dest);
    assert!(result.is_err());
    assert!(!fs.entry_exists(&dest));
}

#[test]
fn test_insert_shadows_previous_entry() {
    let mut fs = MemFileSystem::new();
    let spot = p(&["spot"]);
    fs.insert_file(spot.clone());
    fs.insert_dir(spot.clone());

    assert!(fs.is_dir(&spot));
    assert!(!fs.is_file(&spot));
    assert!(matches!(fs.read_link(&spot), Err(_)));
}
