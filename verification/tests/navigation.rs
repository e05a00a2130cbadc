use deemak::nav::navigate;
use deemak::store::{DirInfo, Node, ObjectEntry, Sekai};

fn dir(path: &[&str]) -> Node {
    Node {
        path: path.iter().map(|s| s.to_string()).collect(),
        is_dir: true,
        info: DirInfo {
            location: format!("location of {:?}", path),
            about: format!("about {:?}", path),
            objects: Vec::<ObjectEntry>::new(),
        },
    }
}

fn file(path: &[&str]) -> Node {
    Node {
        path: path.iter().map(|s| s.to_string()).collect(),
        is_dir: false,
        info: DirInfo {
            location: String::new(),
            about: String::new(),
            objects: Vec::<ObjectEntry>::new(),
        },
    }
}

fn to_path(segments: &[&str]) -> Vec<String> {
    segments.iter().map(|s| s.to_string()).collect()
}

/// Layout of the world used in this test:
/// root/
/// ├── file1.txt
/// ├── subdir1/
/// │   ├── file2.txt
/// │   ├── file3.txt
/// │   └── nested1/
/// │       └── file4.txt
/// └── subdir2/
///     ├── file5.txt
///     └── nested2/
///         ├── file6.txt
///         └── file7.txt
fn setup_test_world() -> Sekai {
    Sekai {
        nodes: vec![
            dir(&[]),
            file(&["file1.txt"]),
            dir(&["subdir1"]),
            file(&["subdir1", "file2.txt"]),
            file(&["subdir1", "file3.txt"]),
            dir(&["subdir1", "nested1"]),
            file(&["subdir1", "nested1", "file4.txt"]),
            dir(&["subdir2"]),
            file(&["subdir2", "file5.txt"]),
            dir(&["subdir2", "nested2"]),
            file(&["subdir2", "nested2", "file6.txt"]),
            file(&["subdir2", "nested2", "file7.txt"]),
        ],
        has_restore: false,
        has_save: false,
    }
}

#[test]
fn test_navigate() {
    let sekai = setup_test_world();
    let root_path: Vec<String> = Vec::new();
    let mut current_dir = root_path.clone();

    // Navigate to subdir1
    let (new_path, msg) = navigate(&sekai, "subdir1", &current_dir);
    println!("Navigating to subdir1: {msg}");
    assert_eq!(new_path, to_path(&["subdir1"]));

    // Navigate to nested1
    current_dir = new_path;
    let (new_path, _) = navigate(&sekai, "nested1", &current_dir);
    assert_eq!(new_path, to_path(&["subdir1", "nested1"]));

    // Navigate back to subdir1
    current_dir = new_path;
    let (new_path, _) = navigate(&sekai, "..", &current_dir);
    assert_eq!(new_path, to_path(&["subdir1"]));

    // Navigate to subdir2 from subdir1
    current_dir = new_path;
    let (new_path, _) = navigate(&sekai, "../subdir2", &current_dir);
    assert_eq!(new_path, to_path(&["subdir2"]));

    // Navigate to HOME
    current_dir = new_path;
    let (new_path, _) = navigate(&sekai, "HOME", &current_dir);
    assert_eq!(new_path, root_path);

    // Try to go back from root
    current_dir = new_path;
    let (new_path, message) = navigate(&sekai, "..", &current_dir);
    assert_eq!(new_path, root_path);
    assert!(message.contains("You are at the root"));

    // Navigate to nonexistent directory
    let (new_path, message) = navigate(&sekai, "nonexistent", &current_dir);
    assert_eq!(new_path, current_dir);
    assert!(message.contains("No such directory"));

    // Navigate to a file
    let (new_path, message) = navigate(&sekai, "file1.txt", &current_dir);
    println!("{new_path:?}, {current_dir:?}, {message}");
    assert_eq!(new_path, current_dir);
    assert!(message.contains("Is a file"));

    // Navigate to a restricted directory
    let (new_path, message) = navigate(&sekai, ".dir_info", &current_dir);
    assert_eq!(new_path, current_dir);
    assert!(message.contains("Attempted to go to/refers a restricted directory"));

    // Try patterns on destination
    current_dir = root_path.to_vec();
    let (new_path, message) = navigate(&sekai, "subdir1/../subdir2/../.dir_info", &current_dir);
    assert_eq!(new_path, current_dir);
    assert!(message.contains("Attempted to go to/refers a restricted directory"));
}

#[test]
fn test_navigate_escape_and_entry_message() {
    let sekai = setup_test_world();
    let root: Vec<String> = Vec::new();

    // Climbing above the root is refused.
    let (new_path, message) = navigate(&sekai, "../..", &root);
    assert_eq!(new_path, root);
    assert!(message.contains("Access denied outside root directory"));

    // Entering a directory reports where you are and its description.
    let (new_path, message) = navigate(&sekai, "subdir1", &root);
    assert_eq!(new_path, to_path(&["subdir1"]));
    assert!(message.contains("You are now in HOME/subdir1"));
    assert!(message.contains("About:"));

    // `.` and empty segments are ignored.
    let (new_path, _) = navigate(&sekai, "./subdir1//nested1/.", &root);
    assert_eq!(new_path, to_path(&["subdir1", "nested1"]));

    // `go` with no argument complains; with one it moves.
    let mut current = root.clone();
    let msg = deemak::nav::go(&sekai, &Vec::new(), &mut current);
    assert_eq!(msg, "go: missing directory operand");
    assert_eq!(current, root);
    let args = vec!["subdir2".to_string()];
    let _ = deemak::nav::go(&sekai, &args, &mut current);
    assert_eq!(current, to_path(&["subdir2"]));
}
