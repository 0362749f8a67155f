use ambient_fs::tree::{add_node, find_node, remove_node, rename_node, TreeNode};

fn make_root() -> TreeNode {
    TreeNode::dir("root", "")
}

#[test]
fn add_single_file() {
    let mut root = make_root();
    assert!(add_node(&mut root, "README.md", false));
    assert_eq!(root.children.len(), 1);
    assert_eq!(root.children[0].name, "README.md");
    assert!(!root.children[0].is_dir);
}

#[test]
fn add_nested_file_creates_intermediate_dirs() {
    let mut root = make_root();
    assert!(add_node(&mut root, "src/components/App.vue", false));

    assert_eq!(root.children.len(), 1);
    let src = &root.children[0];
    assert_eq!(src.name, "src");
    assert!(src.is_dir);

    let components = &src.children[0];
    assert_eq!(components.name, "components");
    assert!(components.is_dir);

    let app = &components.children[0];
    assert_eq!(app.name, "App.vue");
    assert!(!app.is_dir);
}

#[test]
fn add_duplicate_returns_false() {
    let mut root = make_root();
    assert!(add_node(&mut root, "README.md", false));
    assert!(!add_node(&mut root, "README.md", false));
    assert_eq!(root.children.len(), 1);
}

#[test]
fn add_preserves_sorted_order() {
    let mut root = make_root();
    add_node(&mut root, "zebra.txt", false);
    add_node(&mut root, "alpha.txt", false);
    add_node(&mut root, "middle.txt", false);

    let names: Vec<&str> = root.children.iter().map(|c| c.name.as_str()).collect();
    assert_eq!(names, vec!["alpha.txt", "middle.txt", "zebra.txt"]);
}

#[test]
fn dirs_sort_before_files() {
    let mut root = make_root();
    add_node(&mut root, "file.txt", false);
    add_node(&mut root, "src/main.rs", false);
    add_node(&mut root, "aaa.txt", false);

    assert!(root.children[0].is_dir);
    assert_eq!(root.children[0].name, "src");
    assert_eq!(root.children[1].name, "aaa.txt");
    assert_eq!(root.children[2].name, "file.txt");
}

#[test]
fn remove_file() {
    let mut root = make_root();
    add_node(&mut root, "src/main.rs", false);
    add_node(&mut root, "src/lib.rs", false);

    assert!(remove_node(&mut root, "src/main.rs"));

    let src = &root.children[0];
    assert_eq!(src.children.len(), 1);
    assert_eq!(src.children[0].name, "lib.rs");
}

#[test]
fn remove_nonexistent_returns_false() {
    let mut root = make_root();
    assert!(!remove_node(&mut root, "nope.txt"));
}

#[test]
fn remove_deeply_nested() {
    let mut root = make_root();
    add_node(&mut root, "a/b/c/d.txt", false);
    assert!(remove_node(&mut root, "a/b/c/d.txt"));

    let a = &root.children[0];
    assert_eq!(a.name, "a");
}

#[test]
fn rename_file() {
    let mut root = make_root();
    add_node(&mut root, "src/old.rs", false);

    assert!(rename_node(&mut root, "src/old.rs", "src/new.rs", false));

    let found = find_node(&root, "src/new.rs");
    assert!(found.is_some());
    assert_eq!(found.unwrap().name, "new.rs");

    let old = find_node(&root, "src/old.rs");
    assert!(old.is_none());
}

#[test]
fn rename_to_different_directory() {
    let mut root = make_root();
    add_node(&mut root, "src/old.rs", false);

    assert!(rename_node(&mut root, "src/old.rs", "lib/new.rs", false));

    assert!(find_node(&root, "lib/new.rs").is_some());
    assert!(find_node(&root, "src/old.rs").is_none());
}

#[test]
fn rename_nonexistent_returns_false() {
    let mut root = make_root();
    assert!(!rename_node(&mut root, "nope.rs", "other.rs", false));
}

#[test]
fn find_node_existing() {
    let mut root = make_root();
    add_node(&mut root, "src/components/Button.vue", false);

    let found = find_node(&root, "src/components/Button.vue");
    assert!(found.is_some());
    assert_eq!(found.unwrap().name, "Button.vue");
}

#[test]
fn find_node_directory() {
    let mut root = make_root();
    add_node(&mut root, "src/components/Button.vue", false);

    let found = find_node(&root, "src/components");
    assert!(found.is_some());
    assert!(found.unwrap().is_dir);
}

#[test]
fn find_node_nonexistent() {
    let root = make_root();
    assert!(find_node(&root, "nope.txt").is_none());
}

#[test]
fn add_empty_path_returns_false() {
    let mut root = make_root();
    assert!(!add_node(&mut root, "", false));
}

#[test]
fn add_directory_node() {
    let mut root = make_root();
    assert!(add_node(&mut root, "src/components", true));

    let found = find_node(&root, "src/components");
    assert!(found.is_some());
    assert!(found.unwrap().is_dir);
}

#[test]
fn sort_key_case_insensitive() {
    let mut root = make_root();
    add_node(&mut root, "Zebra.md", false);
    add_node(&mut root, "alpha.md", false);

    let names: Vec<&str> = root.children.iter().map(|c| c.name.as_str()).collect();
    assert_eq!(names, vec!["alpha.md", "Zebra.md"]);
}

#[test]
fn multiple_files_in_same_directory() {
    let mut root = make_root();
    add_node(&mut root, "src/a.rs", false);
    add_node(&mut root, "src/b.rs", false);
    add_node(&mut root, "src/c.rs", false);

    let src = find_node(&root, "src").unwrap();
    assert_eq!(src.children.len(), 3);
    let names: Vec<&str> = src.children.iter().map(|c| c.name.as_str()).collect();
    assert_eq!(names, vec!["a.rs", "b.rs", "c.rs"]);
}

#[test]
fn intermediate_directory_paths_are_prefixes() {
    let mut root = make_root();
    add_node(&mut root, "/a//b/c.txt", false);
    let a = find_node(&root, "a").unwrap();
    assert_eq!(a.path, "a");
    let b = find_node(&root, "a/b").unwrap();
    assert_eq!(b.path, "a/b");
    let c = find_node(&root, "a/b/c.txt").unwrap();
    assert_eq!(c.path, "/a//b/c.txt");
}

#[test]
fn add_then_find_law_on_concrete_values() {
    let mut root = make_root();
    assert!(add_node(&mut root, "x/y/z", true));
    assert!(find_node(&root, "x").is_some());
    assert!(find_node(&root, "x/y").is_some());
    assert!(find_node(&root, "x/y/z").unwrap().is_dir);
    assert!(remove_node(&mut root, "x/y"));
    assert!(find_node(&root, "x/y/z").is_none());
    assert!(find_node(&root, "x").is_some());
}

#[test]
fn sort_recursive_orders_every_level() {
    let mut root = make_root();
    let mut b = TreeNode::dir("b", "b");
    b.children.push(TreeNode::file("z", "b/z"));
    b.children.push(TreeNode::file("A", "b/A"));
    root.children.push(TreeNode::file("c.txt", "c.txt"));
    root.children.push(b);
    root.children.push(TreeNode::dir("a", "a"));
    root.sort_recursive();
    let names: Vec<&str> = root.children.iter().map(|c| c.name.as_str()).collect();
    assert_eq!(names, vec!["a", "b", "c.txt"]);
    let inner: Vec<&str> = root.children[1].children.iter().map(|c| c.name.as_str()).collect();
    assert_eq!(inner, vec!["A", "z"]);
}

#[test]
fn clone_is_deep() {
    let mut root = make_root();
    add_node(&mut root, "a/b.txt", false);
    let copy = root.clone();
    assert_eq!(copy, root);
}

fn names(node: &TreeNode) -> Vec<String> {
    node.children.iter().map(|c| format!("{}:{}", c.name, c.path)).collect()
}

#[test]
fn sort_recursive_keeps_equal_keys_in_order_and_a_second_sort_changes_nothing() {
    let mut root = make_root();
    root.children.push(TreeNode::file("b.txt", "first-b"));
    root.children.push(TreeNode::file("A.txt", "upper-a"));
    root.children.push(TreeNode::dir("z", "z"));
    root.children.push(TreeNode::file("a.txt", "lower-a"));
    root.children.push(TreeNode::file("B.TXT", "second-b"));
    root.sort_recursive();
    assert_eq!(
        names(&root),
        vec!["z:z", "A.txt:upper-a", "a.txt:lower-a", "b.txt:first-b", "B.TXT:second-b"]
    );
    let once = names(&root);
    root.sort_recursive();
    assert_eq!(names(&root), once);
}

#[test]
fn remove_node_works_when_siblings_are_not_in_display_order() {
    let mut root = make_root();
    let mut src = TreeNode::dir("src", "src");
    src.children.push(TreeNode::file("z.rs", "src/z.rs"));
    src.children.push(TreeNode::file("a.rs", "src/a.rs"));
    root.children.push(TreeNode::file("README.md", "README.md"));
    root.children.push(src);
    assert!(remove_node(&mut root, "src/z.rs"));
    assert!(find_node(&root, "src/z.rs").is_none());
    assert!(find_node(&root, "src/a.rs").is_some());
    assert!(find_node(&root, "src").is_some());
    assert!(find_node(&root, "README.md").is_some());
    assert!(!remove_node(&mut root, "src/z.rs"));
}

#[test]
fn add_node_gives_created_directories_their_paths() {
    let mut root = make_root();
    assert!(add_node(&mut root, "src/components/App.vue", false));
    let src = find_node(&root, "src").unwrap();
    assert!(src.is_dir);
    assert_eq!(src.path, "src");
    let comps = find_node(&root, "src/components").unwrap();
    assert!(comps.is_dir);
    assert_eq!(comps.path, "src/components");
    assert_eq!(find_node(&root, "src/components/App.vue").unwrap().path, "src/components/App.vue");
}
