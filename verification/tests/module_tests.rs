use paperclip::modules::ModuleTree;
use paperclip::object::ApiObject;

fn names(v: &[&str]) -> Vec<String> {
    v.iter().map(|s| s.to_string()).collect()
}

fn decl(name: &str, leaf: bool) -> String {
    let path = if leaf { format!("{}.rs", name) } else { format!("{}/mod.rs", name) };
    format!("\npub mod {} {{\n    include!(\"./{}\");\n}}\n", name, path)
}

#[test]
fn a_module_is_declared_by_each_ancestor() {
    let mut tree = ModuleTree::new();
    tree.add_module(&names(&["a", "b", "c"]));
    let d = tree.declarations();
    assert_eq!(
        d,
        vec![
            (String::from(""), decl("a", false)),
            (String::from("a"), decl("b", false)),
            (String::from("a/b"), decl("c", true)),
        ]
    );
}

#[test]
fn children_are_declared_once_in_order_of_name() {
    let mut tree = ModuleTree::new();
    tree.add_child("", "pets", true);
    tree.add_child("", "app", false);
    tree.add_child("", "pets", false);
    let d = tree.declarations();
    assert_eq!(d.len(), 1);
    assert_eq!(d[0].1, decl("app", false) + &decl("pets", true));
}

#[test]
fn modules_share_their_ancestors() {
    let mut tree = ModuleTree::new();
    tree.add_module(&names(&["io", "k8s", "pod"]));
    tree.add_module(&names(&["io", "k8s", "node"]));
    tree.add_module(&names(&["misc"]));
    let d = tree.declarations();
    assert_eq!(d[0], (String::from(""), decl("io", false) + &decl("misc", true)));
    assert_eq!(d[1], (String::from("io"), decl("k8s", false)));
    assert_eq!(d[2], (String::from("io/k8s"), decl("node", true) + &decl("pod", true)));
}

#[test]
fn objects_get_the_path_of_their_module() {
    let mut tree = ModuleTree::new();
    let mut objects = vec![ApiObject::with_name("Pet"), ApiObject::with_name("PetOwner")];
    assert!(tree.add_objects_to_path(&mut objects, &names(&["pets", "pet"])).is_ok());
    assert_eq!(objects.len(), 2);
    assert_eq!(objects[0].path, "pets::pet");
    assert_eq!(objects[1].path, "pets::pet");
    assert_eq!(objects[1].name, "PetOwner");
    assert_eq!(tree.declarations().len(), 2);
}

#[test]
fn a_module_needs_a_name() {
    let mut tree = ModuleTree::new();
    let mut objects = vec![ApiObject::with_name("Pet")];
    let e = tree.add_objects_to_path(&mut objects, &vec![]).unwrap_err();
    assert_eq!(e.message(), "Invalid path for definition: \"\"");
    assert_eq!(objects[0].path, "");
    assert!(tree.declarations().is_empty());
}
