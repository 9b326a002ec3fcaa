use dadada::workspace::{contains_text, plan_pages, Package, Page, Target};

fn target(name: &str, kinds: &[&str]) -> Target {
    Target {
        name: name.to_string(),
        kinds: kinds.iter().map(|k| k.to_string()).collect(),
        src_path: format!("/ws/{}.rs", name),
    }
}

fn package(id: &str, name: &str, targets: Vec<Target>) -> Package {
    Package { id: id.to_string(), name: name.to_string(), targets }
}

fn workspace() -> (Vec<Package>, Vec<String>) {
    let packages = vec![
        package("a 0.1", "a", vec![target("a", &["lib"]), target("a1", &["example"])]),
        package("dep 1.0", "dep", vec![target("d1", &["example"])]),
        package("b 0.1", "b", vec![target("b", &["bin"])]),
        package(
            "c 0.1",
            "c",
            vec![target("c1", &["custom", "example"]), target("c", &["lib"]), target("c2", &["example"])],
        ),
    ];
    let members = vec!["c 0.1".to_string(), "a 0.1".to_string(), "b 0.1".to_string()];
    (packages, members)
}

fn shape(pages: &[Page]) -> Vec<(String, Vec<(String, String)>)> {
    pages
        .iter()
        .map(|p| {
            (
                p.name.clone(),
                p.examples.iter().map(|e| (e.name.clone(), e.src_path.clone())).collect(),
            )
        })
        .collect()
}

fn ex(name: &str) -> (String, String) {
    (name.to_string(), format!("/ws/{}.rs", name))
}

#[test]
fn one_page_for_all_members() {
    let (packages, members) = workspace();
    let pages = plan_pages(&packages, &members, false);
    assert_eq!(shape(&pages), vec![("index".to_string(), vec![ex("a1"), ex("c1"), ex("c2")])]);
}

#[test]
fn one_page_per_member_with_examples() {
    let (packages, members) = workspace();
    let pages = plan_pages(&packages, &members, true);
    assert_eq!(
        shape(&pages),
        vec![("a".to_string(), vec![ex("a1")]), ("c".to_string(), vec![ex("c1"), ex("c2")])]
    );
}

#[test]
fn no_examples_no_page() {
    let packages = vec![package("b 0.1", "b", vec![target("b", &["bin"])])];
    let members = vec!["b 0.1".to_string()];
    assert!(plan_pages(&packages, &members, false).is_empty());
    assert!(plan_pages(&packages, &members, true).is_empty());
    assert!(plan_pages(&Vec::new(), &members, false).is_empty());
    let (packages, _) = workspace();
    assert!(plan_pages(&packages, &Vec::new(), false).is_empty());
    assert!(plan_pages(&packages, &Vec::new(), true).is_empty());
}

#[test]
fn text_among_a_list() {
    let list = vec!["lib".to_string(), "example".to_string()];
    assert!(contains_text(&list, "example"));
    assert!(contains_text(&list, "lib"));
    assert!(!contains_text(&list, "examples"));
    assert!(!contains_text(&list, ""));
    assert!(!contains_text(&Vec::new(), "example"));
}
