//! Which pages a workspace gives: the example targets of its member
//! packages, on one page for all of them or on one page per package.

use vstd::prelude::*;
use crate::text::{same_text, views};

verus! {

/// A build target of a package.
pub struct Target {
    /// The target's name.
    pub name: String,
    /// The kinds that the target is built as.
    pub kinds: Vec<String>,
    /// The path of the target's main source file.
    pub src_path: String,
}

/// A package.
pub struct Package {
    /// What identifies the package.
    pub id: String,
    /// The package's name.
    pub name: String,
    /// The package's targets.
    pub targets: Vec<Target>,
}

/// An example to render.
pub struct Example {
    /// The example's name.
    pub name: String,
    /// The path of the example's source file.
    pub src_path: String,
}

/// A page to make.
pub struct Page {
    /// The page's name.
    pub name: String,
    /// The examples that the page shows, in order.
    pub examples: Vec<Example>,
}

/// A target, as plain values.
pub struct TargetView {
    pub name: Seq<char>,
    pub kinds: Seq<Seq<char>>,
    pub src_path: Seq<char>,
}

/// A package, as plain values.
pub struct PackageView {
    pub id: Seq<char>,
    pub name: Seq<char>,
    pub targets: Seq<TargetView>,
}

/// An example, as plain values.
pub struct ExampleView {
    pub name: Seq<char>,
    pub src_path: Seq<char>,
}

/// A page, as plain values.
pub struct PageView {
    pub name: Seq<char>,
    pub examples: Seq<ExampleView>,
}

impl View for Target {
    type V = TargetView;

    open spec fn view(&self) -> TargetView {
        TargetView { name: self.name@, kinds: views(self.kinds@), src_path: self.src_path@ }
    }
}

impl View for Package {
    type V = PackageView;

    open spec fn view(&self) -> PackageView {
        PackageView {
            id: self.id@,
            name: self.name@,
            targets: target_views(self.targets@),
        }
    }
}

impl View for Example {
    type V = ExampleView;

    open spec fn view(&self) -> ExampleView {
        ExampleView { name: self.name@, src_path: self.src_path@ }
    }
}

impl View for Page {
    type V = PageView;

    open spec fn view(&self) -> PageView {
        PageView { name: self.name@, examples: example_views(self.examples@) }
    }
}

/// The views of the targets of `targets`, in order.
pub open spec fn target_views(targets: Seq<Target>) -> Seq<TargetView> {
    targets.map_values(|t: Target| t@)
}

/// The views of the examples of `examples`, in order.
pub open spec fn example_views(examples: Seq<Example>) -> Seq<ExampleView> {
    examples.map_values(|e: Example| e@)
}

/// The views of the packages of `packages`, in order.
pub open spec fn package_views(packages: Seq<Package>) -> Seq<PackageView> {
    packages.map_values(|p: Package| p@)
}

/// The views of the pages of `pages`, in order.
pub open spec fn page_views(pages: Seq<Page>) -> Seq<PageView> {
    pages.map_values(|p: Page| p@)
}

/// Whether `target` is an example: `example` is among its kinds.
pub open spec fn is_example(target: TargetView) -> bool {
    target.kinds.contains("example"@)
}

/// The examples among `targets`, in order.
pub open spec fn examples_of(targets: Seq<TargetView>) -> Seq<ExampleView>
    decreases targets.len(),
{
    if targets.len() == 0 {
        Seq::empty()
    } else {
        let before = examples_of(targets.drop_last());
        let target = targets.last();
        if is_example(target) {
            before.push(ExampleView { name: target.name, src_path: target.src_path })
        } else {
            before
        }
    }
}

/// The examples of all the packages of `packages` that are among
/// `members`, in order.
pub open spec fn member_examples(
    packages: Seq<PackageView>,
    members: Seq<Seq<char>>,
) -> Seq<ExampleView>
    decreases packages.len(),
{
    if packages.len() == 0 {
        Seq::empty()
    } else {
        let before = member_examples(packages.drop_last(), members);
        let package = packages.last();
        if members.contains(package.id) {
            before + examples_of(package.targets)
        } else {
            before
        }
    }
}

/// One page for each package of `packages` that is among `members` and has
/// examples, under the package's name.
pub open spec fn package_pages(
    packages: Seq<PackageView>,
    members: Seq<Seq<char>>,
) -> Seq<PageView>
    decreases packages.len(),
{
    if packages.len() == 0 {
        Seq::empty()
    } else {
        let before = package_pages(packages.drop_last(), members);
        let package = packages.last();
        let examples = examples_of(package.targets);
        if members.contains(package.id) && examples.len() > 0 {
            before.push(PageView { name: package.name, examples })
        } else {
            before
        }
    }
}

/// The pages of a workspace. Split by package, one page for each member
/// package that has examples; else one page named `index` with the examples
/// of all members, or no page where there is no example.
pub open spec fn planned_pages(
    packages: Seq<PackageView>,
    members: Seq<Seq<char>>,
    split_package: bool,
) -> Seq<PageView> {
    if split_package {
        package_pages(packages, members)
    } else {
        let examples = member_examples(packages, members);
        if examples.len() > 0 {
            seq![PageView { name: "index"@, examples }]
        } else {
            Seq::empty()
        }
    }
}

/// Whether `text` is among `list`.
pub fn contains_text(list: &Vec<String>, text: &str) -> (r: bool)
    ensures
        r == views(list@).contains(text@),
{
    let mut i: usize = 0;
    while i < list.len()
        invariant
            i <= list.len(),
            forall|j: int| 0 <= j < i ==> views(list@)[j] != text@,
        decreases list.len() - i,
    {
        if same_text(list[i].as_str(), text) {
            assert(views(list@)[i as int] == text@);
            return true;
        }
        i += 1;
    }
    false
}

/// Appends to `out` the examples among `targets`, in order.
fn push_examples(out: &mut Vec<Example>, targets: &Vec<Target>)
    ensures
        example_views(final(out)@) == example_views(old(out)@)
            + examples_of(target_views(targets@)),
{
    let ghost start = example_views(out@);
    let ghost all = target_views(targets@);
    let mut i: usize = 0;
    assert(example_views(out@) =~= start + examples_of(all.take(0)));
    while i < targets.len()
        invariant
            i <= targets.len(),
            all == target_views(targets@),
            example_views(out@) == start + examples_of(all.take(i as int)),
        decreases targets.len() - i,
    {
        let target = &targets[i];
        let ghost before = example_views(out@);
        proof {
            assert(all.take(i + 1).drop_last() =~= all.take(i as int));
            assert(all.take(i + 1).last() == target@);
        }
        if contains_text(&target.kinds, "example") {
            out.push(Example { name: target.name.clone(), src_path: target.src_path.clone() });
            assert(example_views(out@) =~= before.push(
                ExampleView { name: target.name@, src_path: target.src_path@ },
            ));
            assert(example_views(out@) =~= start + examples_of(all.take(i + 1)));
        }
        i += 1;
    }
    assert(all.take(i as int) =~= all);
}

/// The pages to make of a workspace with the packages `packages`, of which
/// those identified in `members` are its members.
pub fn plan_pages(packages: &Vec<Package>, members: &Vec<String>, split_package: bool) -> (pages:
    Vec<Page>)
    ensures
        page_views(pages@) == planned_pages(package_views(packages@), views(members@), split_package),
{
    let ghost all = package_views(packages@);
    let ghost ids = views(members@);
    let mut pages: Vec<Page> = Vec::new();
    let mut together: Vec<Example> = Vec::new();
    let mut i: usize = 0;
    assert(page_views(pages@) =~= package_pages(all.take(0), ids));
    assert(example_views(together@) =~= member_examples(all.take(0), ids));
    while i < packages.len()
        invariant
            i <= packages.len(),
            all == package_views(packages@),
            ids == views(members@),
            split_package ==> page_views(pages@) == package_pages(all.take(i as int), ids),
            !split_package ==> pages@.len() == 0,
            !split_package ==> example_views(together@) == member_examples(
                all.take(i as int),
                ids,
            ),
        decreases packages.len() - i,
    {
        let package = &packages[i];
        proof {
            assert(all.take(i + 1).drop_last() =~= all.take(i as int));
            assert(all.take(i + 1).last() == package@);
        }
        if contains_text(members, package.id.as_str()) {
            if split_package {
                let mut examples: Vec<Example> = Vec::new();
                push_examples(&mut examples, &package.targets);
                assert(example_views(examples@) =~= examples_of(package@.targets));
                if examples.len() > 0 {
                    let ghost before = page_views(pages@);
                    let page = Page { name: package.name.clone(), examples };
                    pages.push(page);
                    assert(page_views(pages@) =~= before.push(
                        PageView { name: package@.name, examples: examples_of(package@.targets) },
                    ));
                }
            } else {
                push_examples(&mut together, &package.targets);
            }
        }
        i += 1;
    }
    assert(all.take(i as int) =~= all);
    if !split_package && together.len() > 0 {
        let page = Page { name: String::from_str("index"), examples: together };
        pages.push(page);
        assert(page_views(pages@) =~= seq![
            PageView { name: "index"@, examples: member_examples(all, ids) },
        ]);
    } else if !split_package {
        assert(page_views(pages@) =~= Seq::empty());
    }
    pages
}

} // verus!
