//! The block of one build target. A target says only what cannot be
//! inferred: its path where that is not the conventional one for its kind,
//! its name where that is not the package's.

use vstd::prelude::*;
use vstd::string::StringExecFns;
use crate::model::{CrateType, Target, TargetKind, TargetKindView, TargetView};
use crate::paths::{rel_path, relative_to};
use crate::quote::{quoted, toml_str};
use crate::text::{
    concat2,
    concat3,
    lemma_begins_otherwise,
    lemma_none_begins_concat,
    none_begins,
    push_line,
    str_eq,
    texts,
};

verus! {

/// `rel` is one of the two places a target named `name` has in the
/// directory `dir`: a file of its name, or a directory of its name with a
/// `main.rs`.
pub open spec fn in_dir(dir: Seq<char>, name: Seq<char>, rel: Seq<char>) -> bool {
    rel == dir + name + "/main.rs"@ || rel == dir + name + ".rs"@
}

/// Whether `rel`, a path from the package's root, is where a target of this
/// kind and name lies by convention. A build script has no such place here.
pub open spec fn standard_path(kind: TargetKindView, name: Seq<char>, rel: Seq<char>) -> bool {
    match kind {
        TargetKindView::Lib(_) => rel == "src/lib.rs"@,
        TargetKindView::Bin => rel == "src/main.rs"@ || in_dir("src/bin/"@, name, rel),
        TargetKindView::Test => in_dir("tests/"@, name, rel),
        TargetKindView::Bench => in_dir("benches/"@, name, rel),
        TargetKindView::ExampleLib(_) => in_dir("examples/"@, name, rel),
        TargetKindView::ExampleBin => in_dir("examples/"@, name, rel),
        TargetKindView::CustomBuild => false,
    }
}

/// Whether the target is a library that builds a procedural macro.
pub open spec fn is_proc_macro(kind: TargetKindView) -> bool {
    kind matches TargetKindView::Lib(types) && types.contains(CrateType::ProcMacro)
}

/// What a target's block leaves unsaid.
pub struct Inferred {
    /// The name is the package's.
    pub name: bool,
    /// The path is the conventional one.
    pub path: bool,
}

/// What is left unsaid of `target`, which lies at `rel` in a package named
/// `package_name`.
pub open spec fn inferred(rel: Seq<char>, package_name: Seq<char>, target: TargetView) -> Inferred {
    Inferred {
        name: target.kind is Lib && target.name == package_name,
        path: standard_path(target.kind, target.name, rel),
    }
}

/// The header of a target's block.
pub open spec fn target_header(kind: TargetKindView) -> Seq<char> {
    match kind {
        TargetKindView::Lib(_) => "[lib]"@,
        TargetKindView::Bin => "[[bin]]"@,
        TargetKindView::Test => "[[test]]"@,
        TargetKindView::Bench => "[[bench]]"@,
        TargetKindView::ExampleLib(_) => "[[example]]"@,
        TargetKindView::ExampleBin => "[[example]]"@,
        TargetKindView::CustomBuild => Seq::empty(),
    }
}

/// The settings of a target that differ from what is inferred, one to a
/// line.
pub open spec fn target_body(rel: Seq<char>, target: TargetView) -> Seq<Seq<char>> {
    (if is_proc_macro(target.kind) {
        seq!["proc-macro = true"@]
    } else {
        Seq::empty()
    }) + (if standard_path(target.kind, target.name, rel) {
        Seq::empty()
    } else {
        seq!["path = "@ + quoted(rel)]
    }) + (if target.harness {
        Seq::empty()
    } else {
        seq!["harness = false"@]
    }) + (if !target.documented && target.kind is Lib {
        seq!["doc = false"@]
    } else {
        Seq::empty()
    })
}

/// The lines of a target's block: none for a build script, and none where
/// the target has nothing to say; else a blank line, the header, the name
/// unless inferred, and the settings.
pub open spec fn target_lines(rel: Seq<char>, package_name: Seq<char>, target: TargetView) -> Seq<
    Seq<char>,
> {
    let body = target_body(rel, target);
    if target.kind is CustomBuild || body.len() == 0 {
        Seq::empty()
    } else {
        seq![Seq::empty(), target_header(target.kind)] + (if inferred(
            rel,
            package_name,
            target,
        ).name {
            Seq::empty()
        } else {
            seq!["name = "@ + quoted(target.name)]
        }) + body
    }
}

/// The lines of the block of `target` in a package rooted at `base`; `None`
/// where the target's path cannot be written relative to `base`. A build
/// script has no block, whatever its path.
pub open spec fn rendered_target(
    base: Seq<char>,
    package_name: Seq<char>,
    target: TargetView,
) -> Option<Seq<Seq<char>>> {
    if target.kind is CustomBuild {
        Some(Seq::empty())
    } else {
        match relative_to(target.src_path, base) {
            Some(rel) => Some(target_lines(rel, package_name, target)),
            None => None,
        }
    }
}

/// A target that lies where its kind and name put it has no line for its
/// path.
pub proof fn lemma_standard_path_is_unwritten(
    rel: Seq<char>,
    package_name: Seq<char>,
    target: TargetView,
)
    requires
        standard_path(target.kind, target.name, rel),
    ensures
        none_begins(target_lines(rel, package_name, target), "path = "@),
{
    let p = "path = "@;
    reveal_strlit("path = ");
    reveal_strlit("proc-macro = true");
    reveal_strlit("harness = false");
    reveal_strlit("doc = false");
    reveal_strlit("name = ");
    reveal_strlit("[lib]");
    reveal_strlit("[[bin]]");
    reveal_strlit("[[test]]");
    reveal_strlit("[[bench]]");
    reveal_strlit("[[example]]");
    let a: Seq<Seq<char>> = if is_proc_macro(target.kind) {
        seq!["proc-macro = true"@]
    } else {
        Seq::empty()
    };
    let c: Seq<Seq<char>> = if target.harness {
        Seq::empty()
    } else {
        seq!["harness = false"@]
    };
    let d: Seq<Seq<char>> = if !target.documented && target.kind is Lib {
        seq!["doc = false"@]
    } else {
        Seq::empty()
    };
    lemma_begins_otherwise("proc-macro = true"@, p, 1);
    lemma_begins_otherwise("harness = false"@, p, 0);
    lemma_begins_otherwise("doc = false"@, p, 0);
    assert(none_begins(a, p));
    assert(none_begins(c, p));
    assert(none_begins(d, p));
    lemma_none_begins_concat(a, Seq::empty(), p);
    lemma_none_begins_concat(a + Seq::<Seq<char>>::empty(), c, p);
    lemma_none_begins_concat(a + Seq::<Seq<char>>::empty() + c, d, p);
    let body = target_body(rel, target);
    assert(body == a + Seq::<Seq<char>>::empty() + c + d);
    if !(target.kind is CustomBuild) && body.len() > 0 {
        let name = "name = "@ + quoted(target.name);
        lemma_begins_otherwise(Seq::empty(), p, 0);
        lemma_begins_otherwise(target_header(target.kind), p, 0);
        lemma_begins_otherwise(name, p, 0);
        let head = seq![Seq::empty(), target_header(target.kind)];
        let named: Seq<Seq<char>> = if inferred(rel, package_name, target).name {
            Seq::empty()
        } else {
            seq![name]
        };
        assert(none_begins(head, p));
        assert(none_begins(named, p));
        lemma_none_begins_concat(head, named, p);
        lemma_none_begins_concat(head + named, body, p);
    }
}

/// The block of a library named like its package has no line for its name.
pub proof fn lemma_package_name_is_unwritten(
    rel: Seq<char>,
    package_name: Seq<char>,
    target: TargetView,
)
    requires
        target.kind is Lib,
        target.name == package_name,
    ensures
        none_begins(target_lines(rel, package_name, target), "name = "@),
{
    let p = "name = "@;
    reveal_strlit("path = ");
    reveal_strlit("proc-macro = true");
    reveal_strlit("harness = false");
    reveal_strlit("doc = false");
    reveal_strlit("name = ");
    reveal_strlit("[lib]");
    let a: Seq<Seq<char>> = if is_proc_macro(target.kind) {
        seq!["proc-macro = true"@]
    } else {
        Seq::empty()
    };
    let b: Seq<Seq<char>> = if standard_path(target.kind, target.name, rel) {
        Seq::empty()
    } else {
        seq!["path = "@ + quoted(rel)]
    };
    let c: Seq<Seq<char>> = if target.harness {
        Seq::empty()
    } else {
        seq!["harness = false"@]
    };
    let d: Seq<Seq<char>> = if !target.documented && target.kind is Lib {
        seq!["doc = false"@]
    } else {
        Seq::empty()
    };
    lemma_begins_otherwise("proc-macro = true"@, p, 0);
    lemma_begins_otherwise("path = "@ + quoted(rel), p, 0);
    lemma_begins_otherwise("harness = false"@, p, 0);
    lemma_begins_otherwise("doc = false"@, p, 0);
    assert(none_begins(a, p));
    assert(none_begins(b, p));
    assert(none_begins(c, p));
    assert(none_begins(d, p));
    lemma_none_begins_concat(a, b, p);
    lemma_none_begins_concat(a + b, c, p);
    lemma_none_begins_concat(a + b + c, d, p);
    let body = target_body(rel, target);
    assert(body == a + b + c + d);
    if body.len() > 0 {
        lemma_begins_otherwise(Seq::empty(), p, 0);
        lemma_begins_otherwise(target_header(target.kind), p, 0);
        let head = seq![Seq::empty(), target_header(target.kind)];
        assert(none_begins(head, p));
        lemma_none_begins_concat(head, Seq::empty(), p);
        lemma_none_begins_concat(head + Seq::<Seq<char>>::empty(), body, p);
    }
}

fn has_proc_macro(types: &Vec<CrateType>) -> (r: bool)
    ensures
        r == types@.contains(CrateType::ProcMacro),
{
    let mut i: usize = 0;
    while i < types.len()
        invariant
            i <= types.len(),
            forall|j: int| 0 <= j < i ==> types@[j] != CrateType::ProcMacro,
        decreases types.len() - i,
    {
        match types[i] {
            CrateType::ProcMacro => {
                return true;
            },
            _ => {},
        }
        i += 1;
    }
    false
}

fn lies_in_dir(dir: &str, name: &str, rel: &str) -> (r: bool)
    ensures
        r == in_dir(dir@, name@, rel@),
{
    let nested = concat3(dir, name, "/main.rs");
    let file = concat3(dir, name, ".rs");
    str_eq(rel, nested.as_str()) || str_eq(rel, file.as_str())
}

/// Decides what the block of `target`, which lies at `rel`, leaves unsaid.
pub fn infer(rel: &str, package_name: &str, target: &Target) -> (r: Inferred)
    ensures
        r == inferred(rel@, package_name@, target@),
{
    let name = target.name.as_str();
    let path = match &target.kind {
        TargetKind::Lib(_) => str_eq(rel, "src/lib.rs"),
        TargetKind::Bin => str_eq(rel, "src/main.rs") || lies_in_dir("src/bin/", name, rel),
        TargetKind::Test => lies_in_dir("tests/", name, rel),
        TargetKind::Bench => lies_in_dir("benches/", name, rel),
        TargetKind::ExampleLib(_) => lies_in_dir("examples/", name, rel),
        TargetKind::ExampleBin => lies_in_dir("examples/", name, rel),
        TargetKind::CustomBuild => false,
    };
    let is_lib = match &target.kind {
        TargetKind::Lib(_) => true,
        _ => false,
    };
    Inferred { name: is_lib && str_eq(name, package_name), path }
}

/// Writes the block of `target`, which lies at `rel` from the root of the
/// package named `package_name`.
pub fn target_block(rel: &str, package_name: &str, target: &Target) -> (r: Vec<String>)
    ensures
        texts(r@) == target_lines(rel@, package_name@, target@),
{
    let mut out: Vec<String> = Vec::new();
    assert(texts(out@) =~= Seq::<Seq<char>>::empty());
    let header = match &target.kind {
        TargetKind::Lib(_) => "[lib]",
        TargetKind::Bin => "[[bin]]",
        TargetKind::Test => "[[test]]",
        TargetKind::Bench => "[[bench]]",
        TargetKind::ExampleLib(_) => "[[example]]",
        TargetKind::ExampleBin => "[[example]]",
        TargetKind::CustomBuild => {
            return out;
        },
    };
    let omit = infer(rel, package_name, target);
    let mut body: Vec<String> = Vec::new();
    assert(texts(body@) =~= Seq::<Seq<char>>::empty());
    let (is_lib, proc_macro) = match &target.kind {
        TargetKind::Lib(types) => (true, has_proc_macro(types)),
        _ => (false, false),
    };
    if proc_macro {
        push_line(&mut body, String::from_str("proc-macro = true"));
    }
    if !omit.path {
        let q = toml_str(rel);
        push_line(&mut body, concat2("path = ", q.as_str()));
    }
    if !target.harness {
        push_line(&mut body, String::from_str("harness = false"));
    }
    if !target.documented && is_lib {
        push_line(&mut body, String::from_str("doc = false"));
    }
    assert(texts(body@) =~= target_body(rel@, target@));
    if body.len() == 0 {
        return out;
    }
    push_line(&mut out, String::new());
    push_line(&mut out, String::from_str(header));
    if !omit.name {
        let q = toml_str(target.name.as_str());
        push_line(&mut out, concat2("name = ", q.as_str()));
    }
    let ghost head = texts(out@);
    let ghost tail = texts(body@);
    out.append(&mut body);
    assert(texts(out@) =~= head + tail);
    assert(texts(out@) =~= target_lines(rel@, package_name@, target@));
    out
}

/// Writes the block of `target` for a package rooted at `base`.
pub fn render_target(base: &str, package_name: &str, target: &Target) -> (r: Option<Vec<String>>)
    ensures
        match r {
            Some(lines) => rendered_target(base@, package_name@, target@) == Some(texts(lines@)),
            None => rendered_target(base@, package_name@, target@) is None,
        },
{
    match &target.kind {
        TargetKind::CustomBuild => {
            let out: Vec<String> = Vec::new();
            assert(texts(out@) =~= Seq::<Seq<char>>::empty());
            Some(out)
        },
        _ => match rel_path(base, target.src_path.as_str()) {
            Some(rel) => Some(target_block(rel.as_str(), package_name, target)),
            None => None,
        },
    }
}

} // verus!
