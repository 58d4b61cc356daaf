//! Subsystem discovery from the top level of a repository's HEAD tree.
use vstd::prelude::*;

use crate::mining_types::{subsystem_views, SubsystemDef, SubsystemDefView};
use crate::sorting::{lemma_first_below_is, seq_lt, sort_desc, str_lt};
use crate::text::{copy_str, push_str, str_eq, strs};

verus! {

/// What a top-level tree entry is.
#[derive(Debug, Clone, Copy, PartialEq, Eq, Structural)]
pub enum EntryKind {
    /// A directory.
    Tree,
    /// A file.
    Blob,
    /// Anything else (submodule, ...).
    Other,
}

/// One entry of the HEAD tree's top level; `name` is `None` when it is not
/// valid UTF-8.
#[derive(Debug)]
pub struct TreeEntry {
    pub name: Option<String>,
    pub kind: EntryKind,
}

pub struct TreeEntryView {
    pub name: Option<Seq<char>>,
    pub kind: EntryKind,
}

impl View for TreeEntry {
    type V = TreeEntryView;

    open spec fn view(&self) -> TreeEntryView {
        TreeEntryView { name: crate::mining_types::opt_str(self.name), kind: self.kind }
    }
}

pub open spec fn entry_views(v: Seq<TreeEntry>) -> Seq<TreeEntryView> {
    v.map_values(|e: TreeEntry| e@)
}

/// Top-level directory names that are virtually never a subsystem of their own.
pub open spec fn is_ignored_dir(name: Seq<char>) -> bool {
    ||| name == "node_modules"@
    ||| name == "target"@
    ||| name == "dist"@
    ||| name == "build"@
    ||| name == "out"@
    ||| name == "coverage"@
    ||| name == "vendor"@
    ||| name == "__pycache__"@
    ||| name == "venv"@
}

pub open spec fn is_dot_name(name: Seq<char>) -> bool {
    name.len() > 0 && name[0] == '.'
}

/// The subsystems contributed by directories: one per kept directory, named
/// after it, with the single prefix `"<dir>/"`.
pub open spec fn dir_subsystems(entries: Seq<TreeEntryView>) -> Seq<SubsystemDefView>
    decreases entries.len(),
{
    if entries.len() == 0 {
        Seq::empty()
    } else {
        let prev = dir_subsystems(entries.drop_last());
        let e = entries.last();
        match e.name {
            Some(n) => if e.kind == EntryKind::Tree && !is_dot_name(n) && !is_ignored_dir(n) {
                prev.push(SubsystemDefView { name: n, path_prefixes: seq![n + seq!['/']] })
            } else {
                prev
            },
            None => prev,
        }
    }
}

/// The names of the non-dot files at the top level.
pub open spec fn root_file_names(entries: Seq<TreeEntryView>) -> Seq<Seq<char>>
    decreases entries.len(),
{
    if entries.len() == 0 {
        Seq::empty()
    } else {
        let prev = root_file_names(entries.drop_last());
        let e = entries.last();
        match e.name {
            Some(n) => if e.kind == EntryKind::Blob && !is_dot_name(n) {
                prev.push(n)
            } else {
                prev
            },
            None => prev,
        }
    }
}

/// Ascending string order, as a "ranks below" relation for `sort_desc`.
pub open spec fn name_asc() -> spec_fn(Seq<char>, Seq<char>) -> bool {
    |a: Seq<char>, b: Seq<char>| seq_lt(b, a)
}

/// Ascending order of subsystems by name.
pub open spec fn def_name_asc() -> spec_fn(SubsystemDefView, SubsystemDefView) -> bool {
    |a: SubsystemDefView, b: SubsystemDefView| seq_lt(b.name, a.name)
}

/// The discovered subsystems: kept directories plus, when there are root-level
/// files, one `"root"` subsystem keyed by their sorted names; all sorted by name.
pub open spec fn discovered(entries: Seq<TreeEntryView>) -> Seq<SubsystemDefView> {
    let roots = root_file_names(entries);
    let all = if roots.len() > 0 {
        dir_subsystems(entries).push(
            SubsystemDefView { name: "root"@, path_prefixes: sort_desc(roots, name_asc()) },
        )
    } else {
        dir_subsystems(entries)
    };
    sort_desc(all, def_name_asc())
}

fn is_ignored_dir_name(name: &str) -> (r: bool)
    ensures
        r == is_ignored_dir(name@),
{
    str_eq(name, "node_modules") || str_eq(name, "target") || str_eq(name, "dist") || str_eq(
        name,
        "build",
    ) || str_eq(name, "out") || str_eq(name, "coverage") || str_eq(name, "vendor") || str_eq(
        name,
        "__pycache__",
    ) || str_eq(name, "venv")
}

fn starts_with_dot(name: &str) -> (r: bool)
    ensures
        r == is_dot_name(name@),
{
    let v = crate::text::chars_of(name);
    v.len() > 0 && v[0] == '.'
}

/// Sorts strings ascending.
fn sort_names(v: Vec<String>) -> (r: Vec<String>)
    ensures
        strs(r@) == sort_desc(strs(v@), name_asc()),
{
    let ghost s = strs(v@);
    let ghost n = v@.len();
    let mut input = v;
    let mut out: Vec<String> = Vec::new();
    assert(s.take(0) =~= Seq::<Seq<char>>::empty());
    assert(s.skip(0) =~= s);
    while input.len() > 0
        invariant
            input@.len() <= n,
            s.len() == n,
            strs(input@) == s.skip(n - input@.len()),
            strs(out@) == sort_desc(s.take(n - input@.len()), name_asc()),
        decreases input@.len(),
    {
        let ghost k = n - input@.len();
        let ghost before_in = input@;
        let x = input.remove(0);
        assert(strs(before_in)[0] == before_in[0]@);
        assert(s.skip(k)[0] == s[k]);
        assert(strs(input@) =~= strs(before_in).drop_first());
        assert(strs(input@) =~= s.skip(k + 1));
        let mut p: usize = 0;
        while p < out.len() && !str_lt(&x, &out[p])
            invariant
                p <= out.len(),
                forall|q: int| 0 <= q < p ==> !(name_asc())(#[trigger] strs(out@)[q], x@),
            decreases out.len() - p,
        {
            p += 1;
        }
        proof {
            lemma_first_below_is(strs(out@), x@, name_asc(), p as int);
            assert(s.take(k + 1).drop_last() =~= s.take(k));
            assert(s.take(k + 1).last() == x@);
        }
        let ghost before = strs(out@);
        out.insert(p, x);
        assert(strs(out@) =~= before.insert(p as int, x@));
    }
    assert(s.take(n as int) =~= s);
    out
}

/// Sorts subsystem definitions by ascending name (stable).
fn sort_defs_by_name(v: Vec<SubsystemDef>) -> (r: Vec<SubsystemDef>)
    ensures
        subsystem_views(r@) == sort_desc(subsystem_views(v@), def_name_asc()),
{
    let ghost s = subsystem_views(v@);
    let ghost n = v@.len();
    let mut input = v;
    let mut out: Vec<SubsystemDef> = Vec::new();
    assert(s.take(0) =~= Seq::<SubsystemDefView>::empty());
    assert(s.skip(0) =~= s);
    while input.len() > 0
        invariant
            input@.len() <= n,
            s.len() == n,
            subsystem_views(input@) == s.skip(n - input@.len()),
            subsystem_views(out@) == sort_desc(s.take(n - input@.len()), def_name_asc()),
        decreases input@.len(),
    {
        let ghost k = n - input@.len();
        let ghost before_in = input@;
        let x = input.remove(0);
        assert(subsystem_views(before_in)[0] == before_in[0]@);
        assert(s.skip(k)[0] == s[k]);
        assert(subsystem_views(input@) =~= subsystem_views(before_in).drop_first());
        assert(subsystem_views(input@) =~= s.skip(k + 1));
        let mut p: usize = 0;
        while p < out.len() && !str_lt(&x.name, &out[p].name)
            invariant
                p <= out.len(),
                forall|q: int|
                    0 <= q < p ==> !(def_name_asc())(#[trigger] subsystem_views(out@)[q], x@),
            decreases out.len() - p,
        {
            p += 1;
        }
        proof {
            lemma_first_below_is(subsystem_views(out@), x@, def_name_asc(), p as int);
            assert(s.take(k + 1).drop_last() =~= s.take(k));
            assert(s.take(k + 1).last() == x@);
        }
        let ghost before = subsystem_views(out@);
        out.insert(p, x);
        assert(subsystem_views(out@) =~= before.insert(p as int, x@));
    }
    assert(s.take(n as int) =~= s);
    out
}

/// Auto-discovers candidate subsystems from the top-level entries of a
/// repository's HEAD tree. Each non-ignored, non-dot directory becomes one
/// subsystem named after itself with the prefix `"<dir>/"`; non-dot root-level
/// files are grouped into one `"root"` subsystem keyed by their sorted names;
/// entries with non-UTF-8 names and other kinds are left out. The result is
/// sorted by name.
pub fn discover_subsystems_from_entries(entries: &Vec<TreeEntry>) -> (r: Vec<SubsystemDef>)
    ensures
        subsystem_views(r@) == discovered(entry_views(entries@)),
{
    let ghost ev = entry_views(entries@);
    let mut subsystems: Vec<SubsystemDef> = Vec::new();
    let mut root_files: Vec<String> = Vec::new();
    let mut i: usize = 0;
    while i < entries.len()
        invariant
            i <= entries@.len(),
            ev == entry_views(entries@),
            subsystem_views(subsystems@) == dir_subsystems(ev.take(i as int)),
            strs(root_files@) == root_file_names(ev.take(i as int)),
        decreases entries@.len() - i,
    {
        assert(ev.take(i + 1).drop_last() =~= ev.take(i as int));
        assert(ev.take(i + 1).last() == entries@[i as int]@);
        match &entries[i].name {
            Some(n) => {
                let kind = entries[i].kind;
                if kind == EntryKind::Tree {
                    if !starts_with_dot(n.as_str()) && !is_ignored_dir_name(n.as_str()) {
                        let mut prefix = n.clone();
                        push_str(&mut prefix, "/");
                        let mut prefixes: Vec<String> = Vec::new();
                        prefixes.push(prefix);
                        let ghost before = subsystem_views(subsystems@);
                        let def = SubsystemDef { name: n.clone(), path_prefixes: prefixes };
                        proof {
                            reveal_strlit("/");
                            assert("/"@ =~= seq!['/']);
                            assert(def.path_prefixes@[0]@ == n@ + seq!['/']);
                            assert(strs(def.path_prefixes@) =~= seq![n@ + seq!['/']]);
                        }
                        subsystems.push(def);
                        assert(subsystem_views(subsystems@) =~= before.push(def@));
                    }
                } else if kind == EntryKind::Blob {
                    if !starts_with_dot(n.as_str()) {
                        let ghost before = strs(root_files@);
                        root_files.push(n.clone());
                        assert(strs(root_files@) =~= before.push(n@));
                    }
                }
            },
            None => {},
        }
        i += 1;
    }
    assert(ev.take(entries@.len() as int) =~= ev);
    if root_files.len() > 0 {
        let sorted = sort_names(root_files);
        let ghost before = subsystem_views(subsystems@);
        let root = SubsystemDef { name: copy_str("root"), path_prefixes: sorted };
        subsystems.push(root);
        assert(subsystem_views(subsystems@) =~= before.push(root@));
    }
    sort_defs_by_name(subsystems)
}

} // verus!
