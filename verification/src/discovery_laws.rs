//! What subsystem discovery promises of every tree: dependency, build-output
//! and tooling directories never become subsystems, and every other visible
//! directory does.
use vstd::prelude::*;

use crate::discovery::{
    def_name_asc, dir_subsystems, discovered, is_dot_name, is_ignored_dir, name_asc,
    root_file_names, EntryKind, TreeEntryView,
};
use crate::mining_types::SubsystemDefView;
use crate::sorting::{
    lemma_sort_desc_contains, lemma_sort_desc_from_input, lemma_sort_desc_len, sort_desc,
};

verus! {

proof fn lemma_dir_subsystems_from(entries: Seq<TreeEntryView>, k: int)
    requires
        0 <= k < dir_subsystems(entries).len(),
    ensures
        exists|i: int|
            0 <= i < entries.len() && (#[trigger] entries[i]).kind == EntryKind::Tree
                && entries[i].name == Some(dir_subsystems(entries)[k].name) && !is_ignored_dir(
                dir_subsystems(entries)[k].name,
            ),
    decreases entries.len(),
{
    let prev = dir_subsystems(entries.drop_last());
    if k < prev.len() {
        lemma_dir_subsystems_from(entries.drop_last(), k);
        let i = choose|i: int|
            0 <= i < entries.len() - 1 && (#[trigger] entries.drop_last()[i]).kind == EntryKind::Tree
                && entries.drop_last()[i].name == Some(prev[k].name) && !is_ignored_dir(prev[k].name);
        assert(entries[i] == entries.drop_last()[i]);
        assert(dir_subsystems(entries)[k] == prev[k]);
    } else {
        let i = entries.len() - 1;
        assert(entries[i] == entries.last());
    }
}

proof fn lemma_dir_subsystems_has(entries: Seq<TreeEntryView>, i: int, n: Seq<char>)
    requires
        0 <= i < entries.len(),
        entries[i].kind == EntryKind::Tree,
        entries[i].name == Some(n),
        !is_dot_name(n),
        !is_ignored_dir(n),
    ensures
        exists|k: int| 0 <= k < dir_subsystems(entries).len() && (#[trigger] dir_subsystems(entries)[k]).name == n,
    decreases entries.len(),
{
    let prev = dir_subsystems(entries.drop_last());
    if i < entries.len() - 1 {
        assert(entries.drop_last()[i] == entries[i]);
        lemma_dir_subsystems_has(entries.drop_last(), i, n);
        let k = choose|k: int| 0 <= k < prev.len() && (#[trigger] prev[k]).name == n;
        assert(dir_subsystems(entries)[k] == prev[k]);
    } else {
        assert(entries.last() == entries[i]);
        assert(dir_subsystems(entries)[prev.len() as int].name == n);
    }
}

proof fn lemma_root_not_ignored()
    ensures
        !is_ignored_dir("root"@),
{
    reveal_strlit("root");
    reveal_strlit("node_modules");
    reveal_strlit("target");
    reveal_strlit("dist");
    reveal_strlit("build");
    reveal_strlit("out");
    reveal_strlit("coverage");
    reveal_strlit("vendor");
    reveal_strlit("__pycache__");
    reveal_strlit("venv");
    assert("root"@.len() == 4);
    assert("root"@[0] == 'r');
}

/// No discovered subsystem is named after a dependency, build-output or
/// tooling directory (`node_modules`, `target`, `dist`, `build`, `out`,
/// `coverage`, `vendor`, `__pycache__`, `venv`); every other top-level
/// directory whose name does not start with `.` is discovered under its name.
pub proof fn law_ignored_dirs_never_subsystems(entries: Seq<TreeEntryView>)
    ensures
        forall|k: int|
            0 <= k < discovered(entries).len() ==> {
                let n = (#[trigger] discovered(entries)[k]).name;
                &&& n != "node_modules"@
                &&& n != "target"@
                &&& n != "dist"@
                &&& n != "build"@
                &&& n != "out"@
                &&& n != "coverage"@
                &&& n != "vendor"@
                &&& n != "__pycache__"@
                &&& n != "venv"@
            },
        forall|i: int|
            0 <= i < entries.len() && (#[trigger] entries[i]).kind == EntryKind::Tree
                && entries[i].name is Some ==> {
                let n = entries[i].name->0;
                !(n.len() > 0 && n[0] == '.') && n != "node_modules"@ && n != "target"@ && n
                    != "dist"@ && n != "build"@ && n != "out"@ && n != "coverage"@ && n
                    != "vendor"@ && n != "__pycache__"@ && n != "venv"@ ==> exists|k: int|
                    0 <= k < discovered(entries).len() && (#[trigger] discovered(entries)[k]).name
                        == n
            },
{
    lemma_root_not_ignored();
    let dirs = dir_subsystems(entries);
    let roots = root_file_names(entries);
    let all = if roots.len() > 0 {
        dirs.push(SubsystemDefView { name: "root"@, path_prefixes: sort_desc(roots, name_asc()) })
    } else {
        dirs
    };
    let d = discovered(entries);
    assert(d == sort_desc(all, def_name_asc()));
    assert forall|k: int| 0 <= k < d.len() implies !is_ignored_dir((#[trigger] d[k]).name) by {
        lemma_sort_desc_len(all, def_name_asc());
        lemma_sort_desc_from_input(all, def_name_asc(), k);
        let j = choose|j: int| 0 <= j < all.len() && all[j] == d[k];
        if j < dirs.len() {
            assert(all[j] == dirs[j]);
            lemma_dir_subsystems_from(entries, j);
        } else {
            assert(all[j].name == "root"@);
        }
    }
    assert forall|i: int|
        0 <= i < entries.len() && (#[trigger] entries[i]).kind == EntryKind::Tree
            && entries[i].name is Some implies {
        let n = entries[i].name->0;
        !(n.len() > 0 && n[0] == '.') && n != "node_modules"@ && n != "target"@ && n != "dist"@
            && n != "build"@ && n != "out"@ && n != "coverage"@ && n != "vendor"@ && n
            != "__pycache__"@ && n != "venv"@ ==> exists|k: int|
            0 <= k < d.len() && (#[trigger] d[k]).name == n
    } by {
        let n = entries[i].name->0;
        if !is_dot_name(n) && !is_ignored_dir(n) {
            lemma_dir_subsystems_has(entries, i, n);
            let k = choose|k: int| 0 <= k < dirs.len() && (#[trigger] dirs[k]).name == n;
            assert(all[k] == dirs[k]);
            lemma_sort_desc_contains(all, def_name_asc(), k);
            let q = choose|q: int| 0 <= q < d.len() && d[q] == all[k];
            assert(d[q].name == n);
        }
    }
}

} // verus!
