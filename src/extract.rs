//! What extracting one archive writes: the files, and the entries refused.

use vstd::prelude::*;

use crate::entry_path::{
    has_drive_prefix, has_parent_component, is_dir_entry, is_directory_entry,
    is_safe_entry_path, is_sep, lemma_join_stays_inside, safe_entry_path, stays_inside,
};
use crate::roots::{is_dir_root, lemma_player_roots_stay_inside, root_of, windows_player_roots};

verus! {

/// An entry that is written out: a file whose name stays inside.
pub open spec fn extractable(name: Seq<char>) -> bool {
    !is_dir_entry(name) && safe_entry_path(name)
}

/// An entry that is refused and reported: a file whose name would leave the
/// install root.
pub open spec fn rejected(name: Seq<char>) -> bool {
    !is_dir_entry(name) && !safe_entry_path(name)
}

/// The files that extracting entries `es` under `root` writes, as pairs of a
/// path relative to the install root and the content, in entry order.
pub open spec fn plan_writes(root: Seq<char>, es: Seq<(Seq<char>, Seq<u8>)>) -> Seq<
    (Seq<char>, Seq<u8>),
>
    decreases es.len(),
{
    if es.len() == 0 {
        Seq::empty()
    } else {
        let prev = plan_writes(root, es.drop_last());
        let e = es.last();
        if extractable(e.0) {
            prev.push((root + e.0, e.1))
        } else {
            prev
        }
    }
}

/// The names of the entries of `es` that are refused, in entry order.
pub open spec fn plan_skipped(es: Seq<(Seq<char>, Seq<u8>)>) -> Seq<Seq<char>>
    decreases es.len(),
{
    if es.len() == 0 {
        Seq::empty()
    } else {
        let prev = plan_skipped(es.drop_last());
        if rejected(es.last().0) {
            prev.push(es.last().0)
        } else {
            prev
        }
    }
}

/// One file to write, at a path relative to the install root.
pub struct FileWrite {
    pub path: String,
    pub data: Vec<u8>,
}

/// The outcome of reading one archive: the files to write, and the names of
/// the entries refused because their path would leave the install root.
pub struct ExtractPlan {
    pub writes: Vec<FileWrite>,
    pub skipped: Vec<String>,
}

/// The writes of a plan as pairs of path and content.
pub open spec fn writes_view(w: Seq<FileWrite>) -> Seq<(Seq<char>, Seq<u8>)> {
    w.map_values(|f: FileWrite| (f.path@, f.data@))
}

/// The character sequences of a list of strings.
pub open spec fn names_view(v: Seq<String>) -> Seq<Seq<char>> {
    v.map_values(|s: String| s@)
}

impl ExtractPlan {
    /// The writes and the refused names of the plan.
    pub open spec fn model(&self) -> (Seq<(Seq<char>, Seq<u8>)>, Seq<Seq<char>>) {
        (writes_view(self.writes@), names_view(self.skipped@))
    }

    /// A plan that writes nothing and refuses nothing.
    pub fn new() -> (r: Self)
        ensures
            r.model() == (Seq::<(Seq<char>, Seq<u8>)>::empty(), Seq::<Seq<char>>::empty()),
    {
        let r = ExtractPlan { writes: Vec::new(), skipped: Vec::new() };
        assert(writes_view(r.writes@) =~= Seq::<(Seq<char>, Seq<u8>)>::empty());
        assert(names_view(r.skipped@) =~= Seq::<Seq<char>>::empty());
        r
    }

    /// Takes in the next entry of the archive: a directory is passed over, a
    /// file whose name stays inside is written at `root` joined with its name,
    /// and any other file is refused and its name recorded.
    pub fn add_entry(&mut self, root: &str, name: String, data: Vec<u8>)
        ensures
            final(self).model().0 == (if extractable(name@) {
                old(self).model().0.push((root@ + name@, data@))
            } else {
                old(self).model().0
            }),
            final(self).model().1 == (if rejected(name@) {
                old(self).model().1.push(name@)
            } else {
                old(self).model().1
            }),
    {
        let ghost w0 = self.model().0;
        let ghost s0 = self.model().1;
        if is_directory_entry(name.as_str()) {
        } else if is_safe_entry_path(name.as_str()) {
            let path = String::from_str(root).concat(name.as_str());
            let ghost nv = name@;
            let ghost dv = data@;
            self.writes.push(FileWrite { path, data });
            assert(writes_view(self.writes@) =~= w0.push((root@ + nv, dv)));
        } else {
            self.skipped.push(name);
            assert(names_view(self.skipped@) =~= s0.push(name@));
        }
    }
}

/// Every file that extraction writes lands at the archive's extraction root
/// joined with a name from the archive; when the table maps the archive, that
/// root is the mapped directory, and otherwise the file lands directly under
/// the install root.
pub proof fn lemma_writes_under_root(
    table: Map<Seq<char>, Seq<char>>,
    archive: Seq<char>,
    es: Seq<(Seq<char>, Seq<u8>)>,
)
    ensures
        forall|k: int|
            0 <= k < plan_writes(root_of(table, archive), es).len() ==> exists|j: int|
                0 <= j < es.len() && extractable(es[j].0) && #[trigger] plan_writes(
                    root_of(table, archive),
                    es,
                )[k] == (root_of(table, archive) + es[j].0, es[j].1),
        table.contains_key(archive) ==> root_of(table, archive) == table[archive],
        !table.contains_key(archive) ==> root_of(table, archive) == Seq::<char>::empty(),
    decreases es.len(),
{
    let root = root_of(table, archive);
    if es.len() > 0 {
        lemma_writes_under_root(table, archive, es.drop_last());
        let prev = plan_writes(root, es.drop_last());
        assert forall|k: int| 0 <= k < plan_writes(root, es).len() implies exists|j: int|
            0 <= j < es.len() && extractable(es[j].0) && #[trigger] plan_writes(root, es)[k] == (
                root + es[j].0,
                es[j].1,
            ) by {
            if k < prev.len() {
                let j = choose|j: int|
                    0 <= j < es.drop_last().len() && extractable(es.drop_last()[j].0) && #[trigger] prev[k]
                        == (root + es.drop_last()[j].0, es.drop_last()[j].1);
                assert(es[j] == es.drop_last()[j]);
            } else {
                let j = es.len() - 1;
                assert(plan_writes(root, es)[k] == (root + es[j].0, es[j].1));
            }
        }
    }
}

/// When the extraction root stays inside the install root, so does the path
/// of every file that extraction writes, whatever the archive's entry names:
/// an entry such as `../../evil.txt` is refused, never written.
pub proof fn lemma_writes_stay_inside(root: Seq<char>, es: Seq<(Seq<char>, Seq<u8>)>)
    requires
        stays_inside(root),
        root.len() == 0 || is_sep(root.last()),
    ensures
        forall|k: int|
            0 <= k < plan_writes(root, es).len() ==> stays_inside(#[trigger] plan_writes(root, es)[k].0),
        forall|j: int|
            0 <= j < es.len() && !is_dir_entry(es[j].0) && !stays_inside(#[trigger] es[j].0)
                ==> plan_skipped(es).contains(es[j].0),
    decreases es.len(),
{
    if es.len() > 0 {
        let init = es.drop_last();
        lemma_writes_stay_inside(root, init);
        let e = es.last();
        if extractable(e.0) {
            lemma_join_stays_inside(root, e.0);
        }
        assert forall|k: int| 0 <= k < plan_writes(root, es).len() implies stays_inside(
            #[trigger] plan_writes(root, es)[k].0,
        ) by {
            if k < plan_writes(root, init).len() {
                assert(plan_writes(root, es)[k] == plan_writes(root, init)[k]);
            }
        }
        assert forall|j: int|
            0 <= j < es.len() && !is_dir_entry(es[j].0) && !stays_inside(#[trigger] es[j].0)
                implies plan_skipped(es).contains(es[j].0) by {
            if j < init.len() {
                assert(init[j] == es[j]);
                let i = choose|i: int| 0 <= i < plan_skipped(init).len() && plan_skipped(init)[i] == es[j].0;
                assert(plan_skipped(es)[i] == es[j].0);
            } else {
                assert(es[j] == e);
                assert(plan_skipped(es).last() == e.0);
            }
        }
    }
}

/// With the Windows player's table, whatever an archive is called and
/// whatever its entries are named, every file that extraction writes stays
/// inside the install root.
pub proof fn lemma_player_writes_stay_inside(archive: Seq<char>, es: Seq<(Seq<char>, Seq<u8>)>)
    ensures
        forall|k: int|
            0 <= k < plan_writes(root_of(windows_player_roots(), archive), es).len()
                ==> stays_inside(
                #[trigger] plan_writes(root_of(windows_player_roots(), archive), es)[k].0,
            ),
{
    let root = root_of(windows_player_roots(), archive);
    lemma_player_roots_stay_inside();
    if !windows_player_roots().contains_key(archive) {
        assert(!has_drive_prefix(root));
        assert(!has_parent_component(root));
    }
    assert(is_dir_root(root));
    lemma_writes_stay_inside(root, es);
}

/// The files under the install root after writing `ws` in order over `fs`,
/// each write replacing the file at its path.
pub open spec fn apply_writes(fs: Map<Seq<char>, Seq<u8>>, ws: Seq<(Seq<char>, Seq<u8>)>) -> Map<
    Seq<char>,
    Seq<u8>,
>
    decreases ws.len(),
{
    if ws.len() == 0 {
        fs
    } else {
        apply_writes(fs, ws.drop_last()).insert(ws.last().0, ws.last().1)
    }
}

/// The content that the last write to `path` among `ws` puts there.
pub open spec fn last_write(ws: Seq<(Seq<char>, Seq<u8>)>, path: Seq<char>) -> Option<Seq<u8>>
    decreases ws.len(),
{
    if ws.len() == 0 {
        None
    } else if ws.last().0 == path {
        Some(ws.last().1)
    } else {
        last_write(ws.drop_last(), path)
    }
}

proof fn lemma_apply_writes_at(
    fs: Map<Seq<char>, Seq<u8>>,
    ws: Seq<(Seq<char>, Seq<u8>)>,
    path: Seq<char>,
)
    ensures
        last_write(ws, path) is Some ==> apply_writes(fs, ws).contains_key(path) && apply_writes(
            fs,
            ws,
        )[path] == last_write(ws, path)->Some_0,
        last_write(ws, path) is None ==> (apply_writes(fs, ws).contains_key(path)
            == fs.contains_key(path)) && (fs.contains_key(path) ==> apply_writes(fs, ws)[path]
            == fs[path]),
    decreases ws.len(),
{
    if ws.len() > 0 {
        lemma_apply_writes_at(fs, ws.drop_last(), path);
    }
}

/// Installing twice is installing once: writing the same files again over
/// the result of a first pass leaves every file as the first pass left it.
pub proof fn lemma_reinstall_idempotent(
    fs: Map<Seq<char>, Seq<u8>>,
    ws: Seq<(Seq<char>, Seq<u8>)>,
)
    ensures
        apply_writes(apply_writes(fs, ws), ws) == apply_writes(fs, ws),
{
    let once = apply_writes(fs, ws);
    let twice = apply_writes(once, ws);
    assert forall|p: Seq<char>| #[trigger] twice.contains_key(p) <==> once.contains_key(p) by {
        lemma_apply_writes_at(fs, ws, p);
        lemma_apply_writes_at(once, ws, p);
    }
    assert forall|p: Seq<char>| twice.contains_key(p) implies #[trigger] twice[p] == once[p] by {
        lemma_apply_writes_at(fs, ws, p);
        lemma_apply_writes_at(once, ws, p);
    }
    assert(twice =~= once);
}

} // verus!
