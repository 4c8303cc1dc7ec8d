//! Product variants and their tables from archive name to extraction root.

use vstd::prelude::*;

use crate::entry_path::{is_safe_entry_path, is_sep, is_sep_char, stays_inside};
use crate::text::str_equal;

verus! {

/// The application and platform an installation targets.
#[derive(Clone, Copy, Debug, PartialEq, Eq, Structural)]
pub enum ProductVariant {
    WindowsPlayer,
}

/// A fixed mapping from archive file name to the directory, relative to the
/// install root, that the archive unpacks into.
pub struct ExtractionRootTable {
    entries: Vec<(String, String)>,
}

/// The pairs of a table, as character sequences.
pub open spec fn pairs_view(s: Seq<(String, String)>) -> Seq<(Seq<char>, Seq<char>)> {
    s.map_values(|p: (String, String)| (p.0@, p.1@))
}

/// No archive name occurs twice.
pub open spec fn keys_unique(s: Seq<(Seq<char>, Seq<char>)>) -> bool {
    forall|i: int, j: int| 0 <= i < s.len() && 0 <= j < s.len() && s[i].0 == s[j].0 ==> i == j
}

/// The mapping that a sequence of pairs with distinct names stands for.
pub open spec fn pairs_map(s: Seq<(Seq<char>, Seq<char>)>) -> Map<Seq<char>, Seq<char>> {
    Map::new(
        |k: Seq<char>| exists|i: int| 0 <= i < s.len() && s[i].0 == k,
        |k: Seq<char>| s[choose|i: int| 0 <= i < s.len() && s[i].0 == k].1,
    )
}

/// The extraction root of an archive: its mapped directory, or the install
/// root (the empty path) when the table does not name it.
pub open spec fn root_of(t: Map<Seq<char>, Seq<char>>, name: Seq<char>) -> Seq<char> {
    if t.contains_key(name) {
        t[name]
    } else {
        Seq::empty()
    }
}

/// The table of the Windows player.
pub open spec fn windows_player_roots() -> Map<Seq<char>, Seq<char>> {
    Map::empty()
        .insert("RobloxApp.zip"@, ""@)
        .insert("redist.zip"@, ""@)
        .insert("shaders.zip"@, "shaders/"@)
        .insert("ssl.zip"@, "ssl/"@)
        .insert("WebView2.zip"@, ""@)
        .insert("WebView2RuntimeInstaller.zip"@, "WebView2RuntimeInstaller/"@)
        .insert("content-avatar.zip"@, "content/avatar/"@)
        .insert("content-configs.zip"@, "content/configs/"@)
        .insert("content-fonts.zip"@, "content/fonts/"@)
        .insert("content-sky.zip"@, "content/sky/"@)
        .insert("content-sounds.zip"@, "content/sounds/"@)
        .insert("content-textures2.zip"@, "content/textures/"@)
        .insert("content-models.zip"@, "content/models/"@)
        .insert("content-platform-fonts.zip"@, "PlatformContent/pc/fonts/"@)
        .insert(
            "content-platform-dictionaries.zip"@,
            "PlatformContent/pc/shared_compression_dictionaries/"@,
        )
        .insert("content-terrain.zip"@, "PlatformContent/pc/terrain/"@)
        .insert("content-textures3.zip"@, "PlatformContent/pc/textures/"@)
        .insert("extracontent-luapackages.zip"@, "ExtraContent/LuaPackages/"@)
        .insert("extracontent-translations.zip"@, "ExtraContent/translations/"@)
        .insert("extracontent-models.zip"@, "ExtraContent/models/"@)
        .insert("extracontent-textures.zip"@, "ExtraContent/textures/"@)
        .insert("extracontent-places.zip"@, "ExtraContent/places/"@)
}

/// The table that a product variant installs by.
pub open spec fn variant_roots(v: ProductVariant) -> Map<Seq<char>, Seq<char>> {
    match v {
        ProductVariant::WindowsPlayer => windows_player_roots(),
    }
}

impl View for ExtractionRootTable {
    type V = Map<Seq<char>, Seq<char>>;

    closed spec fn view(&self) -> Map<Seq<char>, Seq<char>> {
        pairs_map(pairs_view(self.entries@))
    }
}

proof fn lemma_pairs_map_push(s: Seq<(Seq<char>, Seq<char>)>, k: Seq<char>, v: Seq<char>)
    requires
        keys_unique(s),
        forall|i: int| 0 <= i < s.len() ==> s[i].0 != k,
    ensures
        keys_unique(s.push((k, v))),
        pairs_map(s.push((k, v))) == pairs_map(s).insert(k, v),
{
    let t = s.push((k, v));
    assert forall|x: Seq<char>| #[trigger] pairs_map(t).contains_key(x) implies pairs_map(
        s,
    ).insert(k, v).contains_key(x) by {
        let i = choose|i: int| 0 <= i < t.len() && t[i].0 == x;
        if i < s.len() {
            assert(s[i].0 == x);
        }
    }
    assert forall|x: Seq<char>| #[trigger] pairs_map(s).insert(k, v).contains_key(x)
        implies pairs_map(t).contains_key(x) && pairs_map(t)[x] == pairs_map(s).insert(k, v)[x] by {
        if x == k {
            assert(t[s.len() as int].0 == x);
            let i = choose|i: int| 0 <= i < t.len() && t[i].0 == x;
            assert(i == s.len());
        } else {
            let j = choose|i: int| 0 <= i < s.len() && s[i].0 == x;
            assert(t[j].0 == x);
            let i = choose|i: int| 0 <= i < t.len() && t[i].0 == x;
            assert(i < s.len());
        }
    }
    assert(pairs_map(t) =~= pairs_map(s).insert(k, v));
}

proof fn lemma_pairs_map_update(s: Seq<(Seq<char>, Seq<char>)>, j: int, v: Seq<char>)
    requires
        keys_unique(s),
        0 <= j < s.len(),
    ensures
        keys_unique(s.update(j, (s[j].0, v))),
        pairs_map(s.update(j, (s[j].0, v))) == pairs_map(s).insert(s[j].0, v),
{
    let k = s[j].0;
    let t = s.update(j, (k, v));
    assert forall|x: Seq<char>| #[trigger] pairs_map(t).contains_key(x) implies pairs_map(
        s,
    ).insert(k, v).contains_key(x) by {
        let i = choose|i: int| 0 <= i < t.len() && t[i].0 == x;
        assert(s[i].0 == x);
    }
    assert forall|x: Seq<char>| #[trigger] pairs_map(s).insert(k, v).contains_key(x)
        implies pairs_map(t).contains_key(x) && pairs_map(t)[x] == pairs_map(s).insert(k, v)[x] by {
        if x == k {
            assert(t[j].0 == x);
            let i = choose|i: int| 0 <= i < t.len() && t[i].0 == x;
            assert(s[i].0 == x);
            assert(i == j);
        } else {
            let m = choose|i: int| 0 <= i < s.len() && s[i].0 == x;
            assert(t[m].0 == x);
            let i = choose|i: int| 0 <= i < t.len() && t[i].0 == x;
            assert(s[i].0 == x);
            assert(i == m);
        }
    }
    assert(pairs_map(t) =~= pairs_map(s).insert(k, v));
}

impl ExtractionRootTable {
    /// The table keeps no archive name twice.
    #[verifier::type_invariant]
    spec fn wf(&self) -> bool {
        keys_unique(pairs_view(self.entries@))
    }

    /// A table that maps nothing.
    pub fn new() -> (r: Self)
        ensures
            r@ == Map::<Seq<char>, Seq<char>>::empty(),
    {
        let r = ExtractionRootTable { entries: Vec::new() };
        assert(pairs_map(pairs_view(r.entries@)) =~= Map::<Seq<char>, Seq<char>>::empty());
        r
    }

    /// Maps `name` to `dir`, replacing an earlier mapping of `name`.
    pub fn insert(&mut self, name: &str, dir: &str)
        ensures
            final(self)@ == old(self)@.insert(name@, dir@),
    {
        proof {
            use_type_invariant(&*self);
        }
        let mut entries: Vec<(String, String)> = Vec::new();
        std::mem::swap(&mut entries, &mut self.entries);
        let ghost s = pairs_view(entries@);
        let n = entries.len();
        let mut i: usize = 0;
        let mut found = false;
        while i < n && !found
            invariant
                i <= n,
                n == entries@.len(),
                keys_unique(s),
                !found ==> s == pairs_view(entries@),
                !found ==> forall|j: int| 0 <= j < i ==> s[j].0 != name@,
                found ==> keys_unique(pairs_view(entries@)) && pairs_map(pairs_view(entries@))
                    == pairs_map(s).insert(name@, dir@),
            decreases n - i + (if found { 0int } else { 1int }),
        {
            if str_equal(entries[i].0.as_str(), name) {
                let ghost k = s[i as int].0;
                assert(k == name@);
                entries.set(i, (String::from_str(name), String::from_str(dir)));
                proof {
                    lemma_pairs_map_update(s, i as int, dir@);
                    assert(pairs_view(entries@) =~= s.update(i as int, (k, dir@)));
                }
                found = true;
            } else {
                i = i + 1;
            }
        }
        if !found {
            entries.push((String::from_str(name), String::from_str(dir)));
            proof {
                lemma_pairs_map_push(s, name@, dir@);
                assert(pairs_view(entries@) =~= s.push((name@, dir@)));
            }
        }
        self.entries = entries;
    }

    /// The table of the given product variant.
    pub fn for_variant(v: ProductVariant) -> (r: Self)
        ensures
            r@ == variant_roots(v),
            roots_keep_inside(r@),
    {
        let mut t = ExtractionRootTable::new();
        match v {
            ProductVariant::WindowsPlayer => {
                t.insert("RobloxApp.zip", "");
                t.insert("redist.zip", "");
                t.insert("shaders.zip", "shaders/");
                t.insert("ssl.zip", "ssl/");
                t.insert("WebView2.zip", "");
                t.insert("WebView2RuntimeInstaller.zip", "WebView2RuntimeInstaller/");
                t.insert("content-avatar.zip", "content/avatar/");
                t.insert("content-configs.zip", "content/configs/");
                t.insert("content-fonts.zip", "content/fonts/");
                t.insert("content-sky.zip", "content/sky/");
                t.insert("content-sounds.zip", "content/sounds/");
                t.insert("content-textures2.zip", "content/textures/");
                t.insert("content-models.zip", "content/models/");
                t.insert("content-platform-fonts.zip", "PlatformContent/pc/fonts/");
                t.insert(
                    "content-platform-dictionaries.zip",
                    "PlatformContent/pc/shared_compression_dictionaries/",
                );
                t.insert("content-terrain.zip", "PlatformContent/pc/terrain/");
                t.insert("content-textures3.zip", "PlatformContent/pc/textures/");
                t.insert("extracontent-luapackages.zip", "ExtraContent/LuaPackages/");
                t.insert("extracontent-translations.zip", "ExtraContent/translations/");
                t.insert("extracontent-models.zip", "ExtraContent/models/");
                t.insert("extracontent-textures.zip", "ExtraContent/textures/");
                t.insert("extracontent-places.zip", "ExtraContent/places/");
            },
        }
        proof {
            lemma_player_roots_stay_inside();
            assert(t@ == windows_player_roots());
        }
        t
    }

    /// Whether every directory of the table keeps the files of its archive
    /// inside the install root.
    pub fn keeps_inside(&self) -> (r: bool)
        ensures
            r == roots_keep_inside(self@),
    {
        proof {
            use_type_invariant(self);
        }
        let ghost s = pairs_view(self.entries@);
        let n = self.entries.len();
        let mut i: usize = 0;
        while i < n
            invariant
                i <= n,
                n == self.entries@.len(),
                s == pairs_view(self.entries@),
                keys_unique(s),
                forall|j: int| 0 <= j < i ==> is_dir_root(#[trigger] s[j].1),
            decreases n - i,
        {
            let dir = self.entries[i].1.as_str();
            let ok = dir.unicode_len() == 0 || (is_safe_entry_path(dir) && is_sep_char(
                dir.get_char(dir.unicode_len() - 1),
            ));
            if !ok {
                proof {
                    let k = s[i as int].0;
                    assert(self@.contains_key(k));
                    let c = choose|j: int| 0 <= j < s.len() && s[j].0 == k;
                    assert(c == i);
                }
                return false;
            }
            i = i + 1;
        }
        proof {
            assert forall|k: Seq<char>| #[trigger] self@.contains_key(k) implies is_dir_root(
                self@[k],
            ) by {
                let c = choose|j: int| 0 <= j < s.len() && s[j].0 == k;
                assert(is_dir_root(s[c].1));
            }
        }
        true
    }

    /// The directory, relative to the install root, that the archive `name`
    /// unpacks into; the empty path when the table does not name it.
    pub fn root_for(&self, name: &str) -> (r: &str)
        ensures
            r@ == root_of(self@, name@),
    {
        proof {
            use_type_invariant(self);
        }
        let ghost s = pairs_view(self.entries@);
        let n = self.entries.len();
        let mut i: usize = 0;
        while i < n
            invariant
                i <= n,
                n == self.entries@.len(),
                s == pairs_view(self.entries@),
                keys_unique(s),
                forall|j: int| 0 <= j < i ==> s[j].0 != name@,
            decreases n - i,
        {
            if str_equal(self.entries[i].0.as_str(), name) {
                proof {
                    assert(s[i as int].0 == name@);
                    assert(self@.contains_key(name@));
                    let c = choose|j: int| 0 <= j < s.len() && s[j].0 == name@;
                    assert(c == i);
                }
                return self.entries[i].1.as_str();
            }
            i = i + 1;
        }
        proof {
            reveal_strlit("");
        }
        ""
    }
}

/// An extraction root that keeps files inside the install root: empty, or a
/// relative path that ends in a separator and stays inside.
pub open spec fn is_dir_root(dir: Seq<char>) -> bool {
    stays_inside(dir) && (dir.len() == 0 || is_sep(dir.last()))
}

/// Every extraction root of a table keeps its files inside the install root.
pub open spec fn roots_keep_inside(t: Map<Seq<char>, Seq<char>>) -> bool {
    forall|k: Seq<char>| #[trigger] t.contains_key(k) ==> is_dir_root(t[k])
}

/// Every directory of the Windows player's table keeps the files of its
/// archive inside the install root.
pub proof fn lemma_player_roots_stay_inside()
    ensures
        forall|k: Seq<char>| #[trigger]
            windows_player_roots().contains_key(k) ==> is_dir_root(windows_player_roots()[k]),
{
    reveal_strlit("");
    assert(is_dir_root(""@));
    reveal_strlit("shaders/");
    assert(is_dir_root("shaders/"@));
    reveal_strlit("ssl/");
    assert(is_dir_root("ssl/"@));
    reveal_strlit("WebView2RuntimeInstaller/");
    assert(is_dir_root("WebView2RuntimeInstaller/"@));
    reveal_strlit("content/avatar/");
    assert(is_dir_root("content/avatar/"@));
    reveal_strlit("content/configs/");
    assert(is_dir_root("content/configs/"@));
    reveal_strlit("content/fonts/");
    assert(is_dir_root("content/fonts/"@));
    reveal_strlit("content/sky/");
    assert(is_dir_root("content/sky/"@));
    reveal_strlit("content/sounds/");
    assert(is_dir_root("content/sounds/"@));
    reveal_strlit("content/textures/");
    assert(is_dir_root("content/textures/"@));
    reveal_strlit("content/models/");
    assert(is_dir_root("content/models/"@));
    reveal_strlit("PlatformContent/pc/fonts/");
    assert(is_dir_root("PlatformContent/pc/fonts/"@));
    reveal_strlit("PlatformContent/pc/shared_compression_dictionaries/");
    assert(is_dir_root("PlatformContent/pc/shared_compression_dictionaries/"@));
    reveal_strlit("PlatformContent/pc/terrain/");
    assert(is_dir_root("PlatformContent/pc/terrain/"@));
    reveal_strlit("PlatformContent/pc/textures/");
    assert(is_dir_root("PlatformContent/pc/textures/"@));
    reveal_strlit("ExtraContent/LuaPackages/");
    assert(is_dir_root("ExtraContent/LuaPackages/"@));
    reveal_strlit("ExtraContent/translations/");
    assert(is_dir_root("ExtraContent/translations/"@));
    reveal_strlit("ExtraContent/models/");
    assert(is_dir_root("ExtraContent/models/"@));
    reveal_strlit("ExtraContent/textures/");
    assert(is_dir_root("ExtraContent/textures/"@));
    reveal_strlit("ExtraContent/places/");
    assert(is_dir_root("ExtraContent/places/"@));
}

} // verus!
